use vstd::prelude::*;

verus! {

/// The lowercase hexadecimal digit of a nibble.
pub open spec fn hex_char(n: int) -> char {
    if n < 10 { (48 + n) as char } else { (87 + n) as char }
}

/// The 32 hexadecimal digits of sixteen bytes, high nibble first.
pub open spec fn hex_digits(b: Seq<u8>) -> Seq<char> {
    Seq::new(32, |i: int| hex_char(if i % 2 == 0 { b[i / 2] as int / 16 } else { b[i / 2] as int % 16 }))
}

/// The hyphenated lowercase text of a UUID: groups of 8, 4, 4, 4 and 12 digits.
pub open spec fn uuid_text(b: Seq<u8>) -> Seq<char> {
    let h = hex_digits(b);
    h.subrange(0, 8) + seq!['-'] + h.subrange(8, 12) + seq!['-'] + h.subrange(12, 16) + seq!['-']
        + h.subrange(16, 20) + seq!['-'] + h.subrange(20, 32)
}

/// Formats sixteen bytes with `uuid::Uuid::to_string`: the hyphenated lowercase form.
#[verifier::external_body]
pub(crate) fn uuid_to_string(id: &[u8; 16]) -> (res: String)
    ensures
        res@ == uuid_text(id@),
{
    uuid::Uuid::from_bytes(*id).to_string()
}

} // verus!
