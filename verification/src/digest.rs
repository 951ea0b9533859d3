//! Content hashes of serialized entities, as lowercase hexadecimal text.

use vstd::prelude::*;
use crate::uuid_text::hex_char;

verus! {

/// The SHA-224 digest of some bytes.
pub uninterp spec fn sha224(data: Seq<u8>) -> Seq<u8>;

/// Calls `sha2::Sha224::digest`. Claimed: the digest is a function of the bytes alone, and
/// is 28 bytes long, as SHA-224 digests are.
#[verifier::external_body]
pub(crate) fn sha224_digest(data: &[u8]) -> (res: Vec<u8>)
    ensures
        res@ == sha224(data@),
        res@.len() == 28,
{
    <sha2::Sha224 as sha2::Digest>::digest(data).to_vec()
}

/// The lowercase hexadecimal digits of bytes, two per byte, high nibble first.
pub open spec fn hex_text(b: Seq<u8>) -> Seq<char> {
    Seq::new(2 * b.len(), |i: int| hex_char(if i % 2 == 0 { b[i / 2] as int / 16 } else { b[i / 2] as int % 16 }))
}

fn hex_digit(n: u8) -> (res: &'static str)
    requires
        n < 16,
    ensures
        res@ == seq![hex_char(n as int)],
{
    proof {
        reveal_strlit("0");
        reveal_strlit("1");
        reveal_strlit("2");
        reveal_strlit("3");
        reveal_strlit("4");
        reveal_strlit("5");
        reveal_strlit("6");
        reveal_strlit("7");
        reveal_strlit("8");
        reveal_strlit("9");
        reveal_strlit("a");
        reveal_strlit("b");
        reveal_strlit("c");
        reveal_strlit("d");
        reveal_strlit("e");
        reveal_strlit("f");
    }
    let r = match n {
        0 => "0",
        1 => "1",
        2 => "2",
        3 => "3",
        4 => "4",
        5 => "5",
        6 => "6",
        7 => "7",
        8 => "8",
        9 => "9",
        10 => "a",
        11 => "b",
        12 => "c",
        13 => "d",
        14 => "e",
        _ => "f",
    };
    assert(r@ =~= seq![hex_char(n as int)]);
    r
}

/// Formats bytes as lowercase hexadecimal text.
pub fn hex_string(b: &[u8]) -> (res: String)
    ensures
        res@ == hex_text(b@),
{
    let mut s = String::new();
    let mut i: usize = 0;
    while i < b.len()
        invariant
            i <= b@.len(),
            s@ == hex_text(b@.subrange(0, i as int)),
        decreases b@.len() - i,
    {
        let hi = hex_digit(b[i] / 16);
        let lo = hex_digit(b[i] % 16);
        s.append(hi);
        s.append(lo);
        proof {
            let pre = b@.subrange(0, i as int);
            let next = b@.subrange(0, i + 1);
            assert forall|j: int| 0 <= j < 2 * pre.len() implies #[trigger] hex_text(next)[j] == hex_text(pre)[j] by {
                assert(next[j / 2] == pre[j / 2]);
            }
            assert(hex_text(next) =~= hex_text(pre) + seq![hex_char(b[i as int] as int / 16)] + seq![hex_char(b[i as int] as int % 16)]);
        }
        i = i + 1;
    }
    assert(b@.subrange(0, b@.len() as int) =~= b@);
    s
}

/// The hash of a serialized entity: the lowercase hexadecimal text of the SHA-224 digest of
/// its bytes.
pub fn entity_hash(serialized: &[u8]) -> (res: String)
    ensures
        res@ == hex_text(sha224(serialized@)),
        res@.len() == 56,
{
    let d = sha224_digest(serialized);
    hex_string(d.as_slice())
}

} // verus!
