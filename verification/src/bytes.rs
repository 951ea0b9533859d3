use vstd::prelude::*;

verus! {

/// The UTF-8 bytes of a text.
#[verifier::opaque]
pub open spec fn utf8_bytes(s: Seq<char>) -> Seq<u8> {
    vstd::utf8::encode_utf8(s)
}

/// The bytes of a string slice are the UTF-8 bytes of its text.
pub proof fn lemma_str_bytes(s: &str)
    ensures
        vstd::string::StringSliceAdditionalSpecFns::spec_bytes(s) == utf8_bytes(s@),
{
    reveal(utf8_bytes);
}

/// Big-endian bytes of a `u16`.
pub open spec fn be16(x: u16) -> Seq<u8> {
    seq![(x / 256) as u8, (x % 256) as u8]
}

/// Big-endian bytes of a `u32`.
pub open spec fn be32(x: u32) -> Seq<u8> {
    seq![(x / 0x100_0000) as u8, ((x / 0x1_0000) % 256) as u8, ((x / 256) % 256) as u8, (x % 256) as u8]
}

/// The value of two big-endian bytes.
pub open spec fn from_be16(b: Seq<u8>, pos: int) -> u16 {
    (b[pos] as int * 256 + b[pos + 1] as int) as u16
}

/// The value of four big-endian bytes.
pub open spec fn from_be32(b: Seq<u8>, pos: int) -> u32 {
    (b[pos] as int * 0x100_0000 + b[pos + 1] as int * 0x1_0000 + b[pos + 2] as int * 256 + b[pos + 3] as int) as u32
}

/// The big-endian bytes of each value, one after another.
pub open spec fn be16_all(s: Seq<u16>) -> Seq<u8>
    decreases s.len(),
{
    if s.len() == 0 {
        Seq::empty()
    } else {
        be16_all(s.drop_last()) + be16(s.last())
    }
}

/// Appends bytes to a buffer.
pub fn push_bytes(out: &mut Vec<u8>, src: &[u8])
    ensures
        final(out)@ == old(out)@ + src@,
{
    let ghost start = out@;
    let mut i: usize = 0;
    while i < src.len()
        invariant
            i <= src@.len(),
            out@ == start + src@.subrange(0, i as int),
        decreases src@.len() - i,
    {
        out.push(src[i]);
        proof {
            assert(src@.subrange(0, i + 1) =~= src@.subrange(0, i as int).push(src@[i as int]));
            assert(start + src@.subrange(0, i + 1) =~= (start + src@.subrange(0, i as int)).push(src@[i as int]));
        }
        i = i + 1;
    }
    proof {
        assert(src@.subrange(0, src@.len() as int) =~= src@);
    }
}

/// Appends a `u16` in big-endian order.
pub fn push_be16(out: &mut Vec<u8>, x: u16)
    ensures
        final(out)@ == old(out)@ + be16(x),
{
    out.push((x / 256) as u8);
    out.push((x % 256) as u8);
    assert(final(out)@ =~= old(out)@ + be16(x));
}

/// Appends a `u32` in big-endian order.
pub fn push_be32(out: &mut Vec<u8>, x: u32)
    ensures
        final(out)@ == old(out)@ + be32(x),
{
    out.push((x / 0x100_0000) as u8);
    out.push(((x / 0x1_0000) % 256) as u8);
    out.push(((x / 256) % 256) as u8);
    out.push((x % 256) as u8);
    assert(final(out)@ =~= old(out)@ + be32(x));
}

} // verus!
