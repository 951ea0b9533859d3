//! The single-file layout shared by the feed and the entity tapes: a dictionary, a compressed
//! header and the data, each section preceded by its length.

use vstd::prelude::*;
use crate::{VCRError, VCRResult};
use crate::compress::slice_range;

verus! {

/// The value of eight little-endian bytes at `p`.
pub open spec fn le64(b: Seq<u8>, p: int) -> int {
    b[p] as int + 256 * (b[p + 1] as int + 256 * (b[p + 2] as int + 256 * (b[p + 3] as int
        + 256 * (b[p + 4] as int + 256 * (b[p + 5] as int + 256 * (b[p + 6] as int + 256 * (b[p + 7] as int)))))))
}

/// The sections of a tape file: the dictionary's length (eight bytes, little-endian) and the
/// dictionary (none when the length is 0), the header's length and the header, and where the
/// data starts. A file that ends inside a length or a section cannot be read.
pub open spec fn spec_tape_sections(b: Seq<u8>) -> Result<(Option<Seq<u8>>, Seq<u8>, int), VCRError> {
    if b.len() < 8 {
        Err(VCRError::UnexpectedEof)
    } else {
        let dl = le64(b, 0);
        if 8 + dl > b.len() {
            Err(VCRError::UnexpectedEof)
        } else {
            let q = 8 + dl;
            if q + 8 > b.len() {
                Err(VCRError::UnexpectedEof)
            } else {
                let hl = le64(b, q);
                if q + 8 + hl > b.len() {
                    Err(VCRError::UnexpectedEof)
                } else {
                    Ok((if dl > 0 { Some(b.subrange(8, q)) } else { None }, b.subrange(q + 8, q + 8 + hl), q + 8 + hl))
                }
            }
        }
    }
}

/// A tape's sections: the dictionary, the (compressed) header, and where the data starts.
pub struct TapeSections {
    pub dict: Option<Vec<u8>>,
    pub header: Vec<u8>,
    pub data_start: usize,
}

fn read_le64(b: &[u8], p: usize) -> (res: u64)
    requires
        p + 8 <= b@.len(),
    ensures
        res as int == le64(b@, p as int),
{
    let n: usize = b.len();
    assert(p + 8 <= n);
    let v7: u64 = b[p + 7] as u64;
    let v6: u64 = b[p + 6] as u64 + 256 * v7;
    assert(v6 < 0x1_0000);
    let v5: u64 = b[p + 5] as u64 + 256 * v6;
    assert(v5 < 0x100_0000);
    let v4: u64 = b[p + 4] as u64 + 256 * v5;
    assert(v4 < 0x1_0000_0000);
    let v3: u64 = b[p + 3] as u64 + 256 * v4;
    assert(v3 < 0x100_0000_0000);
    let v2: u64 = b[p + 2] as u64 + 256 * v3;
    assert(v2 < 0x1_0000_0000_0000);
    let v1: u64 = b[p + 1] as u64 + 256 * v2;
    assert(v1 < 0x100_0000_0000_0000);
    let v0: u64 = b[p] as u64 + 256 * v1;
    v0
}

fn copy_bytes(b: &[u8], start: usize, end: usize) -> (res: Vec<u8>)
    requires
        start <= end <= b@.len(),
    ensures
        res@ == b@.subrange(start as int, end as int),
{
    let mut out: Vec<u8> = Vec::new();
    crate::bytes::push_bytes(&mut out, slice_range(b, start, end));
    out
}

/// Splits a tape file into its sections.
pub fn tape_sections(b: &[u8]) -> (res: VCRResult<TapeSections>)
    ensures
        match spec_tape_sections(b@) {
            Ok((d, h, s)) => res matches Ok(t) && crate::compress::opt_bytes(&t.dict) == d && t.header@ == h && t.data_start == s,
            Err(e) => res matches Err(e2) && e2 == e,
        },
{
    let n = b.len();
    if n < 8 {
        return Err(VCRError::UnexpectedEof);
    }
    let dl = read_le64(b, 0);
    if dl > (n - 8) as u64 {
        return Err(VCRError::UnexpectedEof);
    }
    let q = 8 + dl as usize;
    if n - q < 8 {
        return Err(VCRError::UnexpectedEof);
    }
    let hl = read_le64(b, q);
    if hl > (n - q - 8) as u64 {
        return Err(VCRError::UnexpectedEof);
    }
    let e = q + 8 + hl as usize;
    let dict = if dl > 0 { Some(copy_bytes(b, 8, q)) } else { None };
    let header = copy_bytes(b, q + 8, e);
    Ok(TapeSections { dict, header, data_start: e })
}

} // verus!
