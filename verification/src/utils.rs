use vstd::prelude::*;
use crate::VCRResult;
use crate::VCRError;

verus! {

/// The length prefix used throughout the feed format: one byte for lengths below 255,
/// otherwise the byte 255 followed by the length as a big-endian `u16`.
pub open spec fn spec_encode_varint(i: u16) -> Seq<u8> {
    if i >= 255 {
        seq![255u8, (i / 256) as u8, (i % 256) as u8]
    } else {
        seq![i as u8]
    }
}

pub fn encode_varint(i: u16) -> (res: Vec<u8>)
    ensures
        res@ == spec_encode_varint(i),
{
    if i >= 255 {
        let mut v: Vec<u8> = Vec::new();
        v.push(255u8);
        v.push((i / 256) as u8);
        v.push((i % 256) as u8);
        v
    } else {
        let mut v: Vec<u8> = Vec::new();
        v.push(i as u8);
        v
    }
}

/// What reading a length prefix at `pos` gives: the value and the position after it,
/// or `None` when the bytes end first.
pub open spec fn spec_decode_varint(bytes: Seq<u8>, pos: int) -> Option<(u16, int)> {
    if pos < 0 || pos >= bytes.len() {
        None
    } else if bytes[pos] == 255u8 {
        if pos + 3 > bytes.len() {
            None
        } else {
            Some(((bytes[pos + 1] as u16 * 256 + bytes[pos + 2] as u16) as u16, pos + 3))
        }
    } else {
        Some((bytes[pos] as u16, pos + 1))
    }
}

/// Reads a length prefix written by `encode_varint`.
pub fn decode_varint(bytes: &[u8], pos: usize) -> (res: VCRResult<(u16, usize)>)
    ensures
        match spec_decode_varint(bytes@, pos as int) {
            Some((v, next)) => res == Ok::<(u16, usize), VCRError>((v, next as usize)),
            None => res == Err::<(u16, usize), VCRError>(VCRError::UnexpectedEof),
        },
{
    if pos >= bytes.len() {
        return Err(VCRError::UnexpectedEof);
    }
    let first = bytes[pos];
    if first == 255u8 {
        if bytes.len() - pos < 3 {
            return Err(VCRError::UnexpectedEof);
        }
        let v: u16 = bytes[pos + 1] as u16 * 256 + bytes[pos + 2] as u16;
        Ok((v, pos + 3))
    } else {
        Ok((first as u16, pos + 1))
    }
}

/// Encoding a length and reading it back gives the same length.
pub proof fn lemma_varint_roundtrip(i: u16, rest: Seq<u8>)
    ensures
        spec_decode_varint(spec_encode_varint(i) + rest, 0) == Some((i, spec_encode_varint(i).len() as int)),
{
    let s = spec_encode_varint(i) + rest;
    if i >= 255 {
        assert(s[0] == 255u8);
        assert(s[1] == (i / 256) as u8);
        assert(s[2] == (i % 256) as u8);
    } else {
        assert(s[0] == i as u8);
    }
}

/// Whether a result is the error that signals the end of the input.
pub fn is_eof<T>(err: &VCRResult<T>) -> (res: bool)
    ensures
        res == (*err == Err::<T, VCRError>(VCRError::UnexpectedEof)),
{
    match err {
        Ok(_) => false,
        Err(e) => match e {
            VCRError::UnexpectedEof => true,
            _ => false,
        },
    }
}

} // verus!
