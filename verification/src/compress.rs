use vstd::prelude::*;
use crate::{VCRError, VCRResult};

verus! {

pub open spec fn opt_bytes(v: &Option<Vec<u8>>) -> Option<Seq<u8>> {
    match v {
        Some(b) => Some(b@),
        None => None,
    }
}

/// The content that a magicless zstd frame holds, read with an optional dictionary; `None` when
/// the bytes are not such a frame.
pub uninterp spec fn zstd_block_content(dict: Option<Seq<u8>>, data: Seq<u8>) -> Option<Seq<u8>>;

/// Content that fits in `capacity` bytes; `None` for none, or for content that is longer.
pub open spec fn within(content: Option<Seq<u8>>, capacity: usize) -> Option<Seq<u8>> {
    match content {
        Some(c) => if c.len() <= capacity { Some(c) } else { None },
        None => None,
    }
}

/// Calls `zstd::bulk::Decompressor::decompress` on a decompressor set up with the dictionary
/// (or none) and the magicless frame format. Claimed: what it returns is the frame's whole
/// content, and every error becomes `CompressionError`. When it fails is left unsaid: it sizes
/// its output from a walk of the input that reads the standard frame format, so a valid
/// magicless frame can fail whatever `capacity` is, and the output buffer is a
/// `Vec::with_capacity(..)`, which may be given more room than asked for.
#[verifier::external_body]
pub(crate) fn decompress_block(dict: &Option<Vec<u8>>, data: &[u8], capacity: usize) -> (res: VCRResult<Vec<u8>>)
    ensures
        match res {
            Ok(v) => zstd_block_content(opt_bytes(dict), data@) == Some(v@),
            Err(e) => e == VCRError::CompressionError,
        },
{
    let made = match dict {
        Some(d) => zstd::bulk::Decompressor::with_dictionary(d),
        None => zstd::bulk::Decompressor::new(),
    };
    let mut decompressor = made.map_err(|_| VCRError::CompressionError)?;
    decompressor
        .set_parameter(zstd::zstd_safe::DParameter::Format(zstd::zstd_safe::FrameFormat::Magicless))
        .map_err(|_| VCRError::CompressionError)?;
    decompressor.decompress(data, capacity).map_err(|_| VCRError::CompressionError)
}

/// Decompresses a stored block into at most `capacity` bytes: its content when the
/// decompressor succeeds and the content fits, and otherwise `CompressionError` (always so when
/// the block is not a frame or its content is longer).
pub fn decompress_bounded(dict: &Option<Vec<u8>>, data: &[u8], capacity: usize) -> (res: VCRResult<Vec<u8>>)
    ensures
        match res {
            Ok(v) => within(zstd_block_content(opt_bytes(dict), data@), capacity) == Some(v@),
            Err(e) => e == VCRError::CompressionError,
        },
{
    let v = decompress_block(dict, data, capacity)?;
    if v.len() > capacity {
        return Err(VCRError::CompressionError);
    }
    Ok(v)
}

/// Calls `zstd::dict::from_continuous`. Claimed: every error becomes `CompressionError`.
/// What a trained dictionary holds, and its length, are left unsaid: the trainer writes into a
/// `Vec::with_capacity(max_size)`, which may be given more room than asked for.
#[verifier::external_body]
pub(crate) fn train_dictionary(samples: &[u8], sizes: &[usize], max_size: usize) -> (res: VCRResult<Vec<u8>>)
    ensures
        match res {
            Ok(_) => true,
            Err(e) => e == VCRError::CompressionError,
        },
{
    zstd::dict::from_continuous(samples, sizes, max_size).map_err(|_| VCRError::CompressionError)
}

/// A sub-slice of bytes.
pub fn slice_range(s: &[u8], start: usize, end: usize) -> (res: &[u8])
    requires
        start <= end <= s@.len(),
    ensures
        res@ == s@.subrange(start as int, end as int),
{
    vstd::slice::slice_subrange(s, start, end)
}

} // verus!

verus! {

/// What zstd's streaming decoder reads to the end from a complete frame, decompressed with an
/// optional dictionary; `None` when it reports an error.
pub uninterp spec fn zstd_stream_decompress(dict: Option<Seq<u8>>, data: Seq<u8>) -> Option<Seq<u8>>;

/// An optional slice as an optional sequence of bytes.
pub open spec fn opt_slice(d: Option<&[u8]>) -> Option<Seq<u8>> {
    match d {
        Some(b) => Some(b@),
        None => None,
    }
}

/// Reads a `zstd::stream::Decoder` (created with the dictionary, or without one) to the end.
/// Claimed: the result is a function of the dictionary and the data alone, and every error
/// becomes `CompressionError`.
#[verifier::external_body]
pub(crate) fn stream_decompress(dict: Option<&[u8]>, data: &[u8]) -> (res: VCRResult<Vec<u8>>)
    ensures
        match zstd_stream_decompress(opt_slice(dict), data@) {
            Some(b) => res matches Ok(v) && v@ == b,
            None => res == Err::<Vec<u8>, VCRError>(VCRError::CompressionError),
        },
{
    let mut out: Vec<u8> = Vec::new();
    let read = match dict {
        Some(d) => zstd::stream::Decoder::with_dictionary(data, d).and_then(|mut r| std::io::Read::read_to_end(&mut r, &mut out)),
        None => zstd::stream::Decoder::new(data).and_then(|mut r| std::io::Read::read_to_end(&mut r, &mut out)),
    };
    read.map(|_| out).map_err(|_| VCRError::CompressionError)
}

/// Decompresses a whole zstd frame made without a dictionary, as stored headers, indexes and
/// position tables are kept.
pub fn decompress_file(bytes: &[u8]) -> (res: VCRResult<Vec<u8>>)
    ensures
        match zstd_stream_decompress(None, bytes@) {
            Some(b) => res matches Ok(v) && v@ == b,
            None => res == Err::<Vec<u8>, VCRError>(VCRError::CompressionError),
        },
{
    stream_decompress(None, bytes)
}

/// Converts bytes to a `String` with `String::from_utf8`: text exactly when the bytes are valid
/// UTF-8, and then the text they encode.
#[verifier::external_body]
pub(crate) fn utf8_to_string(bytes: Vec<u8>) -> (res: Option<String>)
    ensures
        res is Some <==> vstd::utf8::valid_utf8(bytes@),
        res matches Some(s) ==> s@ == vstd::utf8::decode_utf8(bytes@),
{
    String::from_utf8(bytes).ok()
}


/// The whole content of a complete zstd frame decompressed without a dictionary, when there
/// is room for all of it; `None` when zstd rejects the frame.
pub uninterp spec fn zstd_frame_content(data: Seq<u8>) -> Option<Seq<u8>>;

/// Calls `zstd::bulk::decompress`. Claimed: what it returns is the frame's whole content,
/// every error becomes `CompressionError`, and a frame whose content fits in `capacity` bytes
/// is decompressed. Whether a frame with longer content fails is left unsaid, as for
/// `decompress_block`.
#[verifier::external_body]
pub(crate) fn decompress_frame(data: &[u8], capacity: usize) -> (res: VCRResult<Vec<u8>>)
    ensures
        match res {
            Ok(v) => zstd_frame_content(data@) == Some(v@),
            Err(e) => e == VCRError::CompressionError && within(zstd_frame_content(data@), capacity) is None,
        },
{
    zstd::bulk::decompress(data, capacity).map_err(|_| VCRError::CompressionError)
}

/// Decompresses a complete frame into at most `capacity` bytes: its content when that fits,
/// and `CompressionError` when the frame is rejected or its content is longer.
pub fn frame_bounded(data: &[u8], capacity: usize) -> (res: VCRResult<Vec<u8>>)
    ensures
        match within(zstd_frame_content(data@), capacity) {
            Some(b) => res matches Ok(v) && v@ == b,
            None => res == Err::<Vec<u8>, VCRError>(VCRError::CompressionError),
        },
{
    let v = decompress_frame(data, capacity)?;
    if v.len() > capacity {
        return Err(VCRError::CompressionError);
    }
    Ok(v)
}


/// What zstd's bulk compressor makes of some bytes at a compression level, with an optional
/// dictionary, writing neither the dictionary id nor the magic bytes; `None` when it reports
/// an error.
pub uninterp spec fn zstd_block_compress(dict: Option<Seq<u8>>, level: i32, data: Seq<u8>) -> Option<Seq<u8>>;

/// Calls `zstd::bulk::Compressor::compress` on a compressor set up with the dictionary (or
/// none) and the level, with the dictionary id flag off and the magicless frame format.
/// Claimed: the result is a function of the dictionary, the level and the data alone, every
/// error becomes `CompressionError`, and, zstd being lossless, the compressed block's content
/// for the block decompressor with the same dictionary is the data.
#[verifier::external_body]
pub(crate) fn compress_block(dict: &Option<Vec<u8>>, level: i32, data: &[u8]) -> (res: VCRResult<Vec<u8>>)
    ensures
        match zstd_block_compress(opt_bytes(dict), level, data@) {
            Some(b) => res matches Ok(v) && v@ == b,
            None => res == Err::<Vec<u8>, VCRError>(VCRError::CompressionError),
        },
        res matches Ok(v) ==> zstd_block_content(opt_bytes(dict), v@) == Some(data@),
{
    let made = match dict {
        Some(d) => zstd::bulk::Compressor::with_dictionary(level, d),
        None => zstd::bulk::Compressor::new(level),
    };
    let mut c = made.map_err(|_| VCRError::CompressionError)?;
    c.set_parameter(zstd::zstd_safe::CParameter::DictIdFlag(false)).map_err(|_| VCRError::CompressionError)?;
    c.set_parameter(zstd::zstd_safe::CParameter::Format(zstd::zstd_safe::FrameFormat::Magicless)).map_err(|_| VCRError::CompressionError)?;
    c.compress(data).map_err(|_| VCRError::CompressionError)
}

} // verus!
