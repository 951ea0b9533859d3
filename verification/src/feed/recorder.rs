use vstd::prelude::*;
use crate::VCRResult;
use crate::compress::{train_dictionary, compress_block, zstd_block_compress, zstd_block_content, within, opt_bytes};
use crate::search::{sort_by_time, keys_sorted, stable_sort, by_time_key};
use super::EncodedBlockHeader;

verus! {

/// The header of a recorded chunk: its event positions ordered by time, with the lengths of
/// the chunk before and after compression.
pub fn chunk_header(start_time: u64, event_positions: Vec<(u64, u32)>, compressed_len: usize, decompressed_len: usize) -> (res: EncodedBlockHeader)
    ensures
        res.start_time == start_time,
        res.compressed_len == compressed_len as u32,
        res.decompressed_len == decompressed_len as u32,
        res.event_positions@ == stable_sort(event_positions@, by_time_key::<(u64, u32)>()),
        keys_sorted(res.event_positions@),
{
    let mut positions = event_positions;
    sort_by_time(&mut positions);
    EncodedBlockHeader {
        compressed_len: compressed_len as u32,
        decompressed_len: decompressed_len as u32,
        start_time,
        event_positions: positions,
    }
}

/// Records a chunk: compresses its archived bytes (with the recorder's dictionary, if any, at
/// its compression level) and builds its header, whose start time is the time of the chunk's
/// first event. The block reads back: decompressed with the same dictionary into the length its
/// header records, it gives the chunk's bytes again.
pub fn record_chunk(dict: &Option<Vec<u8>>, level: i32, start_time: u64, event_positions: Vec<(u64, u32)>, bytes: &[u8]) -> (res: VCRResult<(EncodedBlockHeader, Vec<u8>)>)
    ensures
        match zstd_block_compress(opt_bytes(dict), level, bytes@) {
            None => res == Err::<(EncodedBlockHeader, Vec<u8>), crate::VCRError>(crate::VCRError::CompressionError),
            Some(c) => res matches Ok((h, out)) && out@ == c
                && h.compressed_len == c.len() as u32
                && h.decompressed_len == bytes@.len() as u32
                && h.start_time == start_time
                && h.event_positions@ == stable_sort(event_positions@, by_time_key::<(u64, u32)>())
                && keys_sorted(h.event_positions@),
        },
        res matches Ok((h, out)) ==> (bytes@.len() <= u32::MAX ==> within(zstd_block_content(opt_bytes(dict), out@), h.decompressed_len as usize) == Some(bytes@)),
{
    let compressed = compress_block(dict, level, bytes)?;
    let header = chunk_header(start_time, event_positions, compressed.len(), bytes.len());
    Ok((header, compressed))
}

/// Orders block headers by the time of their first event, as they are written out; headers
/// with the same time keep their order.
pub fn sort_headers(headers: &mut Vec<EncodedBlockHeader>)
    ensures
        final(headers)@ == stable_sort(old(headers)@, by_time_key::<EncodedBlockHeader>()),
        keys_sorted(final(headers)@),
{
    sort_by_time(headers);
}

/// Collects serialized chunks of events to train a compression dictionary on.
pub struct FeedDictTrainer {
    sample_sizes: Vec<usize>,
    samples: Vec<u8>,
}

impl FeedDictTrainer {
    /// The sizes of the samples collected so far.
    pub closed spec fn sizes_view(&self) -> Seq<usize> {
        self.sample_sizes@
    }

    /// The samples collected so far, laid end to end.
    pub closed spec fn samples_view(&self) -> Seq<u8> {
        self.samples@
    }

    pub fn new() -> (res: FeedDictTrainer)
        ensures
            res.sizes_view() == Seq::<usize>::empty(),
            res.samples_view() == Seq::<u8>::empty(),
    {
        FeedDictTrainer { sample_sizes: Vec::new(), samples: Vec::new() }
    }

    /// Adds the archived bytes of a chunk as one sample; an empty chunk adds nothing.
    pub fn add_chunk(&mut self, chunk: &[u8])
        ensures
            chunk@.len() == 0 ==> final(self).sizes_view() == old(self).sizes_view()
                && final(self).samples_view() == old(self).samples_view(),
            chunk@.len() > 0 ==> final(self).sizes_view() == old(self).sizes_view().push(chunk@.len() as usize)
                && final(self).samples_view() == old(self).samples_view() + chunk@,
    {
        if chunk.len() == 0 {
            return;
        }
        self.sample_sizes.push(chunk.len());
        crate::bytes::push_bytes(&mut self.samples, chunk);
    }

    /// Trains a dictionary of at most `dict_size` bytes on the collected samples.
    pub fn train(self, dict_size: usize) -> (res: VCRResult<Vec<u8>>)
        ensures
            res is Err ==> res == Err::<Vec<u8>, crate::VCRError>(crate::VCRError::CompressionError),
    {
        train_dictionary(self.samples.as_slice(), self.sample_sizes.as_slice(), dict_size)
    }
}

} // verus!
