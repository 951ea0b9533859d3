use vstd::prelude::*;
use crate::{VCRError, VCRResult};
use crate::search::{floor_search, floor_index};
use crate::compress::{decompress_bounded, zstd_block_content, within, opt_bytes};
use super::{BlockHeader, EncodedBlockHeader};
use super::block::EventBlock;

verus! {

/// The sum of the compressed lengths of the first `n` stored block headers.
pub open spec fn compressed_prefix(s: Seq<EncodedBlockHeader>, n: int) -> int
    decreases n,
{
    if n <= 0 {
        0
    } else {
        compressed_prefix(s, n - 1) + s[n - 1].compressed_len
    }
}

proof fn lemma_prefix_monotone(s: Seq<EncodedBlockHeader>, a: int, b: int)
    requires
        0 <= a <= b,
    ensures
        compressed_prefix(s, a) <= compressed_prefix(s, b),
    decreases b - a,
{
    if a < b {
        lemma_prefix_monotone(s, a, b - 1);
    }
}

/// A copy of a list of event positions.
pub fn copy_positions(v: &Vec<(u64, u32)>) -> (res: Vec<(u64, u32)>)
    ensures
        res@ == v@,
{
    let mut out: Vec<(u64, u32)> = Vec::new();
    let mut i: usize = 0;
    while i < v.len()
        invariant
            i <= v@.len(),
            out@ == v@.subrange(0, i as int),
        decreases v@.len() - i,
    {
        out.push(v[i]);
        proof {
            assert(v@.subrange(0, i + 1) =~= v@.subrange(0, i as int).push(v@[i as int]));
        }
        i = i + 1;
    }
    proof {
        assert(v@.subrange(0, v@.len() as int) =~= v@);
    }
    out
}

/// A header with its offset, as `FeedDatabase` keeps it.
pub open spec fn placed_header(h: EncodedBlockHeader, offset: int) -> (u32, u32, u64, Seq<(u64, u32)>, int) {
    (h.compressed_len, h.decompressed_len, h.start_time, h.event_positions@, offset)
}

pub open spec fn header_fields(h: BlockHeader) -> (u32, u32, u64, Seq<(u64, u32)>, int) {
    (h.compressed_len, h.decompressed_len, h.start_time, h.event_positions@, h.offset as int)
}

/// The feed: the compressed blocks, the dictionary they were compressed with, and a header per block.
pub struct FeedDatabase {
    inner: Vec<u8>,
    dict: Option<Vec<u8>>,
    headers: Vec<BlockHeader>,
}

impl FeedDatabase {
    pub closed spec fn headers_view(&self) -> Seq<BlockHeader> {
        self.headers@
    }

    pub closed spec fn data_view(&self) -> Seq<u8> {
        self.inner@
    }

    pub closed spec fn dict_view(&self) -> Option<Seq<u8>> {
        opt_bytes(&self.dict)
    }

    /// Lays the stored headers out one after another: each block starts where the previous one ends.
    pub fn from_parts(inner: Vec<u8>, dict: Option<Vec<u8>>, raw_headers: Vec<EncodedBlockHeader>) -> (res: FeedDatabase)
        requires
            compressed_prefix(raw_headers@, raw_headers@.len() as int) <= u32::MAX,
        ensures
            res.data_view() == inner@,
            res.dict_view() == opt_bytes(&dict),
            res.headers_view().len() == raw_headers@.len(),
            forall|i: int| 0 <= i < raw_headers@.len() ==> header_fields(#[trigger] res.headers_view()[i])
                == placed_header(raw_headers@[i], compressed_prefix(raw_headers@, i)),
    {
        let ghost raw = raw_headers@;
        let mut offset: u32 = 0;
        let mut headers: Vec<BlockHeader> = Vec::new();
        let mut i: usize = 0;
        let n = raw_headers.len();
        while i < n
            invariant
                n == raw.len(),
                raw == raw_headers@,
                i <= n,
                offset == compressed_prefix(raw, i as int),
                compressed_prefix(raw, n as int) <= u32::MAX,
                headers@.len() == i,
                forall|j: int| 0 <= j < i ==> header_fields(#[trigger] headers@[j])
                    == placed_header(raw[j], compressed_prefix(raw, j)),
            decreases n - i,
        {
            let header = &raw_headers[i];
            proof {
                lemma_prefix_monotone(raw, i + 1, n as int);
            }
            let compressed_len = header.compressed_len;
            let positions = copy_positions(&header.event_positions);
            headers.push(BlockHeader {
                compressed_len,
                decompressed_len: header.decompressed_len,
                start_time: header.start_time,
                event_positions: positions,
                offset,
            });
            offset = offset + compressed_len;
            i = i + 1;
        }
        FeedDatabase { inner, dict, headers }
    }

    /// Decompresses the block that holds a time: the block with the latest start time at or
    /// before it, or the first block when every block starts later. `Malformed` when there is no
    /// block or the block's bytes lie beyond the data; the block's bytes are never longer than
    /// its stored decompressed length.
    pub fn get_block_by_time(&self, at: u64) -> (res: VCRResult<EventBlock>)
        ensures
            self.headers_view().len() == 0 ==> res == Err::<EventBlock, VCRError>(VCRError::Malformed),
            self.headers_view().len() > 0 ==> exists|index: int| {
                &&& floor_index(self.headers_view(), at as int, index)
                &&& #[trigger] block_result(self, index, res)
                &&& res matches Ok(b) ==> b.bytes@.len() <= self.headers_view()[index].decompressed_len
            },
    {
        if self.headers.len() == 0 {
            return Err(VCRError::Malformed);
        }
        let index = floor_search(self.headers.as_slice(), at);
        let header = &self.headers[index];
        let end = header.offset as u64 + header.compressed_len as u64;
        if end > self.inner.len() as u64 {
            let r = Err(VCRError::Malformed);
            assert(block_result(self, index as int, r));
            return r;
        }
        let data = crate::compress::slice_range(self.inner.as_slice(), header.offset as usize, end as usize);
        let decompressed = decompress_bounded(&self.dict, data, header.decompressed_len as usize);
        let r = match decompressed {
            Ok(bytes) => Ok(EventBlock { bytes, event_positions: copy_positions(&header.event_positions) }),
            Err(e) => Err(e),
        };
        assert(block_result(self, index as int, r));
        r
    }
}

/// What reading block `index` gives: `Malformed` when its bytes lie beyond the data, and
/// otherwise either the decompressed bytes (the block's content, no longer than its stored
/// length) with the block's event positions, or `CompressionError` when the decompressor
/// fails (always so when the block holds no such content).
pub open spec fn block_result(db: &FeedDatabase, index: int, res: VCRResult<EventBlock>) -> bool {
    let h = db.headers_view()[index];
    if h.offset + h.compressed_len > db.data_view().len() {
        res == Err::<EventBlock, VCRError>(VCRError::Malformed)
    } else {
        match res {
            Ok(b) => within(zstd_block_content(db.dict_view(), db.data_view().subrange(h.offset as int, h.offset + h.compressed_len)),
                h.decompressed_len as usize) == Some(b.bytes@) && b.event_positions@ == h.event_positions@,
            Err(e) => e == VCRError::CompressionError,
        }
    }
}

} // verus!
