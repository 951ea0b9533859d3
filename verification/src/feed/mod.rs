//! The event feed is split into blocks of events. Each block has a header holding its length
//! when compressed and decompressed, the time of its first event and the position of every event
//! inside it. To find the event at a time, the block holding that time is found by binary
//! search, decompressed, and the event is looked up inside it.

use vstd::prelude::*;
use crate::search::TimeKeyed;

pub mod block;
pub mod db;
pub mod desc;
pub mod event;
pub mod index;
pub mod metadata;
pub mod recorder;
pub mod decode;
pub mod reader;

verus! {

/// A block header as it is stored.
pub struct EncodedBlockHeader {
    pub compressed_len: u32,
    pub decompressed_len: u32,
    pub start_time: u64,
    pub event_positions: Vec<(u64, u32)>,
}

/// A block header together with the block's offset in the feed data.
pub struct BlockHeader {
    pub compressed_len: u32,
    pub decompressed_len: u32,
    pub start_time: u64,
    pub event_positions: Vec<(u64, u32)>,
    pub offset: u32,
}

impl TimeKeyed for EncodedBlockHeader {
    open spec fn time_key(&self) -> int {
        self.start_time as int
    }

    fn key(&self) -> (k: u64) {
        self.start_time
    }
}

impl TimeKeyed for BlockHeader {
    open spec fn time_key(&self) -> int {
        self.start_time as int
    }

    fn key(&self) -> (k: u64) {
        self.start_time
    }
}

} // verus!
