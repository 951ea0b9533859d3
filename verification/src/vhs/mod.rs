//! Entity tapes: for each entity, its version times and a compressed run of checkpoints and
//! patches.

use vstd::prelude::*;

pub mod db;
pub mod schemas;

verus! {

/// Where an entity's versions lie in a tape: the entity's id; the time of each version; the
/// offset and length of its compressed data and the data's decompressed length; how often a
/// full checkpoint is stored; and where each checkpoint starts in the decompressed data.
pub struct DataHeader {
    pub id: [u8; 16],
    pub times: Vec<u32>,
    pub offset: u32,
    pub compressed_len: u32,
    pub decompressed_len: u32,
    pub checkpoint_every: usize,
    pub checkpoint_positions: Vec<usize>,
}

} // verus!
