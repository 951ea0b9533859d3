//! Entities stored as sequences of JSON patches: a header per entity and a file of compressed
//! patches.

use vstd::prelude::*;
use std::collections::HashMap;

pub mod header;
pub mod db;
pub mod tributes;

verus! {

/// Checkpoints every `u16::MAX` patches: in effect, none.
pub fn default_checkpoint() -> (res: u16)
    ensures
        res == u16::MAX,
{
    u16::MAX
}

/// The empty JSON value an entity's patches start from: `null`, `false`, `0`, `""`, `[]` or `{}`.
#[derive(Clone, Copy, Debug, PartialEq, Eq, Structural)]
pub enum BaseValue {
    Null,
    Bool,
    Number,
    String,
    Array,
    Object,
}

/// Starts from the empty object.
pub fn default_base() -> (res: BaseValue)
    ensures
        res == BaseValue::Object,
{
    BaseValue::Object
}

/// Where an entity's patches lie: (time, start, length) of each patch, the paths the patches
/// refer to by id, how often a checkpoint is stored, and the value the patches start from.
pub struct EntityData {
    pub patches: Vec<(u32, u32, u32)>,
    pub path_map: HashMap<u16, String>,
    pub checkpoint_every: u16,
    pub base: BaseValue,
}

} // verus!
