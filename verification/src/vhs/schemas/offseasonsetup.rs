//! Decrees up for a vote.

use vstd::prelude::*;

verus! {

#[derive(Clone, PartialEq)]
pub struct Decree {
    pub id: Option<String>,

    pub description: String,

    pub decree_id: Option<String>,

    pub metadata: Option<DecreeMetadata>,

    pub source: Option<i64>,

    pub title: String,

    pub decree_type: i64,

    pub votes: Option<i64>,
}

#[derive(Clone, PartialEq)]
pub struct DecreeMetadata {
    pub event_description: String,

    pub metadata_mod: String,

    pub mod_type: i64,
}

} // verus!
