//! The seasons listed in the feed.

use vstd::prelude::*;

verus! {

#[derive(Clone, PartialEq)]
pub struct Feedseasonlist {
    pub collection: Vec<Collection>,
}

#[derive(Clone, PartialEq)]
pub struct Collection {
    pub index: i64,

    pub name: String,

    pub seasons: Vec<i64>,

    pub sim: String,
}

} // verus!
