//! Stadium designs.

use vstd::prelude::*;

verus! {

#[derive(Clone, PartialEq)]
pub struct Stadiumprefabs {
    pub collection: Vec<Collection>,
}

#[derive(Clone, PartialEq)]
pub struct Collection {
    pub description: String,

    pub name: String,
}

} // verus!
