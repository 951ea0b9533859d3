//! Glossary entries.

use vstd::prelude::*;

verus! {

#[derive(Clone, PartialEq)]
pub struct Glossarywords {
    pub collection: Vec<Collection>,
}

#[derive(Clone, PartialEq)]
pub struct Collection {
    pub definition: Vec<String>,

    pub name: String,
}

} // verus!
