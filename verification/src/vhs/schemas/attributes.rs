//! Player and team attribute descriptions.

use vstd::prelude::*;

verus! {

#[derive(Clone, PartialEq)]
pub struct Attributes {
    pub collection: Vec<Collection>,
}

#[derive(Clone, PartialEq)]
pub struct Collection {
    pub background: String,

    pub color: String,

    pub description: String,

    pub descriptions: Option<Descriptions>,

    pub id: String,

    pub text_color: String,

    pub title: String,
}

#[derive(Clone, PartialEq)]
pub struct Descriptions {
    pub ballpark: Option<String>,

    pub league: Option<String>,

    pub player: Option<String>,

    pub team: Option<String>,
}

} // verus!
