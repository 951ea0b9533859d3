//! The idol board.

use vstd::prelude::*;

verus! {

#[derive(Clone, PartialEq)]
pub struct Idols {
    pub inner: IdolsInner
}

#[derive(Clone, PartialEq)]
pub enum IdolsInner {
    IdolArray(Vec<Idol>),

    IdolsClass(IdolsClass),
}

#[derive(Clone, PartialEq)]
pub struct Idol {
    pub id: Option<String>,

    pub player_id: String,

    pub total: Option<i64>,
}

#[derive(Clone, PartialEq)]
pub struct IdolsClass {
    pub data: Data,

    pub idols: Vec<String>,
}

#[derive(Clone, PartialEq)]
pub struct Data {
    pub strictly_confidential: i64,
}

} // verus!
