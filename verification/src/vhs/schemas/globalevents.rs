//! Messages shown in the global ticker.

use vstd::prelude::*;

verus! {

#[derive(Clone, PartialEq)]
pub struct GlobaleventsWrapper {
    pub inner: Globalevents
}

pub type Globalevents = Vec<Globalevent>;

#[derive(Clone, PartialEq)]
pub struct Globalevent {
    pub v: Option<i64>,

    pub id: Option<String>,

    pub expire: Option<String>,

    pub globalevent_id: Option<String>,

    pub msg: String,
}

} // verus!
