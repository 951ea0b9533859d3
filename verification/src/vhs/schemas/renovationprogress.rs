//! Progress of a stadium renovation.

use vstd::prelude::*;

verus! {

#[derive(PartialEq, Clone)]
pub struct Stat {
    pub id: String,
    pub percent: String,
}

} // verus!
