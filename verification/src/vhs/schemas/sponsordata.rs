//! Sponsor messages.

use vstd::prelude::*;

verus! {

#[derive(Clone, PartialEq)]
pub struct Sponsordata {
    pub hide_header_on_widget: bool,

    pub sponsor_button_text: String,

    pub sponsor_description: String,

    pub sponsor_link: String,

    pub sponsor_name: String,
}

} // verus!
