//! The state block of a player and the sources of their modifications.

use vstd::prelude::*;

verus! {

#[derive(Clone, PartialEq)]
pub struct ItemState {
    pub original: Option<String>,
}

#[derive(Clone, PartialEq)]
pub struct PlayerState {
    pub cut_this_election: Option<bool>,

    pub elsewhere: Option<Elsewhere>,

    pub game_mod_sources: Option<GameModSources>,

    pub hunches: Option<Vec<i64>>,

    pub investigations: Option<i64>,

    pub item_mod_sources: Option<ItemModSources>,

    pub necromancied_this_election: Option<bool>,

    pub original: Option<String>,

    pub perm_mod_sources: Option<PermModSources>,

    pub pre_investigation_index: Option<i64>,

    pub pre_investigation_location: Option<i64>,

    pub pre_investigation_team: Option<String>,

    pub redacted: Option<bool>,

    pub seas_mod_sources: Option<SeasModSources>,

    pub unscattered_name: Option<String>,
}

#[derive(Clone, PartialEq)]
pub struct Elsewhere {
    pub day: i64,

    pub season: i64,
}

#[derive(Clone, PartialEq)]
pub struct GameModSources {
    pub overperforming: Vec<String>,
}

#[derive(Clone, PartialEq)]
pub struct ItemModSources {
    pub ambitious: Option<Vec<String>>,

    pub bird_seed: Option<Vec<String>>,

    pub blaserunning: Option<Vec<String>>,

    pub careful: Option<Vec<String>>,

    pub chunky: Option<Vec<String>>,

    pub coasting: Option<Vec<String>>,

    pub coffee_peril: Option<Vec<String>>,

    pub containment: Option<Vec<String>>,

    pub curse_of_crows: Option<Vec<String>>,

    pub double_payouts: Option<Vec<String>>,

    pub entangled: Option<Vec<String>>,

    pub extra_strike: Option<Vec<String>>,

    pub fire_eater: Option<Vec<String>>,

    pub fire_protector: Option<Vec<String>>,

    pub fireproof: Option<Vec<String>>,

    pub flickering: Option<Vec<String>>,

    pub fliickerrriiing: Option<Vec<String>>,

    pub force: Option<Vec<String>>,

    pub gravity: Option<Vec<String>>,

    pub haunted: Option<Vec<String>>,

    pub high_pressure: Option<Vec<String>>,

    pub maximalist: Option<Vec<String>>,

    pub minimized: Option<Vec<String>>,

    pub night_vision: Option<Vec<String>>,

    pub offworld: Option<Vec<String>>,

    pub parasite: Option<Vec<String>>,

    pub pro_skater: Option<Vec<String>>,

    pub repeating: Option<Vec<String>>,

    pub reverberating: Option<Vec<String>>,

    pub slow_build: Option<Vec<String>>,

    pub smooth: Option<Vec<String>>,

    pub soundproof: Option<Vec<String>>,

    pub spicy: Option<Vec<String>>,

    pub squiddish: Option<Vec<String>>,

    pub steeled: Option<Vec<String>>,

    pub subtractor: Option<Vec<String>>,

    pub superwanderer: Option<Vec<String>>,

    pub trader: Option<Vec<String>>,

    pub traitor: Option<Vec<String>>,

    pub traveling: Option<Vec<String>>,

    pub unambitious: Option<Vec<String>>,

    pub uncertain: Option<Vec<String>>,

    pub underhanded: Option<Vec<String>>,

    pub unfreezable: Option<Vec<String>>,
}

#[derive(Clone, PartialEq)]
pub struct PermModSources {
    pub affinity_for_crows: Option<Vec<String>>,

    pub alternate: Option<Vec<String>>,

    pub attractor: Option<Vec<String>>,

    pub careful: Option<Vec<String>>,

    pub chunky: Option<Vec<String>>,

    pub cluttered: Option<Vec<String>>,

    pub credit_to_the_team: Option<Vec<String>>,

    pub debt_three: Option<Vec<String>>,

    pub double_payouts: Option<Vec<String>>,

    pub ego1: Option<Vec<String>>,

    pub ego2: Option<Vec<String>>,

    pub ego3: Option<Vec<String>>,

    pub ego4: Option<Vec<String>>,

    pub elsewhere: Option<Vec<String>>,

    pub fire_eater: Option<Vec<String>>,

    pub flinch: Option<Vec<String>>,

    pub friend_of_crows: Option<Vec<String>>,

    pub gaudy: Option<Vec<String>>,

    pub hard_boiled: Option<Vec<String>>,

    pub homebody: Option<Vec<String>>,

    pub honey_roasted: Option<Vec<String>>,

    pub magmatic: Option<Vec<String>>,

    pub minimalist: Option<Vec<String>>,

    pub negative: Option<Vec<String>>,

    pub non_idolized: Option<Vec<String>>,

    pub overperforming: Option<Vec<String>>,

    pub perk: Option<Vec<String>>,

    pub returned: Option<Vec<String>>,

    pub reverberating: Option<Vec<String>>,

    pub scattered: Option<Vec<String>>,

    pub scrambled: Option<Vec<String>>,

    pub seeker: Option<Vec<String>>,

    pub shelled: Option<Vec<String>>,

    pub siphon: Option<Vec<String>>,

    pub skipping: Option<Vec<String>>,

    pub smooth: Option<Vec<String>>,

    pub spicy: Option<Vec<String>>,

    pub squiddish: Option<Vec<String>>,

    pub superallergic: Option<Vec<String>>,

    pub superyummy: Option<Vec<String>>,

    pub swim_bladder: Option<Vec<String>>,

    pub triple_threat: Option<Vec<String>>,

    pub uncertain: Option<Vec<String>>,

    pub undefined: Option<Vec<String>>,

    pub underperforming: Option<Vec<String>>,

    pub undertaker: Option<Vec<String>>,

    pub walk_in_the_park: Option<Vec<String>>,

    pub wanderer: Option<Vec<String>>,

    pub wild: Option<Vec<String>>,

    pub yolked: Option<Vec<String>>,
}

#[derive(Clone, PartialEq)]
pub struct SeasModSources {
    pub alternate: Option<Vec<String>>,

    pub chunky: Option<Vec<String>>,

    pub debt_three: Option<Vec<String>>,

    pub ego2: Option<Vec<String>>,

    pub elsewhere: Option<Vec<String>>,

    pub fire_eater: Option<Vec<String>>,

    pub friend_of_crows: Option<Vec<String>>,

    pub honey_roasted: Option<Vec<String>>,

    pub minimalist: Option<Vec<String>>,

    pub overperforming: Option<Vec<String>>,

    pub perk: Option<Vec<String>>,

    pub returned: Option<Vec<String>>,

    pub scattered: Option<Vec<String>>,

    pub shelled: Option<Vec<String>>,

    pub siphon: Option<Vec<String>>,

    pub smooth: Option<Vec<String>>,

    pub spicy: Option<Vec<String>>,

    pub superallergic: Option<Vec<String>>,

    pub superyummy: Option<Vec<String>>,

    pub swim_bladder: Option<Vec<String>>,

    pub triple_threat: Option<Vec<String>>,

    pub underperforming: Option<Vec<String>>,

    pub wanderer: Option<Vec<String>>,
}

} // verus!
