//! Renovation counts and weather weights of a stadium.

use vstd::prelude::*;

verus! {

#[derive(Clone, PartialEq)]
pub struct RenoLog {
    pub air_balloons_mod: Option<i64>,
    pub anti_flood_pumps_mod: Option<i64>,
    pub anti_graphene_mod: Option<i64>,
    pub big_bucket_mod: Option<i64>,
    pub bird_hotel_mod: Option<i64>,
    pub birdhouses_mod: Option<i64>,
    pub climate_control_mod: Option<i64>,
    pub condensed_floor_plan_mod: Option<i64>,
    pub cycling_mod: Option<i64>,
    pub echo_chamber_mod: Option<i64>,
    pub event_horizon_mod: Option<i64>,
    pub fax_machine_mod: Option<i64>,
    pub fire_insurance_mod: Option<i64>,
    pub flood_balloons_mod: Option<i64>,
    pub flood_pumps_mod: Option<i64>,
    pub graphene_mod: Option<i64>,
    pub grind_rail_mod: Option<i64>,
    pub hoops_mod: Option<i64>,
    pub hot_air_balloons_mod: Option<i64>,
    pub hotel_motel_mod: Option<i64>,
    pub light_switch_toggle: Option<i64>,
    pub open_floor_plan_mod: Option<i64>,
    pub peanut_mister_mod: Option<i64>,
    pub psychoacoustics_mod: Option<i64>,
    pub salmon_cannons_mod: Option<i64>,
    pub secret_base_mod: Option<i64>,
    pub secret_tunnels_mod: Option<i64>,
    pub solar_panels_mod: Option<i64>,
    pub soundsystem_mod: Option<i64>,
    pub stables_mod: Option<i64>,
    pub sweetener_mod: Option<i64>,
    pub sweeupdate_stadiums_seon_cannons_mod: Option<i64>,
    pub thieves_guild_mod: Option<i64>,
    pub turntables_mod: Option<i64>,
    pub very_foul_balls_mod: Option<i64>,
    pub voicemail_mod: Option<i64>,
    pub weather_reports_mod: Option<i64>,
}

pub struct Weather {
    pub the_1: Option<i64>,

    pub the_10: Option<i64>,

    pub the_11: Option<i64>,

    pub the_13: Option<i64>,

    pub the_14: Option<i64>,

    pub the_15: Option<i64>,

    pub the_16: Option<i64>,

    pub the_17: Option<i64>,

    pub the_18: Option<i64>,

    pub the_19: Option<i64>,

    pub the_29: Option<i64>,

    pub the_7: Option<i64>,

    pub the_8: Option<i64>,

    pub the_9: Option<i64>,
}

} // verus!
