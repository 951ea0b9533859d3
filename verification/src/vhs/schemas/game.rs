//! The state block of a game update.

use vstd::prelude::*;

verus! {

#[derive(Clone, Debug, PartialEq)]
pub struct GameState {
    pub ego_player_data: Vec<GameStateEgoPlayerDataItem>,
    pub game_cancelled: Option<bool>,
    pub holiday_inning: Option<bool>,
    pub postseason: Option<GameStatePostseason>,
    pub prize_match: Option<GameStatePrizeMatch>,
    pub reload: Option<GameStateReload>,
    pub snowfall_events: Option<i64>,
}

#[derive(Clone, Debug, PartialEq)]
pub struct GameStateEgoPlayerDataItem {
    pub hall_player: bool,
    pub id: String,
    pub location: Option<i64>,
    pub team: Option<String>,
}

#[derive(Clone, Debug, PartialEq)]
pub struct GameStatePostseason {
    pub bracket: i64,
    pub matchup: String,
    pub playoff_id: String,
}

#[derive(Clone, Debug, PartialEq)]
pub struct GameStatePrizeMatch {
    pub item_id: String,
    pub item_name: String,
    pub winner: Option<String>,
}

#[derive(Clone, Debug, PartialEq)]
pub struct GameStateReload {
    pub baserunner_count: i64,
    pub baserunners: Vec<String>,
    pub bases_occupied: Vec<i64>,
    pub batter: String,
}

} // verus!
