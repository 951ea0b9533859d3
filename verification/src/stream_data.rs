//! The decisions behind the stream data snapshot: which day's games to show, at which times
//! the league structure is read, and which playoff rounds and matchups to fetch.

use vstd::prelude::*;
use crate::GameDate;

verus! {

/// `val` held within `[min, max]`: above `max` it gives `max`, otherwise below `min` it gives
/// `min`.
pub fn clamp(val: u32, min: u32, max: u32) -> (res: u32)
    ensures
        res == (if val > max { max } else if val < min { min } else { val }),
{
    if val > max {
        max
    } else if val < min {
        min
    } else {
        val
    }
}

/// Before this time (in seconds) leagues, subleagues and divisions were not recorded; they
/// are read at this time instead.
pub const LEAGUES_EPOCH: u32 = 1599169238;

/// The time at which leagues, subleagues, divisions and tiebreakers are read for `at`.
pub fn league_time(at: u32) -> (res: u32)
    ensures
        res == (if at < LEAGUES_EPOCH { LEAGUES_EPOCH } else { at }),
{
    clamp(at, LEAGUES_EPOCH, u32::MAX)
}

/// The day the stream shows: the sim's season, day and tournament cut to their stored sizes.
/// Early in season 10 (before day 100) a sim without a tournament counts as tournament -1,
/// as does any sim without one; during a tournament the season is -1.
pub open spec fn spec_working_date(season: i64, day: i64, tournament: Option<i64>) -> GameDate {
    let t: i8 = if season == 10 && day < 100 && tournament is None {
        -1i8
    } else {
        (match tournament { Some(x) => x, None => -1i64 }) as i8
    };
    GameDate { season: if t != -1 { -1i8 } else { season as i8 }, day: day as i16, tournament: t }
}

/// The working date during a tournament (any tournament, the Coffee Cup's 0 too) belongs to
/// no season (-1); outside tournaments it is the sim's season. The day is the sim's day, and
/// the tournament is the sim's (none, -1, when it has none).
pub proof fn lemma_working_date(season: i64, day: i64, tournament: Option<i64>)
    ensures
        ({
            let d = spec_working_date(season, day, tournament);
            &&& d.tournament != -1 ==> d.season == -1
            &&& d.tournament == -1 ==> d.season == season as i8
            &&& d.day == day as i16
            &&& tournament is None ==> d.tournament == -1
            &&& tournament matches Some(x) ==> d.tournament == x as i8
        }),
{
}

pub fn working_date(season: i64, day: i64, tournament: Option<i64>) -> (res: GameDate)
    ensures
        res == spec_working_date(season, day, tournament),
        res.tournament != -1 ==> res.season == -1,
        res.tournament == -1 ==> res.season == season as i8,
        res.day == day as i16,
        tournament matches Some(x) ==> res.tournament == x as i8,
        tournament is None ==> res.tournament == -1,
{
    let t: i8 = if season == 10 && day < 100 && tournament.is_none() {
        -1
    } else {
        let x: i64 = match tournament {
            Some(x) => x,
            None => -1,
        };
        x as i8
    };
    let mut date = GameDate { season: season as i8, day: day as i16, tournament: t };
    if date.tournament != -1 {
        date.season = -1;
    }
    date
}

/// Whether the day's schedule is the one special game (phase 14 of season 22) rather than
/// the games recorded for the date.
pub fn uses_special_schedule(phase: i64, date: &GameDate) -> (res: bool)
    ensures
        res == (phase == 14 && date.season == 22),
{
    phase == 14 && date.season == 22
}

/// The game shown as the schedule in the special case: d162b23a-9832-4e78-8d78-5d131393fd61.
pub fn special_game_id() -> (res: [u8; 16])
    ensures
        res@ == seq![0xd1u8, 0x62, 0xb2, 0x3a, 0x98, 0x32, 0x4e, 0x78, 0x8d, 0x78, 0x5d, 0x13, 0x13, 0x93, 0xfd, 0x61],
{
    let r: [u8; 16] = [0xd1, 0x62, 0xb2, 0x3a, 0x98, 0x32, 0x4e, 0x78, 0x8d, 0x78, 0x5d, 0x13, 0x13, 0x93, 0xfd, 0x61];
    assert(r@ =~= seq![0xd1u8, 0x62, 0xb2, 0x3a, 0x98, 0x32, 0x4e, 0x78, 0x8d, 0x78, 0x5d, 0x13, 0x13, 0x93, 0xfd, 0x61]);
    r
}

/// The day after, whose games are the ones open for bets.
pub fn next_day(date: &GameDate) -> (res: GameDate)
    requires
        date.day < i16::MAX,
    ensures
        res == (GameDate { day: (date.day + 1) as i16, ..*date }),
{
    GameDate { day: date.day + 1, season: date.season, tournament: date.tournament }
}

/// Whether a boss fight is still going: neither side's hit points are the text "0".
pub fn fight_is_on(home_hp: &str, away_hp: &str) -> (res: bool)
    ensures
        res == (home_hp@ != seq!['0'] && away_hp@ != seq!['0']),
{
    let zero = String::from_str("0");
    proof {
        reveal_strlit("0");
    }
    let home = String::from_str(home_hp);
    let away = String::from_str(away_hp);
    assert(zero@ =~= seq!['0']);
    !(home == zero) && !(away == zero)
}

/// What `sim.playoffs` holds: one playoff id or a list of them.
#[derive(Clone, Copy, Debug, PartialEq, Eq, Structural)]
pub enum PlayoffsShape {
    One,
    Many,
}

/// Where the postseason data comes from: the running tournament's playoffs (at the sim's
/// tournament round), the sim's one playoff (at its playoff round), or each of the sim's
/// playoffs (each at its playoff round).
#[derive(Clone, Copy, Debug, PartialEq, Eq, Structural)]
pub enum PostseasonPlan {
    Tournament { round: Option<i64> },
    One { round: Option<i64> },
    Each { round: Option<i64> },
}

pub fn postseason_plan(has_tournament: bool, shape: PlayoffsShape, tournament_round: Option<i64>, play_off_round: Option<i64>) -> (res: PostseasonPlan)
    ensures
        res == (if has_tournament {
            PostseasonPlan::Tournament { round: tournament_round }
        } else if shape == PlayoffsShape::One {
            PostseasonPlan::One { round: play_off_round }
        } else {
            PostseasonPlan::Each { round: play_off_round }
        }),
{
    if has_tournament {
        PostseasonPlan::Tournament { round: tournament_round }
    } else {
        match shape {
            PlayoffsShape::One => PostseasonPlan::One { round: play_off_round },
            PlayoffsShape::Many => PostseasonPlan::Each { round: play_off_round },
        }
    }
}

/// A playoff round as the selection needs it: its number and its matchups.
pub struct PlayoffRound {
    pub round_number: Option<i64>,
    pub matchups: Vec<[u8; 16]>,
}

/// Which rounds a playoff view shows and which matchups it fetches.
pub struct PlayoffSelection {
    pub current: Option<usize>,
    pub tomorrow: Option<usize>,
    pub main_matchups: Vec<[u8; 16]>,
    pub tomorrow_matchups: Vec<[u8; 16]>,
    pub all_matchups: Vec<[u8; 16]>,
}

/// The first round with the given number (or, for `None`, the first without a number),
/// scanning from `j`.
pub open spec fn round_index(rounds: Seq<PlayoffRound>, n: Option<i64>, j: int) -> Option<usize>
    decreases rounds.len() - j,
{
    if j < 0 || j >= rounds.len() {
        None
    } else if rounds[j].round_number == n {
        Some(j as usize)
    } else {
        round_index(rounds, n, j + 1)
    }
}

/// The matchups of every round, round after round.
pub open spec fn all_matchups(rounds: Seq<PlayoffRound>) -> Seq<[u8; 16]>
    decreases rounds.len(),
{
    if rounds.len() == 0 {
        Seq::empty()
    } else {
        all_matchups(rounds.drop_last()) + rounds.last().matchups@
    }
}

pub open spec fn matchups_of(rounds: Seq<PlayoffRound>, i: Option<usize>) -> Seq<[u8; 16]> {
    match i {
        Some(k) => rounds[k as int].matchups@,
        None => Seq::empty(),
    }
}

/// Every round before the first with number `n` (all of them, when none has it) has a number.
pub open spec fn numbered_before(rounds: Seq<PlayoffRound>, n: i64) -> bool {
    forall|j: int| 0 <= j < rounds.len() && (forall|k: int| 0 <= k < j ==> rounds[k].round_number != Some(n))
        ==> (#[trigger] rounds[j]).round_number is Some
}

/// Whether every round before the first with number `n` has a number, as the search for the
/// current round needs.
pub fn rounds_numbered_before(rounds: &Vec<PlayoffRound>, n: i64) -> (res: bool)
    ensures
        res == numbered_before(rounds@, n),
{
    let mut j: usize = 0;
    while j < rounds.len()
        invariant
            j <= rounds@.len(),
            forall|k: int| 0 <= k < j ==> rounds@[k].round_number != Some(n),
            forall|k: int| 0 <= k < j ==> (#[trigger] rounds@[k]).round_number is Some,
        decreases rounds@.len() - j,
    {
        match rounds[j].round_number {
            None => {
                assert(!numbered_before(rounds@, n)) by {
                    assert(rounds@[j as int].round_number is None);
                }
                return false;
            },
            Some(x) => {
                if x == n {
                    assert forall|i: int| 0 <= i < rounds@.len() && (forall|k: int| 0 <= k < i ==> rounds@[k].round_number != Some(n))
                        implies (#[trigger] rounds@[i]).round_number is Some by {
                        if i > j {
                            assert(rounds@[j as int].round_number == Some(n));
                        }
                    }
                    return true;
                }
            },
        }
        j = j + 1;
    }
    true
}

fn find_round(rounds: &Vec<PlayoffRound>, n: Option<i64>) -> (res: Option<usize>)
    ensures
        res == round_index(rounds@, n, 0),
        res matches Some(k) ==> k < rounds@.len(),
{
    let mut j: usize = 0;
    while j < rounds.len()
        invariant
            j <= rounds@.len(),
            round_index(rounds@, n, 0) == round_index(rounds@, n, j as int),
            forall|k: int| 0 <= k < j ==> #[trigger] rounds@[k].round_number != n,
        decreases rounds@.len() - j,
    {
        if rounds[j].round_number == n {
            return Some(j);
        }
        j = j + 1;
    }
    None
}

fn copy_ids(out: &mut Vec<[u8; 16]>, ids: &Vec<[u8; 16]>)
    ensures
        final(out)@ == old(out)@ + ids@,
{
    let ghost start = out@;
    let mut i: usize = 0;
    while i < ids.len()
        invariant
            i <= ids@.len(),
            out@ == start + ids@.subrange(0, i as int),
        decreases ids@.len() - i,
    {
        out.push(ids[i]);
        proof {
            assert(start + ids@.subrange(0, i + 1) =~= (start + ids@.subrange(0, i as int)).push(ids@[i as int]));
        }
        i = i + 1;
    }
    assert(ids@.subrange(0, ids@.len() as int) =~= ids@);
}

/// Picks the rounds of a playoff view: the round with the requested number (or the playoffs'
/// current round when none is requested), the round whose number is the playoffs' round for
/// tomorrow (a missing number matching a round without one), their matchups, and the matchups
/// of every round. The search for the current round reads each round's number until it finds
/// the round, so those rounds must have one.
pub fn select_playoff_rounds(rounds: &Vec<PlayoffRound>, round: Option<i64>, playoffs_round: Option<i64>, tomorrow_round: Option<i64>) -> (res: PlayoffSelection)
    requires
        round is Some || playoffs_round is Some,
        numbered_before(rounds@, if round is Some { round->0 } else { playoffs_round->0 }),
    ensures
        res.current == round_index(rounds@, Some(if round is Some { round->0 } else { playoffs_round->0 }), 0),
        res.tomorrow == round_index(rounds@, tomorrow_round, 0),
        res.main_matchups@ == matchups_of(rounds@, res.current),
        res.tomorrow_matchups@ == matchups_of(rounds@, res.tomorrow),
        res.all_matchups@ == all_matchups(rounds@),
{
    let number: i64 = match round {
        Some(n) => n,
        None => match playoffs_round {
            Some(n) => n,
            None => 0,
        },
    };
    let tomorrow = find_round(rounds, tomorrow_round);
    let current = find_round(rounds, Some(number));
    let mut main_matchups: Vec<[u8; 16]> = Vec::new();
    match current {
        Some(k) => copy_ids(&mut main_matchups, &rounds[k].matchups),
        None => {},
    }
    let mut tomorrow_matchups: Vec<[u8; 16]> = Vec::new();
    match tomorrow {
        Some(k) => copy_ids(&mut tomorrow_matchups, &rounds[k].matchups),
        None => {},
    }
    let mut all: Vec<[u8; 16]> = Vec::new();
    let mut i: usize = 0;
    assert(rounds@.subrange(0, 0) =~= Seq::<PlayoffRound>::empty());
    while i < rounds.len()
        invariant
            i <= rounds@.len(),
            all@ == all_matchups(rounds@.subrange(0, i as int)),
        decreases rounds@.len() - i,
    {
        copy_ids(&mut all, &rounds[i].matchups);
        proof {
            let pre = rounds@.subrange(0, i + 1);
            assert(pre.drop_last() =~= rounds@.subrange(0, i as int));
        }
        i = i + 1;
    }
    assert(rounds@.subrange(0, rounds@.len() as int) =~= rounds@);
    PlayoffSelection { current, tomorrow, main_matchups, tomorrow_matchups, all_matchups: all }
}

} // verus!
