use vstd::prelude::*;

use crate::defs::{POINTS_FOR_SAFETY, POINTS_FOR_TD, QUARTERS, SEC_PER_QUARTER};
use crate::game::{Down, GamePlayStatus, GameState, GameTeams};
use crate::play::{PlayResult, ResultType};

verus! {

/// Quarter and seconds left after a play of `play_time` seconds: a quarter that
/// runs out rolls over to a fresh next one, and the last quarter stops at zero.
pub open spec fn advanced_clock(quarter: int, time: int, play_time: int) -> (int, int) {
    let left = time - play_time;
    if left <= 0 {
        if quarter + 1 > QUARTERS {
            (QUARTERS as int, 0)
        } else {
            (quarter + 1, SEC_PER_QUARTER as int)
        }
    } else {
        (quarter, left)
    }
}

/// `s` with `points` added to the score of `team`.
pub open spec fn scored(s: GameState, team: GameTeams, points: int) -> GameState {
    match team {
        GameTeams::Home => GameState { home_score: (s.home_score + points) as i32, ..s },
        GameTeams::Away => GameState { away_score: (s.away_score + points) as i32, ..s },
    }
}

/// The other team takes over at the spot, seen from its own goal line.
pub open spec fn turned_over(s: GameState) -> GameState {
    let line = 100 - s.yardline;
    GameState {
        down: Down::First,
        last_status: GamePlayStatus::PossesionChange,
        first_down_target: if line + 10 < 100 { (line + 10) as i32 } else { 100 },
        possesion: s.possesion.other(),
        yardline: line as i32,
        ..s
    }
}

/// How a regular play ends, once the spot and the clock are set in `s`: a
/// touchdown, a safety, a first down, a turnover on downs, or the next down.
pub open spec fn regular_outcome(s: GameState) -> GameState {
    if s.yardline >= 100 {
        GameState { last_status: GamePlayStatus::Touchdown, ..scored(s, s.possesion, POINTS_FOR_TD as int) }
    } else if s.yardline < 0 {
        GameState { last_status: GamePlayStatus::Safety, ..scored(s, s.possesion.other(), POINTS_FOR_SAFETY as int) }
    } else if s.yardline >= s.first_down_target {
        GameState {
            down: Down::First,
            last_status: GamePlayStatus::Ongoing,
            first_down_target: if s.yardline + 10 < 100 { (s.yardline + 10) as i32 } else { 100 },
            ..s
        }
    } else if s.down == Down::Fourth {
        turned_over(s)
    } else {
        GameState { down: s.down.next(), last_status: GamePlayStatus::Ongoing, ..s }
    }
}

/// How a play that lost the ball ends, once the spot and the clock are set in
/// `s`: behind its own goal line the other team scores, else it takes over.
pub open spec fn turnover_outcome(s: GameState) -> GameState {
    if s.yardline < 0 {
        GameState {
            last_status: GamePlayStatus::Touchdown,
            possesion: s.possesion.other(),
            ..scored(s, s.possesion.other(), POINTS_FOR_TD as int)
        }
    } else {
        turned_over(s)
    }
}

/// The state after a play that ended at `line` after `play_time` seconds.
pub open spec fn next_state(old: GameState, kind: ResultType, line: i32, play_time: i32) -> GameState {
    let clock = advanced_clock(old.quarter as int, old.time_remaining as int, play_time as int);
    let s = GameState { yardline: line, quarter: clock.0 as i32, time_remaining: clock.1 as i32, ..old };
    match kind {
        ResultType::Regular => regular_outcome(s),
        ResultType::TurnOver => turnover_outcome(s),
    }
}

/// The next game state: the play's end line becomes the spot, the clock runs,
/// and the outcome decides downs, possession and score.
pub fn calculate_play_result(old_state: &GameState, result: &PlayResult) -> (r: GameState)
    requires
        old_state.wf(),
        result.time >= 0,
    ensures
        r == next_state(*old_state, result.result_type, result.final_line, result.time),
        1 <= r.quarter <= QUARTERS,
        0 <= r.time_remaining <= SEC_PER_QUARTER,
{
    let new_line = result.final_line;
    let (quarter, time_remaining) = advance_time(old_state.quarter, old_state.time_remaining, result.time);
    let interim_state = GameState { yardline: new_line, time_remaining, quarter, ..*old_state };
    match result.result_type {
        ResultType::Regular => handle_regular_play(&interim_state),
        ResultType::TurnOver => handle_turnover(&interim_state),
    }
}

fn handle_regular_play(interim_state: &GameState) -> (r: GameState)
    requires
        interim_state.wf(),
    ensures
        r == regular_outcome(*interim_state),
{
    if interim_state.yardline >= 100 {
        return handle_touchdown(interim_state);
    }
    if interim_state.yardline < 0 {
        return handle_safety(interim_state);
    }
    if interim_state.yardline >= interim_state.first_down_target {
        return first_down(interim_state);
    }
    if interim_state.down == Down::Fourth {
        return possession_change(interim_state);
    }
    GameState { down: interim_state.down.next_down(), last_status: GamePlayStatus::Ongoing, ..*interim_state }
}

fn handle_safety(interim_state: &GameState) -> (r: GameState)
    requires
        interim_state.wf(),
    ensures
        r == (GameState {
            last_status: GamePlayStatus::Safety,
            ..scored(*interim_state, interim_state.possesion.other(), POINTS_FOR_SAFETY as int)
        }),
{
    let score_state = GameState { possesion: interim_state.possesion.other_team(), ..*interim_state };
    let (home_score, away_score) = add_points(&score_state, POINTS_FOR_SAFETY);
    GameState { last_status: GamePlayStatus::Safety, home_score, away_score, ..*interim_state }
}

fn handle_turnover(interim_state: &GameState) -> (r: GameState)
    requires
        interim_state.wf(),
    ensures
        r == turnover_outcome(*interim_state),
{
    if interim_state.yardline < 0 {
        let score_state = GameState { possesion: interim_state.possesion.other_team(), ..*interim_state };
        return handle_touchdown(&score_state);
    }
    possession_change(interim_state)
}

fn handle_touchdown(interim_state: &GameState) -> (r: GameState)
    requires
        interim_state.wf(),
    ensures
        r == (GameState {
            last_status: GamePlayStatus::Touchdown,
            ..scored(*interim_state, interim_state.possesion, POINTS_FOR_TD as int)
        }),
{
    let (home_score, away_score) = add_points(interim_state, POINTS_FOR_TD);
    GameState { last_status: GamePlayStatus::Touchdown, home_score, away_score, ..*interim_state }
}

fn first_down(interim_state: &GameState) -> (r: GameState)
    requires
        0 <= interim_state.yardline < 100,
    ensures
        r == (GameState {
            down: Down::First,
            last_status: GamePlayStatus::Ongoing,
            first_down_target: if interim_state.yardline + 10 < 100 {
                (interim_state.yardline + 10) as i32
            } else {
                100
            },
            ..*interim_state
        }),
{
    let target = if interim_state.yardline + 10 < 100 { interim_state.yardline + 10 } else { 100 };
    GameState { down: Down::First, last_status: GamePlayStatus::Ongoing, first_down_target: target, ..*interim_state }
}

fn possession_change(interim_state: &GameState) -> (r: GameState)
    requires
        interim_state.yardline >= 0,
    ensures
        r == turned_over(*interim_state),
{
    let yard_line = 100 - interim_state.yardline;
    let target = if yard_line + 10 < 100 { yard_line + 10 } else { 100 };
    GameState {
        down: Down::First,
        last_status: GamePlayStatus::PossesionChange,
        first_down_target: target,
        possesion: interim_state.possesion.other_team(),
        yardline: yard_line,
        ..*interim_state
    }
}

fn advance_time(curr_quarter: i32, curr_time: i32, play_time: i32) -> (r: (i32, i32))
    requires
        1 <= curr_quarter <= QUARTERS,
        0 <= curr_time,
        0 <= play_time,
    ensures
        r.0 as int == advanced_clock(curr_quarter as int, curr_time as int, play_time as int).0,
        r.1 as int == advanced_clock(curr_quarter as int, curr_time as int, play_time as int).1,
        1 <= r.0 <= QUARTERS,
        0 <= r.1 <= SEC_PER_QUARTER || r.1 == curr_time - play_time,
{
    let new_remaining = curr_time - play_time;
    if new_remaining <= 0 {
        let new_qtr = curr_quarter + 1;
        if new_qtr > QUARTERS {
            return (QUARTERS, 0);
        }
        return (new_qtr, SEC_PER_QUARTER);
    }
    (curr_quarter, new_remaining)
}

/// The two scores, home first, once `points` went to the team in possession.
fn add_points(interim_state: &GameState, points: i32) -> (r: (i32, i32))
    requires
        0 <= points <= 6,
        interim_state.wf(),
    ensures
        r.0 == scored(*interim_state, interim_state.possesion, points as int).home_score,
        r.1 == scored(*interim_state, interim_state.possesion, points as int).away_score,
{
    match interim_state.possesion {
        GameTeams::Home => (interim_state.home_score + points, interim_state.away_score),
        GameTeams::Away => (interim_state.home_score, interim_state.away_score + points),
    }
}

/// Three regular plays from first down that each stop short of the marker (and
/// inside the field) bring fourth down with the marker, the possession and the
/// scores unchanged; a fourth such play turns the ball over on downs, with the
/// spot seen from the other goal line and a new marker ten yards on.
pub proof fn lemma_turnover_on_downs(s0: GameState, lines: Seq<i32>, times: Seq<i32>)
    requires
        s0.down == Down::First,
        lines.len() == 4,
        times.len() == 4,
        forall|i: int| 0 <= i < 4 ==> 0 <= #[trigger] lines[i] < s0.first_down_target && lines[i] < 100,
    ensures
        ({
            let s1 = next_state(s0, ResultType::Regular, lines[0], times[0]);
            let s2 = next_state(s1, ResultType::Regular, lines[1], times[1]);
            let s3 = next_state(s2, ResultType::Regular, lines[2], times[2]);
            let s4 = next_state(s3, ResultType::Regular, lines[3], times[3]);
            &&& s1.down == Down::Second
            &&& s2.down == Down::Third
            &&& s3.down == Down::Fourth
            &&& s3.possesion == s0.possesion
            &&& s3.first_down_target == s0.first_down_target
            &&& s3.home_score == s0.home_score && s3.away_score == s0.away_score
            &&& s3.last_status == GamePlayStatus::Ongoing
            &&& s4.last_status == GamePlayStatus::PossesionChange
            &&& s4.possesion == s0.possesion.other()
            &&& s4.down == Down::First
            &&& s4.yardline == 100 - lines[3]
            &&& s4.first_down_target == (if 110 - lines[3] < 100 { 110 - lines[3] } else { 100 })
            &&& s4.home_score == s0.home_score && s4.away_score == s0.away_score
        }),
{
    assert(0 <= lines[0] < s0.first_down_target && lines[0] < 100);
    assert(0 <= lines[1] < s0.first_down_target && lines[1] < 100);
    assert(0 <= lines[2] < s0.first_down_target && lines[2] < 100);
    assert(0 <= lines[3] < s0.first_down_target && lines[3] < 100);
    let s1 = next_state(s0, ResultType::Regular, lines[0], times[0]);
    assert(s1.first_down_target == s0.first_down_target && s1.possesion == s0.possesion);
    let s2 = next_state(s1, ResultType::Regular, lines[1], times[1]);
    assert(s2.first_down_target == s0.first_down_target && s2.possesion == s0.possesion);
    let s3 = next_state(s2, ResultType::Regular, lines[2], times[2]);
    assert(s3.first_down_target == s0.first_down_target && s3.possesion == s0.possesion);
}

/// A regular play that ends behind the offense's own goal line is a safety:
/// two points to the other team, the offense's score unchanged.
pub proof fn lemma_safety(s: GameState, line: i32, play_time: i32)
    requires
        s.wf(),
        line < 0,
    ensures
        next_state(s, ResultType::Regular, line, play_time).last_status == GamePlayStatus::Safety,
        s.possesion == GameTeams::Home ==> next_state(s, ResultType::Regular, line, play_time).away_score
            == s.away_score + 2 && next_state(s, ResultType::Regular, line, play_time).home_score == s.home_score,
        s.possesion == GameTeams::Away ==> next_state(s, ResultType::Regular, line, play_time).home_score
            == s.home_score + 2 && next_state(s, ResultType::Regular, line, play_time).away_score == s.away_score,
{
}

/// A regular play that reaches the other goal line is a touchdown: six points to
/// the team in possession, the other score unchanged.
pub proof fn lemma_touchdown(s: GameState, line: i32, play_time: i32)
    requires
        s.wf(),
        line >= 100,
    ensures
        next_state(s, ResultType::Regular, line, play_time).last_status == GamePlayStatus::Touchdown,
        s.possesion == GameTeams::Home ==> next_state(s, ResultType::Regular, line, play_time).home_score
            == s.home_score + 6 && next_state(s, ResultType::Regular, line, play_time).away_score == s.away_score,
        s.possesion == GameTeams::Away ==> next_state(s, ResultType::Regular, line, play_time).away_score
            == s.away_score + 6 && next_state(s, ResultType::Regular, line, play_time).home_score == s.home_score,
{
}

} // verus!
