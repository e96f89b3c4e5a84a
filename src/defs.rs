use vstd::prelude::*;

use crate::lineup::{DefensiveBox, OffensiveBox};
use crate::players::Position;
use crate::standard_play::{DefensivePlay, OffensivePlayType};

verus! {

pub const QUARTERS: i32 = 4;

pub const SEC_PER_QUARTER: i32 = 900;

pub const POINTS_FOR_TD: i32 = 6;

pub const POINTS_FOR_SAFETY: i32 = 2;

pub const TOUCHBACK_LINE: i32 = 20;

pub const ONSIDE_KICK_LINE: i32 = 50;

pub const RUN_PLAY_TIME: i32 = 40;

pub const RUN_PLAY_OB_TIME: i32 = 10;

pub const PASS_COMPLETE_TIME: i32 = 40;

pub const PASS_INCOMPLETE_TIME: i32 = 10;

pub const KICKOFF_TIME: i32 = 10;

/// Seconds that each kind of play takes.
#[derive(Debug, Clone, Copy, PartialEq, Eq, Structural)]
pub struct TimeTable {
    pub run_play: i32,
    pub run_play_ob: i32,
    pub pass_play_complete: i32,
    pub pass_play_incomplete: i32,
}

impl TimeTable {
    pub fn standard() -> (r: TimeTable)
        ensures
            r == (TimeTable {
                run_play: RUN_PLAY_TIME,
                run_play_ob: RUN_PLAY_OB_TIME,
                pass_play_complete: PASS_COMPLETE_TIME,
                pass_play_incomplete: PASS_INCOMPLETE_TIME,
            }),
    {
        TimeTable {
            run_play: RUN_PLAY_TIME,
            run_play_ob: RUN_PLAY_OB_TIME,
            pass_play_complete: PASS_COMPLETE_TIME,
            pass_play_incomplete: PASS_INCOMPLETE_TIME,
        }
    }
}

/// The game's fixed rules: its length, the points of each score, the kickoff lines.
#[derive(Debug, Clone, Copy, PartialEq, Eq, Structural)]
pub struct GameConstants {
    pub quarters: i32,
    pub sec_per_quarter: i32,
    pub points_for_td: i32,
    pub points_for_safety: i32,
    pub touchback_line: i32,
    pub onside_kick_line: i32,
}

impl GameConstants {
    pub fn standard() -> (r: GameConstants)
        ensures
            r == (GameConstants {
                quarters: QUARTERS,
                sec_per_quarter: SEC_PER_QUARTER,
                points_for_td: POINTS_FOR_TD,
                points_for_safety: POINTS_FOR_SAFETY,
                touchback_line: TOUCHBACK_LINE,
                onside_kick_line: ONSIDE_KICK_LINE,
            }),
    {
        GameConstants {
            quarters: QUARTERS,
            sec_per_quarter: SEC_PER_QUARTER,
            points_for_td: POINTS_FOR_TD,
            points_for_safety: POINTS_FOR_SAFETY,
            touchback_line: TOUCHBACK_LINE,
            onside_kick_line: ONSIDE_KICK_LINE,
        }
    }
}

/// How a called draw play changes the run number, by defense.
#[derive(Debug, Clone, Copy, PartialEq, Eq, Structural)]
pub struct DrawPlayImpact {
    pub run_defense: i32,
    pub pass_defense: i32,
    pub prevent_defense: i32,
    pub blitz: i32,
}

impl DrawPlayImpact {
    pub open spec fn spec_standard() -> DrawPlayImpact {
        DrawPlayImpact { run_defense: 2i32, pass_defense: -4i32, prevent_defense: -2i32, blitz: -4i32 }
    }

    pub fn standard() -> (r: DrawPlayImpact)
        ensures
            r == Self::spec_standard(),
    {
        DrawPlayImpact { run_defense: 2, pass_defense: -4, prevent_defense: -2, blitz: -4 }
    }
}

/// How the defense's call changes the run number of a run or a screen.
#[derive(Debug, Clone, Copy, PartialEq, Eq, Structural)]
pub struct RunPlayDefenseImpact {
    pub pass_defense: i32,
    pub run_defense_keyed: i32,
    pub run_defense_nokey: i32,
    pub run_defense_wrongkey: i32,
    pub prevent_defense: i32,
    pub blitz: i32,
}

impl RunPlayDefenseImpact {
    pub open spec fn spec_run() -> RunPlayDefenseImpact {
        RunPlayDefenseImpact {
            pass_defense: 0i32,
            run_defense_nokey: 2i32,
            run_defense_keyed: 4i32,
            run_defense_wrongkey: 0i32,
            prevent_defense: 0i32,
            blitz: 0i32,
        }
    }

    pub open spec fn spec_screen() -> RunPlayDefenseImpact {
        RunPlayDefenseImpact {
            pass_defense: 0i32,
            run_defense_nokey: 2i32,
            run_defense_keyed: 4i32,
            run_defense_wrongkey: 0i32,
            prevent_defense: -2i32,
            blitz: -4i32,
        }
    }

    /// The values for run plays.
    pub fn run_defense() -> (r: RunPlayDefenseImpact)
        ensures
            r == Self::spec_run(),
    {
        RunPlayDefenseImpact {
            pass_defense: 0,
            run_defense_nokey: 2,
            run_defense_keyed: 4,
            run_defense_wrongkey: 0,
            prevent_defense: 0,
            blitz: 0,
        }
    }

    /// The values for screen passes.
    pub fn screen_defense() -> (r: RunPlayDefenseImpact)
        ensures
            r == Self::spec_screen(),
    {
        RunPlayDefenseImpact {
            pass_defense: 0,
            run_defense_nokey: 2,
            run_defense_keyed: 4,
            run_defense_wrongkey: 0,
            prevent_defense: -2,
            blitz: -4,
        }
    }
}

/// How the defense's call moves the completion range of a pass, by length;
/// the value when a pass's defender box is empty; and how play action moves it.
#[derive(Debug, Clone, Copy, PartialEq, Eq, Structural)]
pub struct PassPlayValues {
    pub qk_run_defense: i32,
    pub sh_run_defense: i32,
    pub lg_run_defense: i32,
    pub qk_pass_defense: i32,
    pub sh_pass_defense: i32,
    pub lg_pass_defense: i32,
    pub qk_prevent_defense: i32,
    pub sh_prevent_defense: i32,
    pub lg_prevent_defense: i32,
    pub blitz: i32,
    pub no_defender: i32,
    pub pa_run_defense: i32,
    pub pa_pass_defense: i32,
    pub pa_prevent_defense: i32,
}

pub const NO_DEFENDER: i32 = 5;

/// The completion-range shift of a pass of kind `play` against defense `d`.
pub open spec fn pass_defense_value(d: DefensivePlay, play: OffensivePlayType) -> int {
    match d {
        DefensivePlay::RunDefense => match play {
            OffensivePlayType::QK => 0,
            OffensivePlayType::SH => 5,
            OffensivePlayType::LG => 7,
            _ => 0,
        },
        DefensivePlay::PassDefense => match play {
            OffensivePlayType::QK => -10,
            OffensivePlayType::SH => -5,
            OffensivePlayType::LG => 0,
            _ => 0,
        },
        DefensivePlay::PreventDefense => match play {
            OffensivePlayType::QK => 0,
            OffensivePlayType::SH => -5,
            OffensivePlayType::LG => -7,
            _ => 0,
        },
        DefensivePlay::Blitz => 0,
    }
}

/// The completion-range shift of play action against defense `d`.
pub open spec fn play_action_value(d: DefensivePlay) -> int {
    match d {
        DefensivePlay::RunDefense => 5,
        DefensivePlay::PassDefense => -5,
        DefensivePlay::PreventDefense => -10,
        DefensivePlay::Blitz => 0,
    }
}

impl PassPlayValues {
    pub fn standard() -> (r: PassPlayValues)
        ensures
            r.qk_run_defense == pass_defense_value(DefensivePlay::RunDefense, OffensivePlayType::QK),
            r.sh_run_defense == pass_defense_value(DefensivePlay::RunDefense, OffensivePlayType::SH),
            r.lg_run_defense == pass_defense_value(DefensivePlay::RunDefense, OffensivePlayType::LG),
            r.qk_pass_defense == pass_defense_value(DefensivePlay::PassDefense, OffensivePlayType::QK),
            r.sh_pass_defense == pass_defense_value(DefensivePlay::PassDefense, OffensivePlayType::SH),
            r.lg_pass_defense == pass_defense_value(DefensivePlay::PassDefense, OffensivePlayType::LG),
            r.qk_prevent_defense == pass_defense_value(DefensivePlay::PreventDefense, OffensivePlayType::QK),
            r.sh_prevent_defense == pass_defense_value(DefensivePlay::PreventDefense, OffensivePlayType::SH),
            r.lg_prevent_defense == pass_defense_value(DefensivePlay::PreventDefense, OffensivePlayType::LG),
            r.blitz == pass_defense_value(DefensivePlay::Blitz, OffensivePlayType::QK),
            r.no_defender == NO_DEFENDER,
            r.pa_run_defense == play_action_value(DefensivePlay::RunDefense),
            r.pa_pass_defense == play_action_value(DefensivePlay::PassDefense),
            r.pa_prevent_defense == play_action_value(DefensivePlay::PreventDefense),
    {
        PassPlayValues {
            qk_run_defense: 0,
            sh_run_defense: 5,
            lg_run_defense: 7,
            qk_pass_defense: -10,
            sh_pass_defense: -5,
            lg_pass_defense: 0,
            qk_prevent_defense: 0,
            sh_prevent_defense: -5,
            lg_prevent_defense: -7,
            blitz: 0,
            no_defender: NO_DEFENDER,
            pa_run_defense: 5,
            pa_pass_defense: -5,
            pa_prevent_defense: -10,
        }
    }
}

/// Limits of the defense's calls.
#[derive(Debug, Clone, Copy, PartialEq, Eq, Structural)]
pub struct DefenseConsts {
    pub blitz_min: i32,
    pub blitz_max: i32,
    pub double_cover_defense: i32,
    pub triple_cover_defense: i32,
}

pub const BLITZ_MIN: i32 = 2;

pub const BLITZ_MAX: i32 = 5;

impl DefenseConsts {
    pub fn standard() -> (r: DefenseConsts)
        ensures
            r.blitz_min == BLITZ_MIN,
            r.blitz_max == BLITZ_MAX,
            r.double_cover_defense == -7,
            r.triple_cover_defense == -15,
    {
        DefenseConsts { blitz_min: BLITZ_MIN, blitz_max: BLITZ_MAX, double_cover_defense: -7, triple_cover_defense: -15 }
    }
}

/// How many players a coverage strategy asks for in rows two and three.
#[derive(Debug, Clone, Copy, PartialEq, Eq, Structural)]
pub struct DefenseStrategyRowVals {
    pub row2: i32,
    pub row3: i32,
}

/// The defensive box that covers a receiver position; none for the others.
pub open spec fn pass_defender_of(b: OffensiveBox) -> Option<DefensiveBox> {
    match b {
        OffensiveBox::RE => Some(DefensiveBox::BoxN),
        OffensiveBox::LE => Some(DefensiveBox::BoxK),
        OffensiveBox::FL1 => Some(DefensiveBox::BoxO),
        OffensiveBox::FL2 => Some(DefensiveBox::BoxM),
        OffensiveBox::B1 => Some(DefensiveBox::BoxF),
        OffensiveBox::B2 => Some(DefensiveBox::BoxJ),
        OffensiveBox::B3 => Some(DefensiveBox::BoxH),
        _ => None,
    }
}

pub fn pass_defender(b: OffensiveBox) -> (r: Option<DefensiveBox>)
    ensures
        r == pass_defender_of(b),
{
    match b {
        OffensiveBox::RE => Some(DefensiveBox::BoxN),
        OffensiveBox::LE => Some(DefensiveBox::BoxK),
        OffensiveBox::FL1 => Some(DefensiveBox::BoxO),
        OffensiveBox::FL2 => Some(DefensiveBox::BoxM),
        OffensiveBox::B1 => Some(DefensiveBox::BoxF),
        OffensiveBox::B2 => Some(DefensiveBox::BoxJ),
        OffensiveBox::B3 => Some(DefensiveBox::BoxH),
        _ => None,
    }
}

/// The interception row of run number `rn`: the intercepting box for a screen,
/// a quick, a short and a long pass.
pub open spec fn interception_row(rn: int) -> (DefensiveBox, DefensiveBox, DefensiveBox, DefensiveBox) {
    if rn == 1 {
        (DefensiveBox::BoxJ, DefensiveBox::BoxN, DefensiveBox::BoxN, DefensiveBox::BoxL)
    } else if rn == 2 {
        (DefensiveBox::BoxF, DefensiveBox::BoxO, DefensiveBox::BoxM, DefensiveBox::BoxM)
    } else if rn == 3 {
        (DefensiveBox::BoxC, DefensiveBox::BoxJ, DefensiveBox::BoxJ, DefensiveBox::BoxM)
    } else if rn == 4 {
        (DefensiveBox::BoxI, DefensiveBox::BoxI, DefensiveBox::BoxF, DefensiveBox::BoxO)
    } else if rn == 5 {
        (DefensiveBox::BoxB, DefensiveBox::BoxH, DefensiveBox::BoxI, DefensiveBox::BoxN)
    } else if rn == 6 {
        (DefensiveBox::BoxG, DefensiveBox::BoxG, DefensiveBox::BoxH, DefensiveBox::BoxK)
    } else if rn == 7 {
        (DefensiveBox::BoxH, DefensiveBox::BoxF, DefensiveBox::BoxG, DefensiveBox::BoxO)
    } else if rn == 8 {
        (DefensiveBox::BoxE, DefensiveBox::BoxJ, DefensiveBox::BoxO, DefensiveBox::BoxN)
    } else if rn == 9 {
        (DefensiveBox::BoxD, DefensiveBox::BoxH, DefensiveBox::BoxK, DefensiveBox::BoxK)
    } else if rn == 10 {
        (DefensiveBox::BoxA, DefensiveBox::BoxF, DefensiveBox::BoxL, DefensiveBox::BoxM)
    } else if rn == 11 {
        (DefensiveBox::BoxJ, DefensiveBox::BoxL, DefensiveBox::BoxN, DefensiveBox::BoxM)
    } else {
        (DefensiveBox::BoxF, DefensiveBox::BoxM, DefensiveBox::BoxM, DefensiveBox::BoxL)
    }
}

/// The box that intercepts a pass of kind `play` on run number `rn`.
pub open spec fn interception_box_of(rn: int, play: OffensivePlayType) -> DefensiveBox {
    let row = interception_row(rn);
    match play {
        OffensivePlayType::SC => row.0,
        OffensivePlayType::QK => row.1,
        OffensivePlayType::SH => row.2,
        _ => row.3,
    }
}

pub fn interception_box(rn: i32, play: OffensivePlayType) -> (r: DefensiveBox)
    ensures
        r == interception_box_of(rn as int, play),
{
    let row = if rn == 1 {
        (DefensiveBox::BoxJ, DefensiveBox::BoxN, DefensiveBox::BoxN, DefensiveBox::BoxL)
    } else if rn == 2 {
        (DefensiveBox::BoxF, DefensiveBox::BoxO, DefensiveBox::BoxM, DefensiveBox::BoxM)
    } else if rn == 3 {
        (DefensiveBox::BoxC, DefensiveBox::BoxJ, DefensiveBox::BoxJ, DefensiveBox::BoxM)
    } else if rn == 4 {
        (DefensiveBox::BoxI, DefensiveBox::BoxI, DefensiveBox::BoxF, DefensiveBox::BoxO)
    } else if rn == 5 {
        (DefensiveBox::BoxB, DefensiveBox::BoxH, DefensiveBox::BoxI, DefensiveBox::BoxN)
    } else if rn == 6 {
        (DefensiveBox::BoxG, DefensiveBox::BoxG, DefensiveBox::BoxH, DefensiveBox::BoxK)
    } else if rn == 7 {
        (DefensiveBox::BoxH, DefensiveBox::BoxF, DefensiveBox::BoxG, DefensiveBox::BoxO)
    } else if rn == 8 {
        (DefensiveBox::BoxE, DefensiveBox::BoxJ, DefensiveBox::BoxO, DefensiveBox::BoxN)
    } else if rn == 9 {
        (DefensiveBox::BoxD, DefensiveBox::BoxH, DefensiveBox::BoxK, DefensiveBox::BoxK)
    } else if rn == 10 {
        (DefensiveBox::BoxA, DefensiveBox::BoxF, DefensiveBox::BoxL, DefensiveBox::BoxM)
    } else if rn == 11 {
        (DefensiveBox::BoxJ, DefensiveBox::BoxL, DefensiveBox::BoxN, DefensiveBox::BoxM)
    } else {
        (DefensiveBox::BoxF, DefensiveBox::BoxM, DefensiveBox::BoxM, DefensiveBox::BoxL)
    };
    match play {
        OffensivePlayType::SC => row.0,
        OffensivePlayType::QK => row.1,
        OffensivePlayType::SH => row.2,
        _ => row.3,
    }
}

/// The interception return yards on run number `rn` by a lineman, a
/// linebacker and a defensive back.
pub open spec fn return_row(rn: int) -> (int, int, int) {
    if rn == 1 {
        (15, 30, 100)
    } else if rn == 2 {
        (10, 20, 50)
    } else if rn == 3 {
        (6, 15, 30)
    } else if rn == 4 {
        (3, 10, 20)
    } else if rn == 5 {
        (1, 8, 15)
    } else if rn == 6 {
        (0, 5, 10)
    } else if rn == 7 {
        (0, 4, 8)
    } else if rn == 8 {
        (0, 3, 6)
    } else if rn == 9 {
        (0, 0, 4)
    } else if rn == 10 {
        (0, 0, 2)
    } else {
        (0, 0, 0)
    }
}

/// The return yards after an interception by a player of position `pos`.
pub open spec fn interception_return_of(rn: int, pos: Position) -> int {
    let row = return_row(rn);
    match pos {
        Position::DL => row.0,
        Position::LB => row.1,
        Position::DB => row.2,
        _ => 0,
    }
}

pub fn interception_return(rn: i32, pos: Position) -> (r: i32)
    ensures
        r == interception_return_of(rn as int, pos),
        0 <= r <= 100,
{
    let row: (i32, i32, i32) = if rn == 1 {
        (15, 30, 100)
    } else if rn == 2 {
        (10, 20, 50)
    } else if rn == 3 {
        (6, 15, 30)
    } else if rn == 4 {
        (3, 10, 20)
    } else if rn == 5 {
        (1, 8, 15)
    } else if rn == 6 {
        (0, 5, 10)
    } else if rn == 7 {
        (0, 4, 8)
    } else if rn == 8 {
        (0, 3, 6)
    } else if rn == 9 {
        (0, 0, 4)
    } else if rn == 10 {
        (0, 0, 2)
    } else {
        (0, 0, 0)
    };
    match pos {
        Position::DL => row.0,
        Position::LB => row.1,
        Position::DB => row.2,
        _ => 0,
    }
}

/// A row of the kickoff tables: a touchback, a draw on the second table, or a
/// return by the returner `recipient` (counted from one) from `line`.
#[derive(Debug, Clone, Copy, PartialEq, Eq, Structural)]
pub enum KickoffResult {
    Touchback,
    ColumnB,
    Return { recipient: i32, line: i32 },
}

/// The first kickoff table, by run number.
pub open spec fn kickoff_a(rn: int) -> KickoffResult {
    if rn == 1 || rn == 12 {
        KickoffResult::ColumnB
    } else if rn == 2 {
        KickoffResult::Return { recipient: 1, line: 0 }
    } else if rn == 3 {
        KickoffResult::Return { recipient: 1, line: 1 }
    } else if rn == 4 {
        KickoffResult::Return { recipient: 2, line: 2 }
    } else if rn == 5 {
        KickoffResult::Return { recipient: 1, line: 3 }
    } else if rn == 6 {
        KickoffResult::Return { recipient: 1, line: 4 }
    } else if rn == 7 {
        KickoffResult::Return { recipient: 2, line: 5 }
    } else if rn == 8 {
        KickoffResult::Return { recipient: 3, line: 6 }
    } else if rn == 9 {
        KickoffResult::Return { recipient: 3, line: 7 }
    } else if rn == 10 {
        KickoffResult::Return { recipient: 2, line: 8 }
    } else {
        KickoffResult::Touchback
    }
}

/// The second kickoff table, by run number.
pub open spec fn kickoff_b(rn: int) -> KickoffResult {
    if rn == 1 {
        KickoffResult::Return { recipient: 1, line: 0 }
    } else if rn == 2 {
        KickoffResult::Return { recipient: 2, line: 0 }
    } else if rn == 3 {
        KickoffResult::Return { recipient: 4, line: 1 }
    } else if rn == 4 {
        KickoffResult::Return { recipient: 2, line: 2 }
    } else if rn == 5 {
        KickoffResult::Return { recipient: 3, line: 3 }
    } else if rn == 6 {
        KickoffResult::Return { recipient: 1, line: 4 }
    } else if rn == 7 {
        KickoffResult::Return { recipient: 1, line: 5 }
    } else if 8 <= rn <= 10 {
        KickoffResult::Touchback
    } else {
        KickoffResult::Return { recipient: 4, line: 0 }
    }
}

pub fn kickoff_results_a(rn: i32) -> (r: KickoffResult)
    ensures
        r == kickoff_a(rn as int),
{
    if rn == 1 || rn == 12 {
        KickoffResult::ColumnB
    } else if rn == 2 {
        KickoffResult::Return { recipient: 1, line: 0 }
    } else if rn == 3 {
        KickoffResult::Return { recipient: 1, line: 1 }
    } else if rn == 4 {
        KickoffResult::Return { recipient: 2, line: 2 }
    } else if rn == 5 {
        KickoffResult::Return { recipient: 1, line: 3 }
    } else if rn == 6 {
        KickoffResult::Return { recipient: 1, line: 4 }
    } else if rn == 7 {
        KickoffResult::Return { recipient: 2, line: 5 }
    } else if rn == 8 {
        KickoffResult::Return { recipient: 3, line: 6 }
    } else if rn == 9 {
        KickoffResult::Return { recipient: 3, line: 7 }
    } else if rn == 10 {
        KickoffResult::Return { recipient: 2, line: 8 }
    } else {
        KickoffResult::Touchback
    }
}

pub fn kickoff_results_b(rn: i32) -> (r: KickoffResult)
    ensures
        r == kickoff_b(rn as int),
{
    if rn == 1 {
        KickoffResult::Return { recipient: 1, line: 0 }
    } else if rn == 2 {
        KickoffResult::Return { recipient: 2, line: 0 }
    } else if rn == 3 {
        KickoffResult::Return { recipient: 4, line: 1 }
    } else if rn == 4 {
        KickoffResult::Return { recipient: 2, line: 2 }
    } else if rn == 5 {
        KickoffResult::Return { recipient: 3, line: 3 }
    } else if rn == 6 {
        KickoffResult::Return { recipient: 1, line: 4 }
    } else if rn == 7 {
        KickoffResult::Return { recipient: 1, line: 5 }
    } else if 8 <= rn && rn <= 10 {
        KickoffResult::Touchback
    } else {
        KickoffResult::Return { recipient: 4, line: 0 }
    }
}

} // verus!
