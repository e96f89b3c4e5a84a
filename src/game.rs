use vstd::prelude::*;

use crate::defs::{QUARTERS, SEC_PER_QUARTER};

verus! {

pub type Yard = i32;

#[derive(Debug, Clone, Copy, PartialEq, Eq, Structural)]
pub enum GameTeams {
    Home,
    Away,
}

impl GameTeams {
    pub open spec fn other(self) -> GameTeams {
        match self {
            GameTeams::Home => GameTeams::Away,
            GameTeams::Away => GameTeams::Home,
        }
    }

    pub fn other_team(&self) -> (r: GameTeams)
        ensures
            r == self.other(),
    {
        match self {
            GameTeams::Home => GameTeams::Away,
            GameTeams::Away => GameTeams::Home,
        }
    }
}

#[derive(Debug, Clone, Copy, PartialEq, Eq, Structural)]
pub enum Down {
    First,
    Second,
    Third,
    Fourth,
}

impl Down {
    pub open spec fn next(self) -> Down {
        match self {
            Down::First => Down::Second,
            Down::Second => Down::Third,
            Down::Third => Down::Fourth,
            Down::Fourth => Down::Fourth,
        }
    }

    pub fn next_down(&self) -> (r: Down)
        ensures
            r == self.next(),
    {
        match self {
            Down::First => Down::Second,
            Down::Second => Down::Third,
            Down::Third => Down::Fourth,
            Down::Fourth => Down::Fourth,
        }
    }
}

/// What the last play ended in; it decides which plays may come next.
#[derive(Debug, Clone, Copy, PartialEq, Eq, Structural)]
pub enum GamePlayStatus {
    Touchdown,
    Safety,
    FieldGoal,
    PossesionChange,
    Ongoing,
    Start,
    End,
}

#[derive(Debug, Clone, Copy, PartialEq, Eq, Structural)]
pub enum GameStatus {
    Kickoff,
    StandardPlay,
    ExtraPoint,
}

#[derive(Debug, Clone, Copy, PartialEq, Eq, Structural)]
pub enum PlayType {
    Kickoff,
    Punt,
    ExtraPoint,
    FieldGoal,
    Standard,
    NoPlay,
}

/// The state of a game between plays. `yardline` and `first_down_target` are
/// measured from the goal line that the team in possession defends.
#[derive(Debug, Clone, Copy, PartialEq, Eq, Structural)]
pub struct GameState {
    pub last_status: GamePlayStatus,
    pub quarter: i32,
    pub time_remaining: i32,
    pub possesion: GameTeams,
    pub down: Down,
    pub yardline: Yard,
    pub first_down_target: Yard,
    pub home_score: i32,
    pub away_score: i32,
}

/// The plays allowed after a play that ended in `status`.
pub open spec fn allowed_after(status: GamePlayStatus) -> Seq<PlayType> {
    match status {
        GamePlayStatus::Touchdown => seq![PlayType::ExtraPoint],
        GamePlayStatus::Safety => seq![PlayType::Punt],
        GamePlayStatus::FieldGoal => seq![PlayType::Kickoff],
        GamePlayStatus::PossesionChange | GamePlayStatus::Ongoing => seq![
            PlayType::Standard,
            PlayType::Punt,
            PlayType::FieldGoal,
        ],
        GamePlayStatus::Start => seq![PlayType::Kickoff],
        GamePlayStatus::End => Seq::empty(),
    }
}

/// The play that is set up by default after a play that ended in `status`;
/// none once the game has ended.
pub open spec fn default_after(status: GamePlayStatus) -> PlayType {
    match status {
        GamePlayStatus::Touchdown => PlayType::ExtraPoint,
        GamePlayStatus::Safety => PlayType::Punt,
        GamePlayStatus::FieldGoal => PlayType::Kickoff,
        GamePlayStatus::PossesionChange => PlayType::Standard,
        GamePlayStatus::Ongoing => PlayType::Standard,
        GamePlayStatus::Start => PlayType::Kickoff,
        GamePlayStatus::End => PlayType::NoPlay,
    }
}

impl GameState {
    /// Bounds that every state between plays keeps: the clock lies within a
    /// quarter and the scores leave room for one more score.
    pub open spec fn wf(&self) -> bool {
        &&& 1 <= self.quarter <= QUARTERS
        &&& 0 <= self.time_remaining <= SEC_PER_QUARTER
        &&& 0 <= self.home_score <= i32::MAX - 6
        &&& 0 <= self.away_score <= i32::MAX - 6
    }

    pub fn start_state() -> (r: GameState)
        ensures
            r == (GameState {
                last_status: GamePlayStatus::Start,
                quarter: 1,
                time_remaining: SEC_PER_QUARTER,
                possesion: GameTeams::Away,
                down: Down::First,
                yardline: 50,
                first_down_target: 60,
                home_score: 0,
                away_score: 0,
            }),
            r.wf(),
    {
        GameState {
            last_status: GamePlayStatus::Start,
            quarter: 1,
            time_remaining: SEC_PER_QUARTER,
            possesion: GameTeams::Away,
            down: Down::First,
            yardline: 50,
            first_down_target: 60,
            home_score: 0,
            away_score: 0,
        }
    }

    pub fn get_next_move_types(&self) -> (r: Vec<PlayType>)
        ensures
            r@ == allowed_after(self.last_status),
    {
        let r = match self.last_status {
            GamePlayStatus::Touchdown => vec![PlayType::ExtraPoint],
            GamePlayStatus::Safety => vec![PlayType::Punt],
            GamePlayStatus::FieldGoal => vec![PlayType::Kickoff],
            GamePlayStatus::PossesionChange | GamePlayStatus::Ongoing => vec![
                PlayType::Standard,
                PlayType::Punt,
                PlayType::FieldGoal,
            ],
            GamePlayStatus::Start => vec![PlayType::Kickoff],
            GamePlayStatus::End => Vec::new(),
        };
        proof {
            assert(r@ =~= allowed_after(self.last_status));
        }
        r
    }

    pub fn get_next_move_default(&self) -> (r: PlayType)
        ensures
            r == default_after(self.last_status),
    {
        match self.last_status {
            GamePlayStatus::Touchdown => PlayType::ExtraPoint,
            GamePlayStatus::Safety => PlayType::Punt,
            GamePlayStatus::FieldGoal => PlayType::Kickoff,
            GamePlayStatus::PossesionChange => PlayType::Standard,
            GamePlayStatus::Ongoing => PlayType::Standard,
            GamePlayStatus::Start => PlayType::Kickoff,
            GamePlayStatus::End => PlayType::NoPlay,
        }
    }
}

} // verus!
