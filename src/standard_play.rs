use vstd::prelude::*;

use crate::lineup::{OffensiveBox, StandardDefensiveLineup, StandardOffensiveLineup};
use crate::stats::Shiftable;
use crate::text::text_is;

verus! {

#[derive(Debug, Clone, Copy, PartialEq, Eq, Structural)]
pub enum PassResult {
    Complete,
    Incomplete,
    Interception,
}

impl Shiftable for PassResult {
    open spec fn first() -> PassResult {
        PassResult::Complete
    }

    open spec fn second() -> PassResult {
        PassResult::Incomplete
    }

    fn get_first() -> (r: PassResult) {
        PassResult::Complete
    }

    fn get_second() -> (r: PassResult) {
        PassResult::Incomplete
    }

    fn same(&self, other: &PassResult) -> (r: bool) {
        *self == *other
    }

    open spec fn code_of(code: Seq<char>) -> Option<PassResult> {
        if code == seq!['C', 'o', 'm'] {
            Some(PassResult::Complete)
        } else if code == seq!['I', 'n', 'c'] {
            Some(PassResult::Incomplete)
        } else if code == seq!['I', 'n', 't'] {
            Some(PassResult::Interception)
        } else {
            None
        }
    }

    fn from_code(code: &str) -> (r: Option<PassResult>) {
        proof {
            reveal_strlit("Com");
            reveal_strlit("Inc");
            reveal_strlit("Int");
            assert("Com"@ =~= seq!['C', 'o', 'm']);
            assert("Inc"@ =~= seq!['I', 'n', 'c']);
            assert("Int"@ =~= seq!['I', 'n', 't']);
        }
        if text_is(code, "Com") {
            Some(PassResult::Complete)
        } else if text_is(code, "Inc") {
            Some(PassResult::Incomplete)
        } else if text_is(code, "Int") {
            Some(PassResult::Interception)
        } else {
            None
        }
    }
}

#[derive(Debug, Clone, Copy, PartialEq, Eq, Structural)]
pub enum PassRushResult {
    Sack,
    Runs,
    Complete,
    Incomplete,
}

impl Shiftable for PassRushResult {
    open spec fn first() -> PassRushResult {
        PassRushResult::Sack
    }

    open spec fn second() -> PassRushResult {
        PassRushResult::Runs
    }

    fn get_first() -> (r: PassRushResult) {
        PassRushResult::Sack
    }

    fn get_second() -> (r: PassRushResult) {
        PassRushResult::Runs
    }

    fn same(&self, other: &PassRushResult) -> (r: bool) {
        *self == *other
    }

    open spec fn code_of(code: Seq<char>) -> Option<PassRushResult> {
        if code == seq!['S', 'a', 'c', 'k'] {
            Some(PassRushResult::Sack)
        } else if code == seq!['R', 'u', 'n', 's'] {
            Some(PassRushResult::Runs)
        } else if code == seq!['C', 'o', 'm'] {
            Some(PassRushResult::Complete)
        } else if code == seq!['I', 'n', 'c'] {
            Some(PassRushResult::Incomplete)
        } else {
            None
        }
    }

    fn from_code(code: &str) -> (r: Option<PassRushResult>) {
        proof {
            reveal_strlit("Sack");
            reveal_strlit("Runs");
            reveal_strlit("Com");
            reveal_strlit("Inc");
            assert("Sack"@ =~= seq!['S', 'a', 'c', 'k']);
            assert("Runs"@ =~= seq!['R', 'u', 'n', 's']);
            assert("Com"@ =~= seq!['C', 'o', 'm']);
            assert("Inc"@ =~= seq!['I', 'n', 'c']);
        }
        if text_is(code, "Sack") {
            Some(PassRushResult::Sack)
        } else if text_is(code, "Runs") {
            Some(PassRushResult::Runs)
        } else if text_is(code, "Com") {
            Some(PassRushResult::Complete)
        } else if text_is(code, "Inc") {
            Some(PassRushResult::Incomplete)
        } else {
            None
        }
    }
}

#[derive(Debug, Clone, Copy, PartialEq, Eq, Structural)]
pub enum OffensivePlayType {
    SL,
    SR,
    IL,
    IR,
    ER,
    QK,
    SH,
    LG,
    SC,
}

#[derive(Debug, Clone, Copy, PartialEq, Eq, Structural)]
pub enum OffensiveStrategy {
    NoStrategy,
    Sneak,
    Flop,
    Draw,
    PlayAction,
}

#[derive(Debug, Clone, Copy, PartialEq, Eq, Structural)]
pub enum DefensivePlay {
    RunDefense,
    PassDefense,
    PreventDefense,
    Blitz,
}

#[derive(Debug, Clone, Copy, PartialEq, Eq, Structural)]
pub enum DefensiveStrategy {
    Straight,
    DoubleCover,
    TripleCover,
    DoubleCoverX2,
}

/// The defense's call: its formation type, its strategy, the back it keys on,
/// and the players it names (the blitzers of a blitz).
#[derive(Debug, Clone)]
pub struct StandardDefenseCall {
    pub defense_type: DefensivePlay,
    pub strategy: DefensiveStrategy,
    pub key: Option<OffensiveBox>,
    pub def_players: Vec<String>,
}

/// The offense's call: the play, its strategy, and the position it goes to.
#[derive(Debug, Clone, Copy, PartialEq, Eq, Structural)]
pub struct StandardOffenseCall {
    pub play_type: OffensivePlayType,
    pub strategy: OffensiveStrategy,
    pub target: OffensiveBox,
}

/// Which run column of a card a run play reads.
#[derive(Debug, Clone, Copy, PartialEq, Eq, Structural)]
pub enum RunColumn {
    SL,
    SR,
    IL,
    IR,
}

/// The length of a pass, which picks the card column, the quarterback's range
/// table and the receiver's gain column.
#[derive(Debug, Clone, Copy, PartialEq, Eq, Structural)]
pub enum PassLength {
    Quick,
    Short,
    Long,
}

/// What sets one run play apart: its largest loss, whether it may end out of
/// bounds, and its card column.
#[derive(Debug, Clone, Copy, PartialEq, Eq, Structural)]
pub struct RunMetaData {
    pub max_loss: i32,
    pub can_go_ob: bool,
    pub card_val: RunColumn,
}

/// What sets one pass play apart: the card column of its target, the
/// quarterback's range table, and the receiver's gain column.
#[derive(Debug, Clone, Copy, PartialEq, Eq, Structural)]
pub struct PassMetaData {
    pub target: PassLength,
    pub completion_range: PassLength,
    pub pass_gain: PassLength,
}

#[derive(Debug, Clone, Copy, PartialEq, Eq, Structural)]
pub enum OffensivePlayCategory {
    Run(RunMetaData),
    Pass(PassMetaData),
}

/// A play of the offense's playbook.
#[derive(Debug, Clone)]
pub struct OffensivePlayInfo {
    pub play_type: OffensivePlayCategory,
    pub name: String,
    pub code: String,
    pub allowed_targets: Vec<OffensiveBox>,
}

/// The kind of a play, with its constants.
pub open spec fn category_of(play: OffensivePlayType) -> OffensivePlayCategory {
    match play {
        OffensivePlayType::SL => OffensivePlayCategory::Run(
            RunMetaData { max_loss: -100i32, can_go_ob: true, card_val: RunColumn::SL },
        ),
        OffensivePlayType::SR => OffensivePlayCategory::Run(
            RunMetaData { max_loss: -100i32, can_go_ob: true, card_val: RunColumn::SR },
        ),
        OffensivePlayType::IL => OffensivePlayCategory::Run(
            RunMetaData { max_loss: -3i32, can_go_ob: false, card_val: RunColumn::IL },
        ),
        OffensivePlayType::IR => OffensivePlayCategory::Run(
            RunMetaData { max_loss: -3i32, can_go_ob: false, card_val: RunColumn::IR },
        ),
        OffensivePlayType::ER => OffensivePlayCategory::Run(
            RunMetaData { max_loss: -3i32, can_go_ob: false, card_val: RunColumn::IR },
        ),
        OffensivePlayType::QK | OffensivePlayType::SC => OffensivePlayCategory::Pass(
            PassMetaData { target: PassLength::Quick, completion_range: PassLength::Quick, pass_gain: PassLength::Quick },
        ),
        OffensivePlayType::SH => OffensivePlayCategory::Pass(
            PassMetaData { target: PassLength::Short, completion_range: PassLength::Short, pass_gain: PassLength::Short },
        ),
        OffensivePlayType::LG => OffensivePlayCategory::Pass(
            PassMetaData { target: PassLength::Long, completion_range: PassLength::Long, pass_gain: PassLength::Long },
        ),
    }
}

/// The positions a play may go to: a back for runs and screens, any receiver
/// for the other passes.
pub open spec fn allowed_targets_of(play: OffensivePlayType) -> Seq<OffensiveBox> {
    match play {
        OffensivePlayType::QK | OffensivePlayType::SH | OffensivePlayType::LG => seq![
            OffensiveBox::B1,
            OffensiveBox::B2,
            OffensiveBox::B3,
            OffensiveBox::RE,
            OffensiveBox::LE,
            OffensiveBox::FL1,
            OffensiveBox::FL2,
        ],
        _ => seq![OffensiveBox::B1, OffensiveBox::B2, OffensiveBox::B3],
    }
}

/// The playbook entry of `play`.
pub fn get_offensive_play_info(play: &OffensivePlayType) -> (r: OffensivePlayInfo)
    ensures
        r.play_type == category_of(*play),
        r.allowed_targets@ == allowed_targets_of(*play),
{
    let backs = vec![OffensiveBox::B1, OffensiveBox::B2, OffensiveBox::B3];
    let receivers = vec![
        OffensiveBox::B1,
        OffensiveBox::B2,
        OffensiveBox::B3,
        OffensiveBox::RE,
        OffensiveBox::LE,
        OffensiveBox::FL1,
        OffensiveBox::FL2,
    ];
    let quick = PassMetaData {
        target: PassLength::Quick,
        completion_range: PassLength::Quick,
        pass_gain: PassLength::Quick,
    };
    let r = match play {
        OffensivePlayType::SL => OffensivePlayInfo {
            play_type: OffensivePlayCategory::Run(RunMetaData { max_loss: -100, can_go_ob: true, card_val: RunColumn::SL }),
            name: "Sweep Left".to_owned(),
            code: "SL".to_owned(),
            allowed_targets: backs,
        },
        OffensivePlayType::SR => OffensivePlayInfo {
            play_type: OffensivePlayCategory::Run(RunMetaData { max_loss: -100, can_go_ob: true, card_val: RunColumn::SR }),
            name: "Sweep Right".to_owned(),
            code: "SR".to_owned(),
            allowed_targets: backs,
        },
        OffensivePlayType::IL => OffensivePlayInfo {
            play_type: OffensivePlayCategory::Run(RunMetaData { max_loss: -3, can_go_ob: false, card_val: RunColumn::IL }),
            name: "Inside Left".to_owned(),
            code: "IL".to_owned(),
            allowed_targets: backs,
        },
        OffensivePlayType::IR => OffensivePlayInfo {
            play_type: OffensivePlayCategory::Run(RunMetaData { max_loss: -3, can_go_ob: false, card_val: RunColumn::IR }),
            name: "Inside Right".to_owned(),
            code: "IR".to_owned(),
            allowed_targets: backs,
        },
        OffensivePlayType::ER => OffensivePlayInfo {
            play_type: OffensivePlayCategory::Run(RunMetaData { max_loss: -3, can_go_ob: false, card_val: RunColumn::IR }),
            name: "End Around".to_owned(),
            code: "ER".to_owned(),
            allowed_targets: backs,
        },
        OffensivePlayType::QK => OffensivePlayInfo {
            play_type: OffensivePlayCategory::Pass(quick),
            name: "Quick".to_owned(),
            code: "QK".to_owned(),
            allowed_targets: receivers,
        },
        OffensivePlayType::SH => OffensivePlayInfo {
            play_type: OffensivePlayCategory::Pass(PassMetaData {
                target: PassLength::Short,
                completion_range: PassLength::Short,
                pass_gain: PassLength::Short,
            }),
            name: "Short".to_owned(),
            code: "SH".to_owned(),
            allowed_targets: receivers,
        },
        OffensivePlayType::LG => OffensivePlayInfo {
            play_type: OffensivePlayCategory::Pass(PassMetaData {
                target: PassLength::Long,
                completion_range: PassLength::Long,
                pass_gain: PassLength::Long,
            }),
            name: "Long".to_owned(),
            code: "LG".to_owned(),
            allowed_targets: receivers,
        },
        OffensivePlayType::SC => OffensivePlayInfo {
            play_type: OffensivePlayCategory::Pass(quick),
            name: "Screen".to_owned(),
            code: "SC".to_owned(),
            allowed_targets: backs,
        },
    };
    proof {
        assert(r.allowed_targets@ =~= allowed_targets_of(*play));
    }
    r
}

/// Everything a resolver reads of a standard play: both lineups (the defense
/// without its blitzers when it blitzes), both calls, and the playbook entry.
pub struct PlaySetup<'a> {
    pub offense: &'a StandardOffensiveLineup,
    pub offense_call: &'a StandardOffenseCall,
    pub defense: StandardDefensiveLineup,
    pub defense_call: &'a StandardDefenseCall,
    pub offense_metadata: &'a OffensivePlayInfo,
}

impl<'a> PlaySetup<'a> {
    /// The lineups are well formed and the playbook entry is the one of the call.
    pub open spec fn wf(&self) -> bool {
        &&& self.offense.wf()
        &&& self.defense.wf()
        &&& self.offense_metadata.play_type == category_of(self.offense_call.play_type)
    }
}

} // verus!
