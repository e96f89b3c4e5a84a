use vstd::prelude::*;

use crate::defs::{BLITZ_MAX, BLITZ_MIN};
use crate::fac::{FacData, FacManager};
use crate::game::{GameState, PlayType};
use crate::kick_play::{KickPlayImpl, KickoffPlay};
use crate::lineup::{kept, StandardDefensiveLineup, StandardOffensiveLineup};
use crate::pass_play::{pass_outcome, PassUtils};
use crate::play::{extends, fresh, CardStreamer, PlayResult};
use crate::result_handler::{calculate_play_result, next_state};
use crate::run_play::{run_outcome, RunUtils};
use crate::standard_play::{
    allowed_targets_of, category_of, get_offensive_play_info, DefensivePlay, OffensivePlayCategory,
    OffensivePlayType, OffensiveStrategy, PlaySetup, StandardDefenseCall, StandardOffenseCall,
};

verus! {

#[derive(Debug, Clone, Copy, PartialEq, Eq, Structural)]
pub struct KickoffOffenseCall {
    pub onside: bool,
}

#[derive(Debug, Clone, Copy, PartialEq, Eq, Structural)]
pub struct KickoffDefenseCall {}

#[derive(Debug, Clone, Copy, PartialEq, Eq, Structural)]
pub struct PuntOffenseCall {
    pub coffin_corner: i32,
}

#[derive(Debug, Clone, Copy, PartialEq, Eq, Structural)]
pub struct PuntDefenseCall {
    pub attempt_block: bool,
}

#[derive(Debug, Clone)]
pub enum OffenseCall {
    StandardOffenseCall(StandardOffenseCall),
    KickoffOffenseCall(KickoffOffenseCall),
    PuntOffenseCall(PuntOffenseCall),
}

#[derive(Debug, Clone)]
pub enum DefenseCall {
    StandardDefenseCall(StandardDefenseCall),
    KickoffDefenseCall(KickoffDefenseCall),
    PuntDefenseCall(PuntDefenseCall),
}

/// Whether the strategy of `call` may be played on its play: a draw only on
/// inside runs, play action only on short and long passes.
pub open spec fn strategy_fits(call: StandardOffenseCall) -> bool {
    match call.strategy {
        OffensiveStrategy::Draw => call.play_type == OffensivePlayType::IL || call.play_type == OffensivePlayType::IR,
        OffensiveStrategy::PlayAction => call.play_type == OffensivePlayType::SH || call.play_type
            == OffensivePlayType::LG,
        _ => true,
    }
}

/// Whether `call` is a legal call against the offense `off`.
pub open spec fn offense_call_ok(call: StandardOffenseCall, off: StandardOffensiveLineup) -> bool {
    &&& allowed_targets_of(call.play_type).contains(call.target)
    &&& off.at(call.target) is Some
    &&& strategy_fits(call)
}

/// Whether the player `id` stands in some box of `def`.
pub open spec fn has_player(def: StandardDefensiveLineup, id: Seq<char>) -> bool {
    exists|b: int, j: int| 0 <= b < 15 && 0 <= j < def.boxes@[b]@.len() && #[trigger] crate::players::id_of(def.boxes@[b]@[j])@ == id
}

/// Whether every player that the defense's call names stands in the lineup.
pub open spec fn names_in_lineup(call: StandardDefenseCall, def: StandardDefensiveLineup) -> bool {
    forall|i: int| 0 <= i < call.def_players@.len() ==> #[trigger] has_player(def, call.def_players@[i]@)
}

/// Whether `call` is a legal call for the defense `def`: it names only players
/// of the lineup, and a blitz sends two to five of them.
pub open spec fn defense_call_ok(call: StandardDefenseCall, def: StandardDefensiveLineup) -> bool {
    &&& names_in_lineup(call, def)
    &&& call.defense_type == DefensivePlay::Blitz ==> BLITZ_MIN <= call.def_players@.len() <= BLITZ_MAX
}

/// A standard play from scrimmage, set up piece by piece.
#[derive(Debug, Clone)]
pub struct StandardPlay {
    pub offense: Option<StandardOffensiveLineup>,
    pub offense_call: Option<StandardOffenseCall>,
    pub defense: Option<StandardDefensiveLineup>,
    pub defense_call: Option<StandardDefenseCall>,
}

impl StandardPlay {
    /// The lineups that are set are well formed.
    pub open spec fn wf(&self) -> bool {
        &&& (self.offense matches Some(o) ==> o.wf())
        &&& (self.defense matches Some(d) ==> d.wf())
    }

    /// Whether every piece is set.
    pub open spec fn complete(&self) -> bool {
        &&& self.offense is Some
        &&& self.offense_call is Some
        &&& self.defense is Some
        &&& self.defense_call is Some
    }

    /// A complete play with well-formed lineups and legal calls.
    pub open spec fn ready(&self) -> bool {
        &&& self.complete()
        &&& self.offense->Some_0.wf()
        &&& self.defense->Some_0.wf()
        &&& offense_call_ok(self.offense_call->Some_0, self.offense->Some_0)
        &&& defense_call_ok(self.defense_call->Some_0, self.defense->Some_0)
    }

    pub fn new() -> (r: StandardPlay)
        ensures
            !r.complete(),
            r.offense is None && r.offense_call is None && r.defense is None && r.defense_call is None,
    {
        StandardPlay { offense: None, offense_call: None, defense: None, defense_call: None }
    }

    /// The hook for the rare special card; it leaves the result as it is.
    pub fn handle_z(result: PlayResult) -> (r: PlayResult)
        ensures
            r == result,
    {
        result
    }

    pub fn validate(&self) -> (r: Result<(), String>)
        ensures
            r is Ok <==> self.complete(),
    {
        if self.offense.is_none() {
            return Err("Offense not set".to_owned());
        }
        if self.defense.is_none() {
            return Err("Defense not set".to_owned());
        }
        if self.offense_call.is_none() {
            return Err("Offense Call not set".to_owned());
        }
        if self.defense_call.is_none() {
            return Err("Defense Call not set".to_owned());
        }
        Ok(())
    }

    /// Sets the offense's lineup once it is legal; the play is unchanged otherwise.
    pub fn set_offense_lineup(&mut self, lineup: StandardOffensiveLineup) -> (r: Result<(), String>)
        requires
            lineup.wf(),
        ensures
            r is Ok <==> lineup.legal(),
            r is Ok ==> final(self).offense == Some(lineup),
            r is Err ==> final(self).offense == old(self).offense,
            final(self).offense_call == old(self).offense_call,
            final(self).defense == old(self).defense,
            final(self).defense_call == old(self).defense_call,
    {
        lineup.is_legal_lineup()?;
        self.offense = Some(lineup);
        Ok(())
    }

    /// Sets the defense's lineup once it is legal; the play is unchanged otherwise.
    pub fn set_defense_lineup(&mut self, lineup: StandardDefensiveLineup) -> (r: Result<(), String>)
        requires
            lineup.wf(),
        ensures
            r is Ok <==> lineup.legal(),
            r is Ok ==> final(self).defense == Some(lineup),
            r is Err ==> final(self).defense == old(self).defense,
            final(self).offense == old(self).offense,
            final(self).offense_call == old(self).offense_call,
            final(self).defense_call == old(self).defense_call,
    {
        lineup.is_legal_lineup()?;
        self.defense = Some(lineup);
        Ok(())
    }

    /// Sets the offense's call once the lineup is set and the call is legal
    /// against it; the play is unchanged otherwise.
    pub fn set_offense_call(&mut self, call: OffenseCall) -> (r: Result<(), String>)
        requires
            old(self).wf(),
        ensures
            r is Ok <==> (call matches OffenseCall::StandardOffenseCall(c) && old(self).offense is Some
                && offense_call_ok(c, old(self).offense->Some_0)),
            r is Ok ==> final(self).offense_call == Some(call->StandardOffenseCall_0),
            r is Err ==> final(self).offense_call == old(self).offense_call,
            final(self).offense == old(self).offense,
            final(self).defense == old(self).defense,
            final(self).defense_call == old(self).defense_call,
    {
        let c = match call {
            OffenseCall::StandardOffenseCall(c) => c,
            _ => {
                return Err("Bad type".to_owned());
            },
        };
        c.validate(self)?;
        self.offense_call = Some(c);
        Ok(())
    }

    /// Sets the defense's call once the lineup is set and the call is legal
    /// for it; the play is unchanged otherwise.
    pub fn set_defense_call(&mut self, call: DefenseCall) -> (r: Result<(), String>)
        requires
            old(self).wf(),
        ensures
            r is Ok <==> (call matches DefenseCall::StandardDefenseCall(c) && old(self).defense is Some
                && defense_call_ok(c, old(self).defense->Some_0)),
            r is Ok ==> final(self).defense_call == Some(call->StandardDefenseCall_0),
            r is Err ==> final(self).defense_call == old(self).defense_call,
            final(self).offense == old(self).offense,
            final(self).defense == old(self).defense,
            final(self).offense_call == old(self).offense_call,
    {
        let c = match call {
            DefenseCall::StandardDefenseCall(c) => c,
            _ => {
                return Err("Bad type".to_owned());
            },
        };
        c.validate(self)?;
        self.defense_call = Some(c);
        Ok(())
    }

    pub fn get_type(&self) -> (r: PlayType)
        ensures
            r == PlayType::Standard,
    {
        PlayType::Standard
    }
}

impl StandardPlay {
    /// Resolves the play: the defense loses its blitzers when it blitzes, and
    /// the playbook entry of the call picks the run or the pass resolver. The
    /// result is that resolver's outcome of the cards drawn.
    pub fn run_play(self, state: &GameState, cards: &mut CardStreamer) -> (r: PlayResult)
        requires
            self.ready(),
            old(cards).wf(),
            -10000 <= state.yardline <= 10000,
        ensures
            final(cards).wf(),
            final(cards).fac_deck.cards() == old(cards).fac_deck.cards(),
            extends(final(cards).drawn@, old(cards).drawn@),
            r.time >= 0,
            standard_result_of(self, r, fresh(final(cards).drawn@, old(cards).drawn@), state.yardline as int),
    {
        let ghost d0 = self.defense->Some_0;
        let off = self.offense.unwrap();
        let call = self.offense_call.unwrap();
        let dcall = self.defense_call.unwrap();
        let def = self.defense.unwrap();
        let meta = get_offensive_play_info(&call.play_type);
        let real_def = if dcall.defense_type == DefensivePlay::Blitz {
            def.filter_players(&dcall.def_players)
        } else {
            def
        };
        let ghost rd = real_def;
        let setup = PlaySetup {
            offense: &off,
            offense_call: &call,
            defense: real_def,
            defense_call: &dcall,
            offense_metadata: &meta,
        };
        let r = match meta.play_type {
            OffensivePlayCategory::Run(_) => RunUtils::handle_run_play(state, setup, cards),
            OffensivePlayCategory::Pass(_) => PassUtils::handle_pass_play(state, setup, cards),
        };
        proof {
            assert(rd.wf());
            lemma_times_nonneg(off, rd, call, dcall, fresh(cards.drawn@, old(cards).drawn@));
        }
        r
    }
}

/// Whether `def` is the defense that plays: the lineup without the blitzers
/// when the defense blitzes, the whole lineup otherwise.
pub open spec fn defense_in_play(p: StandardPlay, def: StandardDefensiveLineup) -> bool {
    if p.defense_call->Some_0.defense_type == DefensivePlay::Blitz {
        forall|b: crate::lineup::DefensiveBox| #[trigger] def.in_box(b) == kept(
            p.defense->Some_0.in_box(b),
            p.defense_call->Some_0.def_players@,
        )
    } else {
        def == p.defense->Some_0
    }
}

/// Whether `r` is the outcome of the standard play `p` on the cards `cs`,
/// with the defense that plays.
pub open spec fn standard_result_of(p: StandardPlay, r: PlayResult, cs: Seq<FacData>, line: int) -> bool {
    exists|def: StandardDefensiveLineup| #![trigger def.wf()]
        def.wf() && defense_in_play(p, def) && standard_outcome_is(
            r,
            p.offense->Some_0,
            def,
            p.offense_call->Some_0,
            p.defense_call->Some_0,
            cs,
            line,
        )
}

/// Whether `r` is the outcome of the standard play with these lineups and
/// calls on the cards `cs`.
pub open spec fn standard_outcome_is(
    r: PlayResult,
    off: StandardOffensiveLineup,
    def: StandardDefensiveLineup,
    call: StandardOffenseCall,
    dcall: StandardDefenseCall,
    cs: Seq<FacData>,
    line: int,
) -> bool {
    match category_of(call.play_type) {
        OffensivePlayCategory::Run(md) => {
            let o = run_outcome(off, def, call, dcall, md, cs);
            r.result_type == crate::play::ResultType::Regular && r.result == o.0 && r.time == o.1 && cs.len() == o.2
                && r.final_line == r.result + line
        },
        OffensivePlayCategory::Pass(md) => crate::pass_play::result_is(
            r,
            pass_outcome(off, def, call, dcall, md, cs),
            line,
            cs.len() as int,
        ),
    }
}

/// Every standard play takes a non-negative time.
proof fn lemma_times_nonneg(
    off: StandardOffensiveLineup,
    def: StandardDefensiveLineup,
    call: StandardOffenseCall,
    dcall: StandardDefenseCall,
    cs: Seq<FacData>,
)
    ensures
        match category_of(call.play_type) {
            OffensivePlayCategory::Run(md) => run_outcome(off, def, call, dcall, md, cs).1 >= 0,
            OffensivePlayCategory::Pass(md) => pass_outcome(off, def, call, dcall, md, cs).2 >= 0,
        },
{
}

/// A check of a call against the play it is for.
pub trait Validatable {
    spec fn valid_for(&self, play: &StandardPlay) -> bool;

    fn validate(&self, play: &StandardPlay) -> (r: Result<(), String>)
        requires
            play.wf(),
        ensures
            r is Ok <==> self.valid_for(play),
    ;
}

impl Validatable for StandardOffenseCall {
    open spec fn valid_for(&self, play: &StandardPlay) -> bool {
        play.offense is Some && offense_call_ok(*self, play.offense->Some_0)
    }

    fn validate(&self, play: &StandardPlay) -> (r: Result<(), String>) {
        let meta = get_offensive_play_info(&self.play_type);
        let mut found = false;
        let mut i: usize = 0;
        while i < meta.allowed_targets.len()
            invariant
                0 <= i <= meta.allowed_targets@.len(),
                found == exists|k: int| 0 <= k < i && meta.allowed_targets@[k] == self.target,
            decreases meta.allowed_targets@.len() - i,
        {
            if meta.allowed_targets[i] == self.target {
                found = true;
            }
            i = i + 1;
        }
        if !found {
            return Err("Not a valid target for the play".to_owned());
        }
        let off = match &play.offense {
            Some(off) => off,
            None => {
                return Err("Set Lineup before setting Call".to_owned());
            },
        };
        if off.get_player_in_pos(&self.target).is_none() {
            return Err("No player at the target".to_owned());
        }
        match self.strategy {
            OffensiveStrategy::Draw => {
                validate_strategy(&self.play_type, OffensivePlayType::IL, OffensivePlayType::IR)?;
            },
            OffensiveStrategy::PlayAction => {
                validate_strategy(&self.play_type, OffensivePlayType::SH, OffensivePlayType::LG)?;
            },
            _ => {},
        }
        Ok(())
    }
}

impl Validatable for StandardDefenseCall {
    open spec fn valid_for(&self, play: &StandardPlay) -> bool {
        play.defense is Some && defense_call_ok(*self, play.defense->Some_0)
    }

    fn validate(&self, play: &StandardPlay) -> (r: Result<(), String>) {
        let lineup = match &play.defense {
            Some(l) => l,
            None => {
                return Err("Set lineup before Call".to_owned());
            },
        };
        let mut i: usize = 0;
        while i < self.def_players.len()
            invariant
                lineup.wf(),
                play.defense == Some(*lineup),
                0 <= i <= self.def_players@.len(),
                forall|k: int| 0 <= k < i ==> #[trigger] has_player(*lineup, self.def_players@[k]@),
            decreases self.def_players@.len() - i,
        {
            match lineup.find_player(&self.def_players[i]) {
                Some(b) => {
                    proof {
                        let j = choose|j: int|
                            0 <= j < lineup.in_box(b).len() && #[trigger] crate::players::id_of(lineup.in_box(b)[j])@
                                == self.def_players@[i as int]@;
                        assert(crate::players::id_of(lineup.boxes@[crate::lineup::box_index(b)]@[j])@
                            == self.def_players@[i as int]@);
                        assert(has_player(*lineup, self.def_players@[i as int]@));
                    }
                },
                None => {
                    proof {
                        if names_in_lineup(*self, *lineup) {
                            assert(has_player(*lineup, self.def_players@[i as int]@));
                            let (b, j) = choose|b: int, j: int|
                                0 <= b < 15 && 0 <= j < lineup.boxes@[b]@.len() && #[trigger] crate::players::id_of(
                                    lineup.boxes@[b]@[j],
                                )@ == self.def_players@[i as int]@;
                            assert(crate::players::id_of(lineup.boxes@[b]@[j])@ != self.def_players@[i as int]@);
                            assert(false);
                        }

                    }
                    return Err("A named player is not in the lineup".to_owned());
                },
            }
            i = i + 1;
        }
        if self.defense_type == DefensivePlay::Blitz && (self.def_players.len() < 2 || self.def_players.len() > 5) {
            return Err("Must blitz between 2 and 5 players".to_owned());
        }
        proof {
            assert(names_in_lineup(*self, *lineup));
        }
        Ok(())
    }
}

/// Checks that `actual` is one of the two plays a strategy may be played on.
pub fn validate_strategy(actual: &OffensivePlayType, a: OffensivePlayType, b: OffensivePlayType) -> (r: Result<(), String>)
    ensures
        r is Ok <==> (*actual == a || *actual == b),
{
    if *actual != a && *actual != b {
        return Err("The strategy can not be played on this play".to_owned());
    }
    Ok(())
}

#[derive(Debug, Clone)]
pub enum Play {
    StandardPlay(StandardPlay),
    Kickoff(KickoffPlay),
}

/// A resolved play: what was played, how it came out, and the state after it.
#[derive(Debug, Clone)]
pub struct PlayAndState {
    pub play: Play,
    pub result: PlayResult,
    pub new_state: GameState,
}

#[derive(Debug, Clone)]
pub struct PlayTypeInfo {
    pub allowed_types: Vec<PlayType>,
    pub next_type: Option<PlayType>,
}

impl Play {
    /// The lineups of a standard play are well formed, and a kickoff's return
    /// chart, when set, is usable.
    pub open spec fn wf(&self) -> bool {
        match self {
            Play::StandardPlay(p) => p.wf(),
            Play::Kickoff(k) => k.kr matches Some(kr) ==> crate::kick_play::returners_ok(kr.returners@),
        }
    }

    /// Whether the play can be resolved.
    pub open spec fn ready(&self) -> bool {
        match self {
            Play::StandardPlay(p) => p.ready(),
            Play::Kickoff(k) => k.kr is Some,
        }
    }

    pub fn get_type(&self) -> (r: PlayType)
        ensures
            self is StandardPlay ==> r == PlayType::Standard,
            self is Kickoff ==> r == PlayType::Kickoff,
    {
        match self {
            Play::StandardPlay(_) => PlayType::Standard,
            Play::Kickoff(_) => PlayType::Kickoff,
        }
    }
}

impl KickoffPlay {
    /// Takes the kicking team's call: whether the kick is onside.
    pub fn set_offense_call(&mut self, call: OffenseCall) -> (r: Result<(), String>)
        ensures
            r is Ok <==> call is KickoffOffenseCall,
            r is Ok ==> final(self).onside == Some(call->KickoffOffenseCall_0.onside),
            r is Err ==> final(self).onside == old(self).onside,
            final(self).kr == old(self).kr,
            final(self).k == old(self).k,
    {
        match call {
            OffenseCall::KickoffOffenseCall(c) => {
                self.onside = Some(c.onside);
                Ok(())
            },
            _ => Err("Bad type".to_owned()),
        }
    }
}

/// The play that a play type is set up as: a kickoff or a standard play, and a
/// kickoff for the kinds of play that have no resolver of their own.
pub open spec fn play_for(t: PlayType) -> Play {
    match t {
        PlayType::Standard => Play::StandardPlay(
            StandardPlay { offense: None, offense_call: None, defense: None, defense_call: None },
        ),
        _ => Play::Kickoff(KickoffPlay { onside: None, kr: None, k: None }),
    }
}

impl PlayType {
    /// A fresh, empty play of this type.
    pub fn create_impl(&self) -> (r: Play)
        ensures
            r == play_for(*self),
    {
        match self {
            PlayType::Standard => Play::StandardPlay(StandardPlay::new()),
            _ => Play::Kickoff(KickoffPlay::new()),
        }
    }
}

/// Resolves one play from `game_state` with cards of `fac_deck`, and turns its
/// result into the next state. A play that is not fully and legally set up is
/// refused before any card is drawn, and the deck is then left as it was.
pub fn run_play(game_state: &GameState, fac_deck: &mut FacManager, play: Play) -> (r: Result<PlayAndState, String>)
    requires
        game_state.wf(),
        old(fac_deck).wf(),
        play.wf(),
        -10000 <= game_state.yardline <= 10000,
    ensures
        final(fac_deck).wf(),
        final(fac_deck).cards() == old(fac_deck).cards(),
        r is Ok <==> play.ready(),
        r is Err ==> *final(fac_deck) == *old(fac_deck),
        r matches Ok(ps) ==> ps.new_state == next_state(
            *game_state,
            ps.result.result_type,
            ps.result.final_line,
            ps.result.time,
        ),
        r matches Ok(ps) ==> match play {
            Play::StandardPlay(p) => exists|cs: Seq<FacData>| #[trigger]
                standard_result_of(p, ps.result, cs, game_state.yardline as int),
            Play::Kickoff(k) => exists|cs: Seq<FacData>| #[trigger] crate::kick_play::kick_result_of(k, ps.result, cs),
        },
{
    let record = play.clone();
    match play {
        Play::StandardPlay(p) => {
            p.validate()?;
            match &p.offense_call {
                Some(c) => c.validate(&p)?,
                None => {},
            }
            match &p.defense_call {
                Some(c) => c.validate(&p)?,
                None => {},
            }
            let mut placeholder = FacManager::new(Vec::new());
            std::mem::swap(fac_deck, &mut placeholder);
            let mut cards = CardStreamer::new(placeholder);
            let ghost p0 = p;
            let result = p.run_play(game_state, &mut cards);
            proof {
                let cs = fresh(cards.drawn@, Seq::<FacData>::empty());
                assert(standard_result_of(p0, result, cs, game_state.yardline as int));
            }
            *fac_deck = cards.into_deck();
            finish(game_state, record, result)
        },
        Play::Kickoff(k) => {
            if k.kr.is_none() {
                return Err("Kick returners not set".to_owned());
            }
            let mut placeholder = FacManager::new(Vec::new());
            std::mem::swap(fac_deck, &mut placeholder);
            let mut cards = CardStreamer::new(placeholder);
            let result = KickPlayImpl::run_play(game_state, &k, &mut cards);
            proof {
                let cs = fresh(cards.drawn@, Seq::<FacData>::empty());
                assert(crate::kick_play::kick_result_of(k, result, cs));
            }
            *fac_deck = cards.into_deck();
            finish(game_state, record, result)
        },
    }
}

/// Applies a play's result to the state it started from.
fn finish(game_state: &GameState, play: Play, result: PlayResult) -> (r: Result<PlayAndState, String>)
    requires
        game_state.wf(),
        result.time >= 0,
    ensures
        r matches Ok(ps) && ps.result == result && ps.new_state == next_state(
            *game_state,
            result.result_type,
            result.final_line,
            result.time,
        ),
{
    let result = if result.cards.had_z {
        StandardPlay::handle_z(result)
    } else {
        result
    };
    let new_state = calculate_play_result(game_state, &result);
    Ok(PlayAndState { play, result, new_state })
}

} // verus!
