use vstd::prelude::*;

use crate::defs::{
    interception_box, interception_box_of, interception_return, interception_return_of, pass_defender,
    pass_defender_of, pass_defense_value, play_action_value, PassPlayValues, RunPlayDefenseImpact, NO_DEFENDER,
    PASS_COMPLETE_TIME, PASS_INCOMPLETE_TIME, RUN_PLAY_TIME,
};
use crate::fac::{FacData, FacManager, PassTarget, ScreenResult};
use crate::game::GameState;
use crate::lineup::{OffensiveBox, StandardDefensiveLineup, StandardOffensiveLineup};
use crate::play::{extends, fresh, lemma_extends_same, lemma_extends_step, CardStreamer, PlayResult, PlayUtils, ResultType};
use crate::players::{
    num_stat_ok, pass_block_of, pass_defense_of, pass_gain_of, pass_rush_of, position_of, Player, PlayerUtils,
    QBStats,
};
use crate::run_play::{defense_impact, get_rb_stats, get_run_modifier, get_rush_stat, rb_of, run_number, rush_gain};
use crate::standard_play::{
    DefensivePlay, OffensivePlayCategory, OffensivePlayInfo, OffensivePlayType, OffensiveStrategy, PassLength,
    PassMetaData, PassResult, PassRushResult, PlaySetup, StandardDefenseCall, StandardOffenseCall,
};
use crate::stats::{NumStat, RangedStats};

verus! {

/// An outcome's kind, yards and seconds, with `k` more cards used.
pub open spec fn used(o: (ResultType, int, int, int), k: int) -> (ResultType, int, int, int) {
    (o.0, o.1, o.2, o.3 + k)
}

/// An incomplete pass after `k` cards.
pub open spec fn incomplete_outcome(k: int) -> (ResultType, int, int, int) {
    (ResultType::Regular, 0, PASS_INCOMPLETE_TIME as int, k)
}

/// The target column of a card for a pass of length `len`.
pub open spec fn target_column(card: FacData, len: PassLength) -> PassTarget {
    match len {
        PassLength::Quick => card.qk,
        PassLength::Short => card.sh,
        PassLength::Long => card.lg,
    }
}

pub open spec fn qb_of(off: StandardOffensiveLineup) -> QBStats {
    off.qb->QB_0
}

/// The quarterback's completion table for a pass of length `len`.
pub open spec fn range_of(qb: QBStats, len: PassLength) -> RangedStats<PassResult> {
    match len {
        PassLength::Quick => qb.quick,
        PassLength::Short => qb.short,
        PassLength::Long => qb.long,
    }
}

/// The category that number `n` falls into in table `t` once shifted by `shift`.
pub open spec fn category_at<T: crate::stats::Shiftable>(t: RangedStats<T>, n: int, shift: int) -> T {
    t.cats@[t.category_index(n, shift)]
}

/// The label of a receiver's gain column for a pass of length `len`.
pub open spec fn gain_label(len: PassLength) -> Seq<char> {
    match len {
        PassLength::Quick => seq!['Q'],
        PassLength::Short => seq!['S'],
        PassLength::Long => seq!['L'],
    }
}

pub open spec fn pass_def_sum(ps: Seq<Player>) -> int
    decreases ps.len(),
{
    if ps.len() == 0 {
        0
    } else {
        pass_def_sum(ps.drop_last()) + pass_defense_of(ps.last())
    }
}

pub open spec fn rush_sum(ps: Seq<Player>) -> int
    decreases ps.len(),
{
    if ps.len() == 0 {
        0
    } else {
        rush_sum(ps.drop_last()) + pass_rush_of(ps.last())
    }
}

/// The pass defense against a pass to `target`: the coverage of its defender
/// box, or a fixed bonus to the offense when that box is empty.
pub open spec fn pass_defender_impact(def: StandardDefensiveLineup, target: OffensiveBox) -> int {
    match pass_defender_of(target) {
        None => NO_DEFENDER as int,
        Some(b) => if def.in_box(b).len() == 0 {
            NO_DEFENDER as int
        } else {
            pass_def_sum(def.in_box(b))
        },
    }
}

/// The effect of play action: only on short and long passes called with it.
pub open spec fn play_action_effect(call: StandardOffenseCall, d: DefensivePlay) -> int {
    if call.strategy != OffensiveStrategy::PlayAction || (call.play_type != OffensivePlayType::SH
        && call.play_type != OffensivePlayType::LG) {
        0
    } else {
        play_action_value(d)
    }
}

/// How far the completion range of a pass to `target` shifts.
pub open spec fn pass_shift(
    def: StandardDefensiveLineup,
    call: StandardOffenseCall,
    dcall: StandardDefenseCall,
    target: OffensiveBox,
) -> int {
    pass_defense_value(dcall.defense_type, call.play_type) + pass_defender_impact(def, target)
        + play_action_effect(call, dcall.defense_type)
}

/// The pass blocking of the five linemen.
pub open spec fn offensive_block(off: StandardOffensiveLineup) -> int {
    pass_block_of(off.lt) + pass_block_of(off.lg) + pass_block_of(off.c) + pass_block_of(off.rg) + pass_block_of(
        off.rt,
    )
}

/// The pass rush of the first `k` boxes of the first row.
pub open spec fn rows_rush(def: StandardDefensiveLineup, k: int) -> int
    decreases k,
{
    if k <= 0 {
        0
    } else {
        rows_rush(def, k - 1) + rush_sum(def.boxes@[k - 1]@)
    }
}

/// The number of blitzers the defense called.
pub open spec fn blitz_count(dcall: StandardDefenseCall) -> int {
    if dcall.defense_type == DefensivePlay::Blitz {
        dcall.def_players@.len() as int
    } else {
        0
    }
}

/// How far the pass-rush range shifts: twice the rush over the blocking, plus
/// the number of blitzers.
pub open spec fn rush_impact(off: StandardOffensiveLineup, def: StandardDefensiveLineup, dcall: StandardDefenseCall) -> int {
    (rows_rush(def, 5) - offensive_block(off)) * 2 + blitz_count(dcall)
}

/// Where downfield a pass of kind `play` is intercepted on run number `rn`.
pub open spec fn interception_point(play: OffensivePlayType, rn: int) -> int {
    match play {
        OffensivePlayType::QK => rn,
        OffensivePlayType::SH => rn * 2,
        OffensivePlayType::LG => rn * 4,
        OffensivePlayType::SC => rn - 6,
        _ => 0,
    }
}

/// An interception: the box from the table, the point downfield, and the
/// return by the first player of that box; an empty box leaves the pass
/// incomplete.
pub open spec fn interception_outcome(
    def: StandardDefensiveLineup,
    play: OffensivePlayType,
    ds: Seq<FacData>,
) -> (ResultType, int, int, int) {
    let b = interception_box_of(ds[0].run_num.num as int, play);
    let point = interception_point(play, ds[1].run_num.num as int);
    let ps = def.in_box(b);
    if ps.len() == 0 {
        incomplete_outcome(2)
    } else {
        (
            ResultType::TurnOver,
            point - interception_return_of(ds[2].run_num.num as int, position_of(ps[0])),
            PASS_COMPLETE_TIME as int,
            3,
        )
    }
}

/// A completed pass to `target`: the receiver's gain column at a fresh run
/// number, with a short gain of 15 and a long gain of four times another run
/// number, at most 30. A target that cannot catch, or a row without the
/// column, leaves the pass incomplete.
pub open spec fn complete_outcome(
    off: StandardOffensiveLineup,
    target: OffensiveBox,
    len: PassLength,
    ds: Seq<FacData>,
) -> (ResultType, int, int, int) {
    match off.at(target) {
        None => incomplete_outcome(0),
        Some(p) => match pass_gain_of(p) {
            None => incomplete_outcome(0),
            Some(t) => match t.at(ds[0].run_num.num as int).lookup(gain_label(len)) {
                None => incomplete_outcome(1),
                Some(NumStat::Sg) => (ResultType::Regular, 15, PASS_COMPLETE_TIME as int, 1),
                Some(NumStat::Lg) => (
                    ResultType::Regular,
                    if 4 * ds[1].run_num.num < 30 { 4 * ds[1].run_num.num } else { 30 },
                    PASS_COMPLETE_TIME as int,
                    2,
                ),
                Some(NumStat::Val(v)) => (ResultType::Regular, v as int, PASS_COMPLETE_TIME as int, 1),
            },
        },
    }
}

/// A thrown pass to `target`, decided by the quarterback's shifted range table.
pub open spec fn check_outcome(
    off: StandardOffensiveLineup,
    def: StandardDefensiveLineup,
    call: StandardOffenseCall,
    dcall: StandardDefenseCall,
    md: PassMetaData,
    target: OffensiveBox,
    ds: Seq<FacData>,
) -> (ResultType, int, int, int) {
    let res = category_at(
        range_of(qb_of(off), md.completion_range),
        ds[0].pass_num as int,
        pass_shift(def, call, dcall, target),
    );
    match res {
        PassResult::Complete => used(complete_outcome(off, target, md.pass_gain, ds.skip(1)), 1),
        PassResult::Incomplete => incomplete_outcome(1),
        PassResult::Interception => used(interception_outcome(def, call.play_type, ds.skip(1)), 1),
    }
}

/// The quarterback's own run at run number `n`; a short or long gain there is none.
pub open spec fn qb_rush(qb: QBStats, n: int) -> int {
    match qb.rushing.at(n) {
        NumStat::Val(v) => v as int,
        _ => 0,
    }
}

/// The pass rush gets in: sack, scramble, completion or incompletion by the
/// quarterback's shifted pass-rush table.
pub open spec fn rush_outcome(
    off: StandardOffensiveLineup,
    def: StandardDefensiveLineup,
    call: StandardOffenseCall,
    dcall: StandardDefenseCall,
    md: PassMetaData,
    ds: Seq<FacData>,
) -> (ResultType, int, int, int) {
    let res = category_at(qb_of(off).pass_rush, ds[0].pass_num as int, rush_impact(off, def, dcall));
    match res {
        PassRushResult::Sack => (ResultType::Regular, -(ds[1].pass_num / 3), RUN_PLAY_TIME as int, 2),
        PassRushResult::Runs => (
            ResultType::Regular,
            qb_rush(qb_of(off), ds[1].run_num.num as int),
            RUN_PLAY_TIME as int,
            2,
        ),
        PassRushResult::Complete => used(complete_outcome(off, call.target, md.pass_gain, ds.skip(1)), 1),
        PassRushResult::Incomplete => incomplete_outcome(1),
    }
}

/// `a` percent of one yard, rounded up.
pub open spec fn ceil_pct(a: int) -> int {
    if a >= 0 {
        (a + 99) / 100
    } else {
        -((-a) / 100)
    }
}

/// A completed screen: a run by the back, against the defense's keying, scaled
/// by the card's multiplier.
pub open spec fn screen_complete(
    off: StandardOffensiveLineup,
    call: StandardOffenseCall,
    dcall: StandardDefenseCall,
    pct: int,
    ds: Seq<FacData>,
) -> (ResultType, int, int, int) {
    let modifier = defense_impact(RunPlayDefenseImpact::spec_screen(), dcall.defense_type, dcall.key, call.target);
    let n = run_number(ds[0].run_num.num as int, modifier);
    let base = match rush_gain(rb_of(off, call.target), n) {
        NumStat::Val(v) => (v as int, 1int),
        _ => (ds[1].run_num.num + 5, 2int),
    };
    (ResultType::Regular, ceil_pct(pct * base.0), PASS_COMPLETE_TIME as int, base.1)
}

/// A screen pass, decided by the card's screen column.
pub open spec fn screen_outcome(
    off: StandardOffensiveLineup,
    def: StandardDefensiveLineup,
    call: StandardOffenseCall,
    dcall: StandardDefenseCall,
    ds: Seq<FacData>,
) -> (ResultType, int, int, int) {
    let sc = ds[0].sc;
    match sc.result {
        PassResult::Complete => used(screen_complete(off, call, dcall, sc.multiplier_pct as int, ds.skip(1)), 1),
        PassResult::Incomplete => incomplete_outcome(1),
        PassResult::Interception => used(interception_outcome(def, call.play_type, ds.skip(1)), 1),
    }
}

/// A pass play's kind, yards, seconds and number of cards used; `cs` are the
/// cards in the order they were drawn.
pub open spec fn pass_outcome(
    off: StandardOffensiveLineup,
    def: StandardDefensiveLineup,
    call: StandardOffenseCall,
    dcall: StandardDefenseCall,
    md: PassMetaData,
    cs: Seq<FacData>,
) -> (ResultType, int, int, int) {
    if call.play_type == OffensivePlayType::SC {
        screen_outcome(off, def, call, dcall, cs)
    } else if dcall.defense_type == DefensivePlay::Blitz && (call.play_type == OffensivePlayType::SH
        || call.play_type == OffensivePlayType::LG) {
        rush_outcome(off, def, call, dcall, md, cs)
    } else {
        match target_column(cs[0], md.target) {
            PassTarget::PassRush => used(rush_outcome(off, def, call, dcall, md, cs.skip(1)), 1),
            PassTarget::Orig => used(check_outcome(off, def, call, dcall, md, call.target, cs.skip(1)), 1),
            PassTarget::Actual(b) => if off.at(b) is None {
                incomplete_outcome(1)
            } else {
                used(check_outcome(off, def, call, dcall, md, b, cs.skip(1)), 1)
            },
        }
    }
}

/// What a pass resolver needs of its setup: a well-formed setup of a pass play
/// to an occupied position (a back for a screen), and a blitz of at most five.
pub open spec fn pass_setup_ok(play: PlaySetup) -> bool {
    &&& play.wf()
    &&& play.offense_metadata.play_type is Pass
    &&& play.offense.at(play.offense_call.target) is Some
    &&& (play.offense_call.play_type == OffensivePlayType::SC ==> (play.offense_call.target == OffensiveBox::B1
        || play.offense_call.target == OffensiveBox::B2 || play.offense_call.target == OffensiveBox::B3))
    &&& (play.defense_call.defense_type == DefensivePlay::Blitz ==> play.defense_call.def_players@.len() <= 5)
}

/// Whether `r` is the outcome `o`, ending that far from `line`, after `k` cards.
pub open spec fn result_is(r: PlayResult, o: (ResultType, int, int, int), line: int, k: int) -> bool {
    &&& r.result_type == o.0
    &&& r.result == o.1
    &&& r.time == o.2
    &&& k == o.3
    &&& r.final_line == r.result + line
}

/// Sums the pass defense of `ps`.
fn sum_pass_defense(ps: &Vec<Player>) -> (r: i32)
    requires
        ps@.len() <= 11,
        forall|j: int| 0 <= j < ps@.len() ==> (#[trigger] ps@[j]).wf(),
    ensures
        r == pass_def_sum(ps@),
        -1100 <= r <= 1100,
{
    let mut v: i32 = 0;
    let mut i: usize = 0;
    while i < ps.len()
        invariant
            ps@.len() <= 11,
            forall|j: int| 0 <= j < ps@.len() ==> (#[trigger] ps@[j]).wf(),
            0 <= i <= ps@.len(),
            v == pass_def_sum(ps@.take(i as int)),
            -100 * i <= v <= 100 * i,
        decreases ps@.len() - i,
    {
        proof {
            assert(ps@.take(i as int + 1).drop_last() =~= ps@.take(i as int));
            assert(ps@[i as int].wf());
        }
        v = v + PlayerUtils::get_pass_defense(&ps[i]);
        i = i + 1;
    }
    proof {
        assert(ps@.take(i as int) =~= ps@);
    }
    v
}

/// Sums the pass rush of `ps`.
fn sum_pass_rush(ps: &Vec<Player>) -> (r: i32)
    requires
        ps@.len() <= 11,
        forall|j: int| 0 <= j < ps@.len() ==> (#[trigger] ps@[j]).wf(),
    ensures
        r == rush_sum(ps@),
        -1100 <= r <= 1100,
{
    let mut v: i32 = 0;
    let mut i: usize = 0;
    while i < ps.len()
        invariant
            ps@.len() <= 11,
            forall|j: int| 0 <= j < ps@.len() ==> (#[trigger] ps@[j]).wf(),
            0 <= i <= ps@.len(),
            v == rush_sum(ps@.take(i as int)),
            -100 * i <= v <= 100 * i,
        decreases ps@.len() - i,
    {
        proof {
            assert(ps@.take(i as int + 1).drop_last() =~= ps@.take(i as int));
            assert(ps@[i as int].wf());
        }
        v = v + PlayerUtils::get_pass_rush(&ps[i]);
        i = i + 1;
    }
    proof {
        assert(ps@.take(i as int) =~= ps@);
    }
    v
}

pub struct PassUtils {}

impl PassUtils {
    /// Resolves a pass play. The cards drawn are the ones the outcome reads:
    /// the result is `pass_outcome` of them, with the play ending that far from
    /// the starting line.
    pub fn handle_pass_play(state: &GameState, play: PlaySetup, cards: &mut CardStreamer) -> (r: PlayResult)
        requires
            pass_setup_ok(play),
            old(cards).wf(),
            -10000 <= state.yardline <= 10000,
        ensures
            final(cards).wf(),
            final(cards).fac_deck.cards() == old(cards).fac_deck.cards(),
            extends(final(cards).drawn@, old(cards).drawn@),
            result_is(
                r,
                pass_outcome(
                    *play.offense,
                    play.defense,
                    *play.offense_call,
                    *play.defense_call,
                    play.offense_metadata.play_type->Pass_0,
                    fresh(final(cards).drawn@, old(cards).drawn@),
                ),
                state.yardline as int,
                fresh(final(cards).drawn@, old(cards).drawn@).len() as int,
            ),
    {
        let mut taken = CardStreamer::new(FacManager::new(Vec::new()));
        std::mem::swap(cards, &mut taken);
        let data = PassPlayData::new(play.offense_metadata);
        let mut context = PassContext { play, data, utils: PlayUtils::new(*state, taken) };
        let r = context.start_pass();
        *cards = context.utils.into_cards();
        r
    }

    pub fn get_qk_fac_target(card: &FacData) -> (r: &PassTarget)
        ensures
            *r == card.qk,
    {
        &card.qk
    }

    pub fn get_sh_fac_target(card: &FacData) -> (r: &PassTarget)
        ensures
            *r == card.sh,
    {
        &card.sh
    }

    pub fn get_lg_fac_target(card: &FacData) -> (r: &PassTarget)
        ensures
            *r == card.lg,
    {
        &card.lg
    }

    pub fn get_qk_qb_range(qb: &QBStats) -> (r: &RangedStats<PassResult>)
        ensures
            *r == qb.quick,
    {
        &qb.quick
    }

    pub fn get_sh_qb_range(qb: &QBStats) -> (r: &RangedStats<PassResult>)
        ensures
            *r == qb.short,
    {
        &qb.short
    }

    pub fn get_lg_qb_range(qb: &QBStats) -> (r: &RangedStats<PassResult>)
        ensures
            *r == qb.long,
    {
        &qb.long
    }
}

/// The position a pass goes to, and the play's constants.
#[derive(Debug, Clone, Copy)]
pub struct PassPlayData {
    pub target: OffensiveBox,
    pub md: PassMetaData,
}

impl PassPlayData {
    pub fn new(playinfo: &OffensivePlayInfo) -> (r: PassPlayData)
        requires
            playinfo.play_type is Pass,
        ensures
            r.target == OffensiveBox::QB,
            r.md == playinfo.play_type->Pass_0,
    {
        let md = match playinfo.play_type {
            OffensivePlayCategory::Pass(md) => md,
            OffensivePlayCategory::Run(_) => vstd::pervasive::unreached(),
        };
        PassPlayData { target: OffensiveBox::QB, md }
    }
}

struct PassContext<'a> {
    play: PlaySetup<'a>,
    data: PassPlayData,
    utils: PlayUtils,
}

impl<'a> PassContext<'a> {
    spec fn ok(&self) -> bool {
        &&& pass_setup_ok(self.play)
        &&& self.data.md == self.play.offense_metadata.play_type->Pass_0
        &&& self.utils.wf()
        &&& -10000 <= self.utils.state.yardline <= 10000
    }

    /// What a step keeps: the setup, the constants, the deck, the starting
    /// state, and the cards drawn before it.
    spec fn kept(&self, before: Self) -> bool {
        &&& self.play == before.play
        &&& self.data.md == before.data.md
        &&& self.utils.wf()
        &&& self.utils.state == before.utils.state
        &&& self.utils.cards.fac_deck.cards() == before.utils.cards.fac_deck.cards()
        &&& extends(self.utils.cards.drawn@, before.utils.cards.drawn@)
    }

    spec fn since(&self, before: Self) -> Seq<FacData> {
        fresh(self.utils.cards.drawn@, before.utils.cards.drawn@)
    }

    spec fn yardline(&self) -> int {
        self.utils.state.yardline as int
    }

    fn start_pass(&mut self) -> (r: PlayResult)
        requires
            old(self).ok(),
        ensures
            final(self).kept(*old(self)),
            result_is(
                r,
                pass_outcome(*old(self).play.offense, old(self).play.defense, *old(self).play.offense_call, *old(self).play.defense_call, old(self).data.md, final(self).since(*old(self))),
                old(self).yardline(),
                final(self).since(*old(self)).len() as int,
            ),
    {
        let ghost s0 = self.utils.cards.drawn@;
        self.data.target = self.play.offense_call.target;
        if self.play.offense_call.play_type == OffensivePlayType::SC {
            return self.handle_screen();
        }
        if self.play.defense_call.defense_type == DefensivePlay::Blitz && (self.play.offense_call.play_type
            == OffensivePlayType::SH || self.play.offense_call.play_type == OffensivePlayType::LG) {
            self.utils.detail("There is a blitz".to_owned());
            return self.handle_pass_rush();
        }
        let i = self.utils.get_fac();
        let target = match self.data.md.target {
            PassLength::Quick => *PassUtils::get_qk_fac_target(self.utils.cards.card(i)),
            PassLength::Short => *PassUtils::get_sh_fac_target(self.utils.cards.card(i)),
            PassLength::Long => *PassUtils::get_lg_fac_target(self.utils.cards.card(i)),
        };
        let ghost s1 = self.utils.cards.drawn@;
        let r = match target {
            PassTarget::PassRush => {
                self.utils.detail("The pass rush gets in".to_owned());
                self.handle_pass_rush()
            },
            PassTarget::Orig => {
                self.data.target = self.play.offense_call.target;
                self.utils.detail("The pass is thrown towards the called target".to_owned());
                self.handle_check_result()
            },
            PassTarget::Actual(t) => {
                self.data.target = t;
                self.utils.detail("The QB adjusts and throws it elsewhere".to_owned());
                if self.play.offense.get_player_in_pos(&t).is_none() {
                    self.utils.detail("But no one is there".to_owned());
                    let ghost s = self.utils.cards.drawn@;
                    let r = self.incomplete_pass();
                    proof {
                        lemma_extends_same(s);
                    }
                    r
                } else {
                    self.handle_check_result()
                }
            },
        };
        proof {
            lemma_extends_step(s0, s1, self.utils.cards.drawn@);
        }
        r
    }

    fn handle_screen(&mut self) -> (r: PlayResult)
        requires
            old(self).ok(),
            old(self).play.offense_call.play_type == OffensivePlayType::SC,
        ensures
            final(self).kept(*old(self)),
            result_is(
                r,
                screen_outcome(*old(self).play.offense, old(self).play.defense, *old(self).play.offense_call, *old(self).play.defense_call, final(self).since(*old(self))),
                old(self).yardline(),
                final(self).since(*old(self)).len() as int,
            ),
    {
        let ghost s0 = self.utils.cards.drawn@;
        self.utils.detail("Throws a screen".to_owned());
        let i = self.utils.get_fac();
        let sc_res: ScreenResult = self.utils.cards.card(i).sc;
        let ghost s1 = self.utils.cards.drawn@;
        let r = match sc_res.result {
            PassResult::Complete => self.handle_complete_screen(&sc_res),
            PassResult::Incomplete => {
                let r = self.incomplete_pass();
                proof {
                    lemma_extends_same(s1);
                }
                r
            },
            PassResult::Interception => self.qb_interception(),
        };
        proof {
            lemma_extends_step(s0, s1, self.utils.cards.drawn@);
        }
        r
    }

    fn handle_complete_screen(&mut self, result: &ScreenResult) -> (r: PlayResult)
        requires
            old(self).ok(),
            old(self).play.offense_call.play_type == OffensivePlayType::SC,
            0 <= result.multiplier_pct <= 1000,
        ensures
            final(self).kept(*old(self)),
            result_is(
                r,
                screen_complete(*old(self).play.offense, *old(self).play.offense_call, *old(self).play.defense_call, result.multiplier_pct as int, final(self).since(*old(self))),
                old(self).yardline(),
                final(self).since(*old(self)).len() as int,
            ),
    {
        let ghost s0 = self.utils.cards.drawn@;
        self.utils.detail("The screen is complete".to_owned());
        let modifier = get_run_modifier(
            RunPlayDefenseImpact::screen_defense(),
            self.play.defense_call.defense_type,
            self.play.defense_call.key,
            self.play.offense_call.target,
        );
        let rn = self.utils.get_run_num();
        let ghost s1 = self.utils.cards.drawn@;
        let sum = rn + modifier;
        let run_num = if sum > 12 {
            12
        } else if sum < 1 {
            1
        } else {
            sum
        };
        let stat = get_rush_stat(get_rb_stats(&self.play), run_num);
        let base = match stat {
            NumStat::Val(num) => {
                proof {
                    lemma_extends_same(s1);
                }
                num
            },
            _ => {
                let rn2 = self.utils.get_run_num();
                proof {
                    crate::play::lemma_extends_push(s1, self.utils.cards.drawn@);
                }
                rn2 + 5
            },
        };
        let pct = result.multiplier_pct;
        proof {
            assert(-100000 <= pct * base <= 100000) by (nonlinear_arith)
                requires
                    0 <= pct <= 1000,
                    -100 <= base <= 100,
            ;
        }
        let a = pct * base;
        let yardage = if a >= 0 {
            (a + 99) / 100
        } else {
            -((-a) / 100)
        };
        if result.multiplier_pct < 100 {
            self.utils.detail("Defense makes a good play to slow it down".to_owned());
        } else if result.multiplier_pct > 100 {
            self.utils.detail("Back makes a good play for more yardage".to_owned());
        }
        let r = self.finalize_pass(yardage);
        proof {
            lemma_extends_step(s0, s1, self.utils.cards.drawn@);
        }
        r
    }

    fn handle_check_result(&mut self) -> (r: PlayResult)
        requires
            old(self).ok(),
        ensures
            final(self).kept(*old(self)),
            result_is(
                r,
                check_outcome(*old(self).play.offense, old(self).play.defense, *old(self).play.offense_call, *old(self).play.defense_call, old(self).data.md, old(self).data.target, final(self).since(*old(self))),
                old(self).yardline(),
                final(self).since(*old(self)).len() as int,
            ),
    {
        let ghost s0 = self.utils.cards.drawn@;
        let shift = self.calculate_pass_shift();
        let pn = self.utils.get_pass_num();
        let ghost s1 = self.utils.cards.drawn@;
        let res = match self.data.md.completion_range {
            PassLength::Quick => PassUtils::get_qk_qb_range(get_qb_stats(&self.play)).get_category(pn, shift),
            PassLength::Short => PassUtils::get_sh_qb_range(get_qb_stats(&self.play)).get_category(pn, shift),
            PassLength::Long => PassUtils::get_lg_qb_range(get_qb_stats(&self.play)).get_category(pn, shift),
        };
        self.utils.mechanic("Pass result drawn".to_owned());
        let r = match res {
            PassResult::Complete => self.complete_pass(),
            PassResult::Incomplete => {
                let r = self.incomplete_pass();
                proof {
                    lemma_extends_same(s1);
                }
                r
            },
            PassResult::Interception => self.qb_interception(),
        };
        proof {
            lemma_extends_step(s0, s1, self.utils.cards.drawn@);
        }
        r
    }

    fn handle_pass_rush(&mut self) -> (r: PlayResult)
        requires
            old(self).ok(),
            old(self).data.target == old(self).play.offense_call.target,
        ensures
            final(self).kept(*old(self)),
            result_is(
                r,
                rush_outcome(*old(self).play.offense, old(self).play.defense, *old(self).play.offense_call, *old(self).play.defense_call, old(self).data.md, final(self).since(*old(self))),
                old(self).yardline(),
                final(self).since(*old(self)).len() as int,
            ),
    {
        let ghost s0 = self.utils.cards.drawn@;
        let off_block = self.get_offensive_block();
        let def_rush = self.get_defensive_rush();
        let blitzers: i32 = if self.play.defense_call.defense_type == DefensivePlay::Blitz {
            self.play.defense_call.def_players.len() as i32
        } else {
            0
        };
        let sack_range_impact = (def_rush - off_block) * 2 + blitzers;
        let pn = self.utils.get_pass_num();
        let ghost s1 = self.utils.cards.drawn@;
        let res = get_qb_stats(&self.play).pass_rush.get_category(pn, sack_range_impact);
        self.utils.mechanic("Pass rush result drawn".to_owned());
        let r = match res {
            PassRushResult::Sack => self.sack(),
            PassRushResult::Runs => self.qb_run(),
            PassRushResult::Complete => self.complete_pass(),
            PassRushResult::Incomplete => {
                let r = self.incomplete_pass();
                proof {
                    lemma_extends_same(s1);
                }
                r
            },
        };
        proof {
            lemma_extends_step(s0, s1, self.utils.cards.drawn@);
        }
        r
    }

    fn sack(&mut self) -> (r: PlayResult)
        requires
            old(self).ok(),
        ensures
            final(self).kept(*old(self)),
            final(self).since(*old(self)).len() == 1,
            result_is(
                r,
                (ResultType::Regular, -(final(self).since(*old(self))[0].pass_num / 3), RUN_PLAY_TIME as int, 1),
                old(self).yardline(),
                1,
            ),
    {
        let ghost s0 = self.utils.cards.drawn@;
        let yds = self.utils.get_pass_num() / 3;
        proof {
            crate::play::lemma_extends_push(s0, self.utils.cards.drawn@);
        }
        self.utils.detail("The QB is sacked".to_owned());
        self.utils.create_result(-yds, ResultType::Regular, RUN_PLAY_TIME)
    }

    fn qb_run(&mut self) -> (r: PlayResult)
        requires
            old(self).ok(),
        ensures
            final(self).kept(*old(self)),
            final(self).since(*old(self)).len() == 1,
            result_is(
                r,
                (ResultType::Regular, qb_rush(qb_of(*old(self).play.offense), final(self).since(*old(self))[0].run_num.num as int), RUN_PLAY_TIME as int, 1),
                old(self).yardline(),
                1,
            ),
    {
        let ghost s0 = self.utils.cards.drawn@;
        let rn = self.utils.get_run_num();
        proof {
            crate::play::lemma_extends_push(s0, self.utils.cards.drawn@);
        }
        let qb = get_qb_stats(&self.play);
        proof {
            assert(crate::players::num_stat_ok(qb.rushing.stats@[rn - 1]));
        }
        let yds = match qb.rushing.get_stat(rn as usize) {
            NumStat::Val(v) => *v,
            _ => 0,
        };
        self.utils.detail("The QB runs for it".to_owned());
        self.utils.create_result(yds, ResultType::Regular, RUN_PLAY_TIME)
    }

    fn complete_pass(&mut self) -> (r: PlayResult)
        requires
            old(self).ok(),
        ensures
            final(self).kept(*old(self)),
            result_is(
                r,
                complete_outcome(*old(self).play.offense, old(self).data.target, old(self).data.md.pass_gain, final(self).since(*old(self))),
                old(self).yardline(),
                final(self).since(*old(self)).len() as int,
            ),
    {
        let ghost s0 = self.utils.cards.drawn@;
        self.utils.detail("Pass Complete".to_owned());
        let has_table = PlayerUtils::get_pass_gain(self.play.offense.get_player_in_pos(&self.data.target)).is_some();
        if !has_table {
            let r = self.incomplete_pass();
            proof {
                lemma_extends_same(s0);
            }
            return r;
        }
        let gain = self.get_pass_gain();
        let ghost s1 = self.utils.cards.drawn@;
        let r = match gain {
            None => {
                let r = self.incomplete_pass();
                proof {
                    lemma_extends_same(s1);
                }
                r
            },
            Some(NumStat::Sg) => {
                let r = self.short_gain();
                proof {
                    lemma_extends_same(s1);
                }
                r
            },
            Some(NumStat::Lg) => self.long_gain(),
            Some(NumStat::Val(v)) => {
                let r = self.finalize_pass(v);
                proof {
                    lemma_extends_same(s1);
                }
                r
            },
        };
        proof {
            lemma_extends_step(s0, s1, self.utils.cards.drawn@);
        }
        r
    }

    fn incomplete_pass(&mut self) -> (r: PlayResult)
        requires
            old(self).ok(),
        ensures
            final(self).kept(*old(self)),
            final(self).utils.cards == old(self).utils.cards,
            result_is(r, incomplete_outcome(0), old(self).yardline(), 0),
    {
        proof {
            lemma_extends_same(self.utils.cards.drawn@);
        }
        self.utils.detail("The pass falls incomplete".to_owned());
        self.utils.create_result(0, ResultType::Regular, PASS_INCOMPLETE_TIME)
    }

    fn short_gain(&mut self) -> (r: PlayResult)
        requires
            old(self).ok(),
        ensures
            final(self).kept(*old(self)),
            final(self).utils.cards == old(self).utils.cards,
            result_is(r, (ResultType::Regular, 15, PASS_COMPLETE_TIME as int, 0), old(self).yardline(), 0),
    {
        self.finalize_pass(15)
    }

    fn long_gain(&mut self) -> (r: PlayResult)
        requires
            old(self).ok(),
        ensures
            final(self).kept(*old(self)),
            final(self).since(*old(self)).len() == 1,
            result_is(
                r,
                (
                    ResultType::Regular,
                    if 4 * final(self).since(*old(self))[0].run_num.num < 30 {
                        4 * final(self).since(*old(self))[0].run_num.num
                    } else {
                        30
                    },
                    PASS_COMPLETE_TIME as int,
                    1,
                ),
                old(self).yardline(),
                1,
            ),
    {
        let ghost s0 = self.utils.cards.drawn@;
        self.utils.detail("It's a long gain".to_owned());
        let rn = self.utils.get_run_num();
        proof {
            crate::play::lemma_extends_push(s0, self.utils.cards.drawn@);
        }
        let yards = if 4 * rn < 30 {
            4 * rn
        } else {
            30
        };
        self.finalize_pass(yards)
    }

    fn finalize_pass(&mut self, yards: i32) -> (r: PlayResult)
        requires
            old(self).ok(),
            -10000 <= yards <= 10000,
        ensures
            final(self).kept(*old(self)),
            final(self).utils.cards == old(self).utils.cards,
            result_is(r, (ResultType::Regular, yards as int, PASS_COMPLETE_TIME as int, 0), old(self).yardline(), 0),
    {
        proof {
            lemma_extends_same(self.utils.cards.drawn@);
        }
        self.utils.detail(crate::play::labeled("Pass complete for yards: ", yards));
        self.utils.create_result(yards, ResultType::Regular, PASS_COMPLETE_TIME)
    }

    fn qb_interception(&mut self) -> (r: PlayResult)
        requires
            old(self).ok(),
        ensures
            final(self).kept(*old(self)),
            result_is(
                r,
                interception_outcome(old(self).play.defense, old(self).play.offense_call.play_type, final(self).since(*old(self))),
                old(self).yardline(),
                final(self).since(*old(self)).len() as int,
            ),
    {
        let ghost s0 = self.utils.cards.drawn@;
        let rn = self.utils.get_run_num();
        let ghost s1 = self.utils.cards.drawn@;
        let def_box = interception_box(rn, self.play.offense_call.play_type);
        let int_point = self.get_interception_point();
        let ghost s2 = self.utils.cards.drawn@;
        self.utils.detail("The QB throws it towards the defense".to_owned());
        let (empty, pos) = {
            let players = self.play.defense.get_players_in_pos(&def_box);
            if players.len() == 0 {
                (true, crate::players::Position::QB)
            } else {
                (false, players[0].get_pos())
            }
        };
        if empty {
            self.utils.detail("But there is no one there".to_owned());
            let r = self.incomplete_pass();
            proof {
                lemma_extends_same(s2);
                lemma_extends_step(s1, s2, self.utils.cards.drawn@);
                lemma_extends_step(s0, s1, self.utils.cards.drawn@);
            }
            return r;
        }
        let ret_yards = self.get_return_yardage(pos);
        let ghost s3 = self.utils.cards.drawn@;
        let r = self.utils.create_result(int_point - ret_yards, ResultType::TurnOver, PASS_COMPLETE_TIME);
        proof {
            crate::play::lemma_extends_push(s2, s3);
            lemma_extends_step(s1, s2, s3);
            lemma_extends_step(s0, s1, s3);
        }
        r
    }

    fn calculate_pass_shift(&mut self) -> (r: i32)
        requires
            old(self).ok(),
        ensures
            final(self).kept(*old(self)),
            final(self).data == old(self).data,
            final(self).utils.cards == old(self).utils.cards,
            r == pass_shift(old(self).play.defense, *old(self).play.offense_call, *old(self).play.defense_call, old(self).data.target),
            -1200 <= r <= 1200,
    {
        let def_impact = self.get_def_impact();
        let player_impact = self.get_pass_defender_impact();
        let playaction = self.get_play_action_effect();
        let shift = def_impact + player_impact + playaction;
        self.utils.mechanic(crate::play::labeled("Pass Shift: ", shift));
        shift
    }

    fn get_interception_point(&mut self) -> (r: i32)
        requires
            old(self).ok(),
        ensures
            final(self).kept(*old(self)),
            final(self).data == old(self).data,
            final(self).utils.cards.drawn@.len() == old(self).utils.cards.drawn@.len() + 1,
            final(self).utils.cards.drawn@.drop_last() == old(self).utils.cards.drawn@,
            r == interception_point(old(self).play.offense_call.play_type, final(self).utils.cards.drawn@.last().run_num.num as int),
            -10 <= r <= 48,
    {
        let rn = self.utils.get_run_num();
        proof {
            crate::play::lemma_extends_push(old(self).utils.cards.drawn@, self.utils.cards.drawn@);
        }
        match self.play.offense_call.play_type {
            OffensivePlayType::QK => rn,
            OffensivePlayType::SH => rn * 2,
            OffensivePlayType::LG => rn * 4,
            OffensivePlayType::SC => rn - 6,
            _ => 0,
        }
    }

    fn get_return_yardage(&mut self, pos: crate::players::Position) -> (r: i32)
        requires
            old(self).ok(),
        ensures
            final(self).kept(*old(self)),
            final(self).data == old(self).data,
            final(self).utils.cards.drawn@.len() == old(self).utils.cards.drawn@.len() + 1,
            final(self).utils.cards.drawn@.drop_last() == old(self).utils.cards.drawn@,
            r == interception_return_of(final(self).utils.cards.drawn@.last().run_num.num as int, pos),
            0 <= r <= 100,
    {
        let rn = self.utils.get_run_num();
        proof {
            crate::play::lemma_extends_push(old(self).utils.cards.drawn@, self.utils.cards.drawn@);
        }
        let ret_yards = interception_return(rn, pos);
        self.utils.detail(crate::play::labeled("It's returned for yards: ", ret_yards));
        ret_yards
    }

    fn get_pass_gain(&mut self) -> (r: Option<NumStat>)
        requires
            old(self).ok(),
            old(self).play.offense.at(old(self).data.target) matches Some(p) && pass_gain_of(p) is Some,
        ensures
            final(self).kept(*old(self)),
            final(self).data == old(self).data,
            final(self).utils.cards.drawn@.len() == old(self).utils.cards.drawn@.len() + 1,
            final(self).utils.cards.drawn@.drop_last() == old(self).utils.cards.drawn@,
            r == pass_gain_of(old(self).play.offense.at(old(self).data.target)->Some_0)->Some_0.at(
                final(self).utils.cards.drawn@.last().run_num.num as int,
            ).lookup(gain_label(old(self).data.md.pass_gain)),
            r matches Some(v) ==> num_stat_ok(v),
    {
        let run_num = self.utils.get_run_num();
        proof {
            crate::play::lemma_extends_push(old(self).utils.cards.drawn@, self.utils.cards.drawn@);
            crate::lineup::lemma_offense_player_wf(*self.play.offense, self.data.target);
        }
        let key = match self.data.md.pass_gain {
            PassLength::Quick => "Q".to_owned(),
            PassLength::Short => "S".to_owned(),
            PassLength::Long => "L".to_owned(),
        };
        proof {
            reveal_strlit("Q");
            reveal_strlit("S");
            reveal_strlit("L");
            assert(key@ =~= gain_label(self.data.md.pass_gain));
        }
        let gain = match PlayerUtils::get_pass_gain(self.play.offense.get_player_in_pos(&self.data.target)) {
            Some(t) => {
                proof {
                    assert(t.stats@[run_num - 1].wf());
                }
                match t.get_stat(run_num as usize).get_val(key) {
                    Some(n) => Some(*n),
                    None => None,
                }
            },
            None => vstd::pervasive::unreached(),
        };
        self.utils.mechanic("Assigned gain".to_owned());
        gain
    }

    fn get_def_impact(&mut self) -> (r: i32)
        requires
            old(self).ok(),
        ensures
            final(self).kept(*old(self)),
            final(self).data == old(self).data,
            final(self).utils.cards == old(self).utils.cards,
            r == pass_defense_value(old(self).play.defense_call.defense_type, old(self).play.offense_call.play_type),
            -10 <= r <= 7,
    {
        let v = PassPlayValues::standard();
        let m = match self.play.defense_call.defense_type {
            DefensivePlay::RunDefense => match self.play.offense_call.play_type {
                OffensivePlayType::QK => v.qk_run_defense,
                OffensivePlayType::SH => v.sh_run_defense,
                OffensivePlayType::LG => v.lg_run_defense,
                _ => 0,
            },
            DefensivePlay::PassDefense => match self.play.offense_call.play_type {
                OffensivePlayType::QK => v.qk_pass_defense,
                OffensivePlayType::SH => v.sh_pass_defense,
                OffensivePlayType::LG => v.lg_pass_defense,
                _ => 0,
            },
            DefensivePlay::PreventDefense => match self.play.offense_call.play_type {
                OffensivePlayType::QK => v.qk_prevent_defense,
                OffensivePlayType::SH => v.sh_prevent_defense,
                OffensivePlayType::LG => v.lg_prevent_defense,
                _ => 0,
            },
            DefensivePlay::Blitz => v.blitz,
        };
        proof {
            lemma_extends_same(self.utils.cards.drawn@);
        }
        self.utils.mechanic(crate::play::labeled("Defensive Impact: ", m));
        m
    }

    fn get_pass_defender_impact(&mut self) -> (r: i32)
        requires
            old(self).ok(),
        ensures
            final(self).kept(*old(self)),
            final(self).data == old(self).data,
            final(self).utils.cards == old(self).utils.cards,
            r == pass_defender_impact(old(self).play.defense, old(self).data.target),
            -1100 <= r <= 1100,
    {
        proof {
            lemma_extends_same(self.utils.cards.drawn@);
        }
        let imp = match pass_defender(self.data.target) {
            None => NO_DEFENDER,
            Some(b) => {
                let players = self.play.defense.get_players_in_pos(&b);
                if players.len() == 0 {
                    NO_DEFENDER
                } else {
                    proof {
                        assert forall|j: int| 0 <= j < players@.len() implies (#[trigger] players@[j]).wf() by {
                            crate::lineup::lemma_box_player_wf(self.play.defense, b, j);
                        }
                        assert(self.play.defense.boxes@[crate::lineup::box_index(b)]@.len() <= 11);
                    }
                    sum_pass_defense(players)
                }
            },
        };
        self.utils.mechanic(crate::play::labeled("Player impact: ", imp));
        imp
    }

    fn get_play_action_effect(&mut self) -> (r: i32)
        requires
            old(self).ok(),
        ensures
            final(self).kept(*old(self)),
            final(self).data == old(self).data,
            final(self).utils.cards == old(self).utils.cards,
            r == play_action_effect(*old(self).play.offense_call, old(self).play.defense_call.defense_type),
            -10 <= r <= 5,
    {
        proof {
            lemma_extends_same(self.utils.cards.drawn@);
        }
        let call = self.play.offense_call;
        if call.strategy != OffensiveStrategy::PlayAction || (call.play_type != OffensivePlayType::SH && call.play_type
            != OffensivePlayType::LG) {
            return 0;
        }
        let v = PassPlayValues::standard();
        let pa_effect = match self.play.defense_call.defense_type {
            DefensivePlay::RunDefense => v.pa_run_defense,
            DefensivePlay::PassDefense => v.pa_pass_defense,
            DefensivePlay::PreventDefense => v.pa_prevent_defense,
            DefensivePlay::Blitz => 0,
        };
        if pa_effect > 0 {
            self.utils.detail("Play action freezes the defense".to_owned());
        } else {
            self.utils.detail("Play action hurts the offense".to_owned());
        }
        pa_effect
    }

    fn get_offensive_block(&mut self) -> (r: i32)
        requires
            old(self).ok(),
        ensures
            final(self).kept(*old(self)),
            final(self).data == old(self).data,
            final(self).utils.cards == old(self).utils.cards,
            r == offensive_block(*old(self).play.offense),
            -500 <= r <= 500,
    {
        proof {
            lemma_extends_same(self.utils.cards.drawn@);
        }
        let off = self.play.offense;
        let val = PlayerUtils::get_pass_block(&off.lt) + PlayerUtils::get_pass_block(&off.lg)
            + PlayerUtils::get_pass_block(&off.c) + PlayerUtils::get_pass_block(&off.rg)
            + PlayerUtils::get_pass_block(&off.rt);
        self.utils.mechanic(crate::play::labeled("Blocking value of ", val));
        val
    }

    fn get_defensive_rush(&mut self) -> (r: i32)
        requires
            old(self).ok(),
        ensures
            final(self).kept(*old(self)),
            final(self).data == old(self).data,
            final(self).utils.cards == old(self).utils.cards,
            r == rows_rush(old(self).play.defense, 5),
            -5500 <= r <= 5500,
    {
        proof {
            lemma_extends_same(self.utils.cards.drawn@);
        }
        let mut val: i32 = 0;
        let mut i: usize = 0;
        while i < 5
            invariant
                self.ok(),
                self.play == old(self).play,
                0 <= i <= 5,
                val == rows_rush(self.play.defense, i as int),
                -1100 * i <= val <= 1100 * i,
            decreases 5 - i,
        {
            let players = &self.play.defense.boxes[i];
            proof {
                assert(players@.len() <= 11);
                assert forall|j: int| 0 <= j < players@.len() implies (#[trigger] players@[j]).wf() by {
                    assert(self.play.defense.boxes@[i as int]@[j].wf());
                }
            }
            val = val + sum_pass_rush(players);
            i = i + 1;
        }
        self.utils.mechanic(crate::play::labeled("Total rushing value of ", val));
        val
    }

    /// Whether `player` is one of the blitzers of a blitz.
    fn is_non_blitzer(&self, player: &String) -> (r: bool)
        ensures
            r == (self.play.defense_call.defense_type == DefensivePlay::Blitz && crate::lineup::listed(
                self.play.defense_call.def_players@,
                *player,
            )),
    {
        self.play.defense_call.defense_type == DefensivePlay::Blitz && crate::lineup::is_listed(
            &self.play.defense_call.def_players,
            player,
        )
    }
}

/// The quarterback of the lineup.
pub fn get_qb_stats<'b>(play: &'b PlaySetup) -> (r: &'b QBStats)
    requires
        play.wf(),
    ensures
        *r == qb_of(*play.offense),
        r.quick.wf(),
        r.short.wf(),
        r.long.wf(),
        r.pass_rush.wf(),
        crate::players::num_table_ok(r.rushing),
{
    match &play.offense.qb {
        Player::QB(qb) => qb,
        _ => vstd::pervasive::unreached(),
    }
}

/// A long pass that the card leaves with the called target and whose shifted
/// range gives an interception, caught by a player of the box that the table
/// names, turns the ball over: the interception point (four times the run
/// number) less the return by that player's position.
pub proof fn lemma_long_interception(
    off: StandardOffensiveLineup,
    def: StandardDefensiveLineup,
    call: StandardOffenseCall,
    dcall: StandardDefenseCall,
    cs: Seq<FacData>,
)
    requires
        call.play_type == OffensivePlayType::LG,
        dcall.defense_type == DefensivePlay::PassDefense,
        cs.len() == 5,
        cs[0].lg == PassTarget::Orig,
        category_at(
            range_of(qb_of(off), PassLength::Long),
            cs[1].pass_num as int,
            pass_shift(def, call, dcall, call.target),
        ) == PassResult::Interception,
        def.in_box(interception_box_of(cs[2].run_num.num as int, OffensivePlayType::LG)).len() > 0,
    ensures
        pass_outcome(off, def, call, dcall, crate::standard_play::category_of(call.play_type)->Pass_0, cs) == (
            ResultType::TurnOver,
            4 * cs[3].run_num.num - interception_return_of(
                cs[4].run_num.num as int,
                position_of(def.in_box(interception_box_of(cs[2].run_num.num as int, OffensivePlayType::LG))[0]),
            ),
            PASS_COMPLETE_TIME as int,
            5int,
        ),
{
    assert(cs.skip(1)[0] == cs[1]);
    assert(cs.skip(1).skip(1) =~= cs.skip(2));
    assert(cs.skip(2)[0] == cs[2] && cs.skip(2)[1] == cs[3] && cs.skip(2)[2] == cs[4]);
}

} // verus!
