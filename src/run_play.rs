use vstd::prelude::*;

use crate::defs::{DrawPlayImpact, RunPlayDefenseImpact, RUN_PLAY_OB_TIME, RUN_PLAY_TIME};
use crate::fac::{FacData, FacManager, RunDirection, RunDirectionActual};
use crate::game::GameState;
use crate::lineup::{DefensiveBox, OffensiveBox, StandardDefensiveLineup, StandardOffensiveLineup};
use crate::play::{CardStreamer, PlayResult, PlayUtils, ResultType};
use crate::players::{blocks_of, tackles_of, Player, PlayerUtils, RBStats};
use crate::standard_play::{
    DefensivePlay, OffensivePlayCategory, OffensivePlayInfo, OffensivePlayType, OffensiveStrategy, PlaySetup,
    RunColumn, RunMetaData, StandardDefenseCall, StandardOffenseCall,
};
use crate::stats::NumStat;

verus! {

/// The yards of a breakaway by a back of long-run letter `c`: 100 for 'A',
/// five fewer for each later letter.
pub open spec fn breakaway_yards(c: char) -> int {
    100 - 5 * (c as int - 'A' as int)
}

/// Whether two run results name the same positions.
pub open spec fn same_direction(x: RunDirection, y: RunDirection) -> bool {
    match (x, y) {
        (RunDirection::Break, RunDirection::Break) => true,
        (RunDirection::Actual(a), RunDirection::Actual(b)) => a.offensive_boxes@ == b.offensive_boxes@
            && a.defensive_boxes@ == b.defensive_boxes@,
        _ => false,
    }
}

/// The run column of a card that a run play reads.
pub open spec fn column_of(card: FacData, col: RunColumn) -> RunDirection {
    match col {
        RunColumn::SL => card.sl,
        RunColumn::SR => card.sr,
        RunColumn::IL => card.il,
        RunColumn::IR => card.ir,
    }
}

/// The blocking of the player at `b`; an empty position blocks for nothing.
pub open spec fn block_value(off: StandardOffensiveLineup, b: OffensiveBox) -> int {
    match off.at(b) {
        Some(p) => blocks_of(p) as int,
        None => 0,
    }
}

/// The tackling in box `d`: none when it is empty, the player's tackling when
/// one stands there, and a fixed value for two or more.
pub open spec fn tackle_value(def: StandardDefensiveLineup, d: DefensiveBox) -> Option<int> {
    let ps = def.in_box(d);
    if ps.len() == 0 {
        None
    } else if ps.len() == 1 {
        Some(tackles_of(ps[0]) as int)
    } else {
        Some(-4)
    }
}

pub open spec fn blocks_sum(off: StandardOffensiveLineup, s: Seq<OffensiveBox>) -> int
    decreases s.len(),
{
    if s.len() == 0 {
        0
    } else {
        blocks_sum(off, s.drop_last()) + block_value(off, s.last())
    }
}

pub open spec fn tackles_sum(def: StandardDefensiveLineup, s: Seq<DefensiveBox>) -> int
    decreases s.len(),
{
    if s.len() == 0 {
        0
    } else {
        tackles_sum(def, s.drop_last()) + match tackle_value(def, s.last()) {
            Some(t) => t,
            None => 0,
        }
    }
}

pub open spec fn any_tackler(def: StandardDefensiveLineup, s: Seq<DefensiveBox>) -> bool {
    exists|i: int| 0 <= i < s.len() && (#[trigger] tackle_value(def, s[i])) is Some
}

/// The yards that blocking and tackling add: one blocker against one box adds
/// the winning side's margin, the sum of the blocking and the (negative)
/// tackling, so a stronger block gains yards, a stronger tackle loses them and
/// a tie changes nothing; blockers alone add their blocking; tacklers
/// alone take away their tackling, or give two yards when their boxes are empty.
pub open spec fn block_tackle_modifier(
    off: StandardOffensiveLineup,
    def: StandardDefensiveLineup,
    a: RunDirectionActual,
) -> int {
    let offb = a.offensive_boxes@;
    let defb = a.defensive_boxes@;
    if offb.len() > 0 && defb.len() > 0 {
        let b = block_value(off, offb[0]);
        match tackle_value(def, defb[0]) {
            None => b,
            Some(t) => b + t,
        }
    } else if offb.len() > 0 {
        blocks_sum(off, offb)
    } else if !any_tackler(def, defb) {
        2
    } else {
        tackles_sum(def, defb)
    }
}

pub open spec fn box_tackles(ps: Seq<Player>) -> int
    decreases ps.len(),
{
    if ps.len() == 0 {
        0
    } else {
        box_tackles(ps.drop_last()) + tackles_of(ps.last())
    }
}

/// The tackling of every player in the boxes `s`.
pub open spec fn tackles_total(def: StandardDefensiveLineup, s: Seq<DefensiveBox>) -> int
    decreases s.len(),
{
    if s.len() == 0 {
        0
    } else {
        tackles_total(def, s.drop_last()) + box_tackles(def.in_box(s.last()))
    }
}

/// Blocking against tackling summed over all the engaged positions: the larger
/// side's total decides, the blockers adding theirs and the tacklers taking
/// theirs away.
pub open spec fn summed_modifier(off: StandardOffensiveLineup, def: StandardDefensiveLineup, a: RunDirectionActual) -> int {
    let tackles = tackles_total(def, a.defensive_boxes@);
    let blocks = blocks_sum(off, a.offensive_boxes@);
    if tackles < blocks {
        blocks
    } else if tackles == blocks {
        0
    } else {
        -tackles
    }
}

/// The run-number change of a draw play (an inside run called as a draw).
pub open spec fn draw_impact(call: StandardOffenseCall, d: DefensivePlay) -> int {
    if call.strategy == OffensiveStrategy::Draw && (call.play_type == OffensivePlayType::IL || call.play_type
        == OffensivePlayType::IR) {
        let t = DrawPlayImpact::spec_standard();
        match d {
            DefensivePlay::RunDefense => t.run_defense as int,
            DefensivePlay::PassDefense => t.pass_defense as int,
            DefensivePlay::PreventDefense => t.prevent_defense as int,
            DefensivePlay::Blitz => t.blitz as int,
        }
    } else {
        0
    }
}

/// The run-number change that the defense's call brings, keyed on `target`.
pub open spec fn defense_impact(
    t: RunPlayDefenseImpact,
    d: DefensivePlay,
    key: Option<OffensiveBox>,
    target: OffensiveBox,
) -> int {
    match d {
        DefensivePlay::RunDefense => match key {
            None => t.run_defense_nokey as int,
            Some(k) => if k == target {
                t.run_defense_keyed as int
            } else {
                t.run_defense_wrongkey as int
            },
        },
        DefensivePlay::PassDefense => t.pass_defense as int,
        DefensivePlay::PreventDefense => t.prevent_defense as int,
        DefensivePlay::Blitz => t.blitz as int,
    }
}

/// A run number moved by `modifier`, kept within 1 to 12.
pub open spec fn run_number(rn: int, modifier: int) -> int {
    let n = rn + modifier;
    if n > 12 {
        12
    } else if n < 1 {
        1
    } else {
        n
    }
}

/// The run-gain entry "N" of the back's rushing table at `n`, zero yards when
/// the row has none.
pub open spec fn rush_gain(rb: RBStats, n: int) -> NumStat {
    match rb.rushing.at(n).lookup(seq!['N']) {
        Some(v) => v,
        None => NumStat::Val(0),
    }
}

pub open spec fn rb_of(off: StandardOffensiveLineup, target: OffensiveBox) -> RBStats {
    off.at(target)->Some_0->RB_0
}

/// The gain of a run that meets blockers and tacklers, its out-of-bounds mark,
/// and the number of cards it used; `ds` are the cards drawn after the one that
/// gave the run column.
pub open spec fn actual_gain(
    off: StandardOffensiveLineup,
    def: StandardDefensiveLineup,
    call: StandardOffenseCall,
    dcall: StandardDefenseCall,
    a: RunDirectionActual,
    ds: Seq<FacData>,
) -> (int, bool, int) {
    let rb = rb_of(off, call.target);
    let modifier = draw_impact(call, dcall.defense_type) + defense_impact(
        RunPlayDefenseImpact::spec_run(),
        dcall.defense_type,
        dcall.key,
        call.target,
    );
    let n = run_number(ds[0].run_num.num as int, modifier);
    let base = match rush_gain(rb, n) {
        NumStat::Val(v) => (v as int, ds[0].run_num.ob, 1int),
        _ => (ds[1].run_num.num + 5, ds[1].run_num.ob, 2int),
    };
    (base.0 + block_tackle_modifier(off, def, a), base.1, base.2)
}

/// The gain of a run, its out-of-bounds mark, and the number of cards it used,
/// before the play's limits apply; `cs` are the cards in the order they were drawn.
pub open spec fn run_gain(
    off: StandardOffensiveLineup,
    def: StandardDefensiveLineup,
    call: StandardOffenseCall,
    dcall: StandardDefenseCall,
    md: RunMetaData,
    cs: Seq<FacData>,
) -> (int, bool, int) {
    let rb = rb_of(off, call.target);
    match column_of(cs[0], md.card_val) {
        RunDirection::Break => (breakaway_yards(rb.lg), false, 1),
        RunDirection::Actual(a) => {
            let g = actual_gain(off, def, call, dcall, a, cs.skip(1));
            (g.0, g.1, g.2 + 1)
        },
    }
}

/// The yards and the seconds of a run once its limits apply: no loss beyond
/// the play's largest, and less time when it ends out of bounds on a play that may.
pub open spec fn finalized(yards: int, ob: bool, md: RunMetaData) -> (int, int) {
    (
        if yards < md.max_loss { md.max_loss as int } else { yards },
        if ob && md.can_go_ob { RUN_PLAY_OB_TIME as int } else { RUN_PLAY_TIME as int },
    )
}

/// The run play's yards, seconds, and number of cards used.
pub open spec fn run_outcome(
    off: StandardOffensiveLineup,
    def: StandardDefensiveLineup,
    call: StandardOffenseCall,
    dcall: StandardDefenseCall,
    md: RunMetaData,
    cs: Seq<FacData>,
) -> (int, int, int) {
    let g = run_gain(off, def, call, dcall, md, cs);
    let f = finalized(g.0, g.1, md);
    (f.0, f.1, g.2)
}

/// What a run resolver needs of its setup: a well-formed setup of a run play,
/// whose target is an occupied back position.
pub open spec fn run_setup_ok(play: PlaySetup) -> bool {
    &&& back_ok(play)
    &&& play.offense_metadata.play_type is Run
}

/// A well-formed setup whose call goes to an occupied back position.
pub open spec fn back_ok(play: PlaySetup) -> bool {
    &&& play.wf()
    &&& (play.offense_call.target == OffensiveBox::B1 || play.offense_call.target == OffensiveBox::B2
        || play.offense_call.target == OffensiveBox::B3)
    &&& play.offense.at(play.offense_call.target) is Some
}

pub struct RunUtils {}

impl RunUtils {
    /// Resolves a run play. The cards drawn are the ones the outcome reads:
    /// the result is `run_outcome` of them, with the play ending that far from
    /// the starting line.
    pub fn handle_run_play(state: &GameState, play: PlaySetup, cards: &mut CardStreamer) -> (r: PlayResult)
        requires
            run_setup_ok(play),
            old(cards).wf(),
            -10000 <= state.yardline <= 10000,
        ensures
            final(cards).wf(),
            final(cards).fac_deck.cards() == old(cards).fac_deck.cards(),
            final(cards).drawn@.len() > old(cards).drawn@.len(),
            final(cards).drawn@.subrange(0, old(cards).drawn@.len() as int) == old(cards).drawn@,
            ({
                let cs = final(cards).drawn@.skip(old(cards).drawn@.len() as int);
                let o = run_outcome(
                    *play.offense,
                    play.defense,
                    *play.offense_call,
                    *play.defense_call,
                    play.offense_metadata.play_type->Run_0,
                    cs,
                );
                &&& r.result_type == ResultType::Regular
                &&& r.result == o.0
                &&& r.time == o.1
                &&& cs.len() == o.2
                &&& r.final_line == r.result + state.yardline
            }),
    {
        let mut taken = CardStreamer::new(FacManager::new(Vec::new()));
        std::mem::swap(cards, &mut taken);
        let data = RunPlayData::new(play.offense_metadata);
        let mut context = RunContext { play, data, utils: PlayUtils::new(*state, taken) };
        let r = context.start_run();
        *cards = context.utils.into_cards();
        r
    }

    pub fn get_sl_fac_result(card: &FacData) -> (r: &RunDirection)
        ensures
            *r == card.sl,
    {
        &card.sl
    }

    pub fn get_sr_fac_result(card: &FacData) -> (r: &RunDirection)
        ensures
            *r == card.sr,
    {
        &card.sr
    }

    pub fn get_il_fac_result(card: &FacData) -> (r: &RunDirection)
        ensures
            *r == card.il,
    {
        &card.il
    }

    pub fn get_ir_fac_result(card: &FacData) -> (r: &RunDirection)
        ensures
            *r == card.ir,
    {
        &card.ir
    }
}

/// The run column `col` of `card`.
fn card_column(card: &FacData, col: RunColumn) -> (r: &RunDirection)
    ensures
        *r == column_of(*card, col),
{
    match col {
        RunColumn::SL => RunUtils::get_sl_fac_result(card),
        RunColumn::SR => RunUtils::get_sr_fac_result(card),
        RunColumn::IL => RunUtils::get_il_fac_result(card),
        RunColumn::IR => RunUtils::get_ir_fac_result(card),
    }
}

/// The yards gained so far, the out-of-bounds mark, and the play's constants.
pub struct RunPlayData {
    pub yardage: i32,
    pub ob: bool,
    pub md: RunMetaData,
}

impl RunPlayData {
    pub fn new(playinfo: &OffensivePlayInfo) -> (r: RunPlayData)
        requires
            playinfo.play_type is Run,
        ensures
            r.yardage == 0,
            !r.ob,
            r.md == playinfo.play_type->Run_0,
    {
        let md = match playinfo.play_type {
            OffensivePlayCategory::Run(md) => md,
            OffensivePlayCategory::Pass(_) => vstd::pervasive::unreached(),
        };
        RunPlayData { yardage: 0, ob: false, md }
    }
}

fn copy_offensive_boxes(v: &Vec<OffensiveBox>) -> (r: Vec<OffensiveBox>)
    ensures
        r@ == v@,
{
    let mut r: Vec<OffensiveBox> = Vec::new();
    let mut i: usize = 0;
    while i < v.len()
        invariant
            0 <= i <= v@.len(),
            r@ == v@.take(i as int),
        decreases v@.len() - i,
    {
        r.push(v[i]);
        i = i + 1;
        proof {
            assert(r@ =~= v@.take(i as int));
        }
    }
    proof {
        assert(v@.take(i as int) =~= v@);
    }
    r
}

fn copy_defensive_boxes(v: &Vec<DefensiveBox>) -> (r: Vec<DefensiveBox>)
    ensures
        r@ == v@,
{
    let mut r: Vec<DefensiveBox> = Vec::new();
    let mut i: usize = 0;
    while i < v.len()
        invariant
            0 <= i <= v@.len(),
            r@ == v@.take(i as int),
        decreases v@.len() - i,
    {
        r.push(v[i]);
        i = i + 1;
        proof {
            assert(r@ =~= v@.take(i as int));
        }
    }
    proof {
        assert(v@.take(i as int) =~= v@);
    }
    r
}

struct RunContext<'a> {
    play: PlaySetup<'a>,
    data: RunPlayData,
    utils: PlayUtils,
}

impl<'a> RunContext<'a> {
    spec fn ok(&self) -> bool {
        &&& run_setup_ok(self.play)
        &&& self.data.md == self.play.offense_metadata.play_type->Run_0
        &&& self.utils.wf()
        &&& -10000 <= self.utils.state.yardline <= 10000
    }

    spec fn outcome(&self, cs: Seq<FacData>) -> (int, int, int) {
        run_outcome(*self.play.offense, self.play.defense, *self.play.offense_call, *self.play.defense_call, self.data.md, cs)
    }

    spec fn gain(&self, cs: Seq<FacData>) -> (int, bool, int) {
        run_gain(*self.play.offense, self.play.defense, *self.play.offense_call, *self.play.defense_call, self.data.md, cs)
    }

    fn start_run(&mut self) -> (r: PlayResult)
        requires
            old(self).ok(),
        ensures
            final(self).utils.wf(),
            final(self).play == old(self).play,
            final(self).utils.cards.fac_deck.cards() == old(self).utils.cards.fac_deck.cards(),
            final(self).utils.cards.drawn@.len() > old(self).utils.cards.drawn@.len(),
            final(self).utils.cards.drawn@.subrange(0, old(self).utils.cards.drawn@.len() as int) == old(self).utils.cards.drawn@,
            ({
                let cs = final(self).utils.cards.drawn@.skip(old(self).utils.cards.drawn@.len() as int);
                let o = old(self).outcome(cs);
                &&& r.result_type == ResultType::Regular
                &&& r.result == o.0
                &&& r.time == o.1
                &&& cs.len() == o.2
                &&& r.final_line == r.result + old(self).utils.state.yardline
            }),
    {
        let ghost start = self.utils.cards.drawn@;
        self.utils.detail("Handoff to the back".to_owned());
        let dir = self.get_run_direction();
        let ghost mid = self.utils.cards.drawn@;
        let r = match dir {
            RunDirection::Actual(actual) => self.handle_actual_run(&actual),
            RunDirection::Break => self.handle_breakaway(),
        };
        proof {
            let fin = self.utils.cards.drawn@;
            assert(fin.subrange(0, mid.len() as int) == mid);
            assert(fin.subrange(0, start.len() as int) =~= start) by {
                assert(mid.drop_last() == start);
                assert forall|k: int| 0 <= k < start.len() implies fin.subrange(0, start.len() as int)[k] == start[k] by {
                    assert(fin[k] == fin.subrange(0, mid.len() as int)[k]);
                    assert(mid[k] == mid.drop_last()[k]);
                }
            }
            let cs = fin.skip(start.len() as int);
            assert(cs[0] == mid.last()) by {
                assert(fin[start.len() as int] == fin.subrange(0, mid.len() as int)[start.len() as int]);
            }
            assert(cs.skip(1) =~= fin.skip(mid.len() as int));
        }
        r
    }

    fn handle_breakaway(&mut self) -> (r: PlayResult)
        requires
            old(self).ok(),
            old(self).utils.cards.drawn@.len() >= 1,
        ensures
            final(self).utils.wf(),
            final(self).play == old(self).play,
            final(self).utils.cards == old(self).utils.cards,
            r.result_type == ResultType::Regular,
            r.result == finalized(breakaway_yards(rb_of(*old(self).play.offense, old(self).play.offense_call.target).lg), false, old(self).data.md).0,
            r.time == finalized(breakaway_yards(rb_of(*old(self).play.offense, old(self).play.offense_call.target).lg), false, old(self).data.md).1,
            r.final_line == r.result + old(self).utils.state.yardline,
    {
        self.utils.detail("It's a breakaway".to_owned());
        let rb = get_rb_stats(&self.play);
        self.data.yardage = get_lg_yardage(rb.lg);
        self.data.ob = false;
        self.finalize_yardage()
    }

    fn get_run_direction(&mut self) -> (r: RunDirection)
        requires
            old(self).ok(),
        ensures
            final(self).ok(),
            final(self).play == old(self).play,
            final(self).data == old(self).data,
            final(self).utils.state == old(self).utils.state,
            final(self).utils.cards.fac_deck.cards() == old(self).utils.cards.fac_deck.cards(),
            final(self).utils.cards.drawn@.drop_last() == old(self).utils.cards.drawn@,
            final(self).utils.cards.drawn@.len() == old(self).utils.cards.drawn@.len() + 1,
            same_direction(r, column_of(final(self).utils.cards.drawn@.last(), old(self).data.md.card_val)),
            r.wf(),
    {
        let i = self.utils.get_fac();
        let card = self.utils.cards.card(i);
        let res = card_column(card, self.data.md.card_val);
        proof {
            assert(card.wf());
        }
        let r = match res {
            RunDirection::Break => RunDirection::Break,
            RunDirection::Actual(a) => RunDirection::Actual(
                RunDirectionActual {
                    offensive_boxes: copy_offensive_boxes(&a.offensive_boxes),
                    defensive_boxes: copy_defensive_boxes(&a.defensive_boxes),
                },
            ),
        };
        self.utils.mechanic("Run result drawn".to_owned());
        r
    }

    fn handle_actual_run(&mut self, actual: &RunDirectionActual) -> (r: PlayResult)
        requires
            old(self).ok(),
            actual.offensive_boxes@.len() <= 13,
            actual.defensive_boxes@.len() <= 15,
        ensures
            final(self).utils.wf(),
            final(self).play == old(self).play,
            final(self).utils.cards.fac_deck.cards() == old(self).utils.cards.fac_deck.cards(),
            final(self).utils.cards.drawn@.len() > old(self).utils.cards.drawn@.len(),
            final(self).utils.cards.drawn@.subrange(0, old(self).utils.cards.drawn@.len() as int) == old(self).utils.cards.drawn@,
            ({
                let ds = final(self).utils.cards.drawn@.skip(old(self).utils.cards.drawn@.len() as int);
                let g = actual_gain(*old(self).play.offense, old(self).play.defense, *old(self).play.offense_call, *old(self).play.defense_call, *actual, ds);
                let f = finalized(g.0, g.1, old(self).data.md);
                &&& r.result_type == ResultType::Regular
                &&& r.result == f.0
                &&& r.time == f.1
                &&& ds.len() == g.2
                &&& r.final_line == r.result + old(self).utils.state.yardline
            }),
    {
        let ghost start = self.utils.cards.drawn@;
        proof {
            lemma_back(*self.play.offense, self.play.offense_call.target);
        }
        let run_num_modifier = self.get_run_modifier();
        let run_num_full = self.utils.get_full_run_num();
        let ghost first = self.utils.cards.drawn@;
        let sum = run_num_full.num + run_num_modifier;
        let run_num = if sum > 12 {
            12
        } else if sum < 1 {
            1
        } else {
            sum
        };
        let stat = get_rush_stat(get_rb_stats(&self.play), run_num);
        match stat {
            NumStat::Val(num) => {
                self.data.yardage = num;
                self.data.ob = run_num_full.ob;
            },
            _ => {
                let (y, ob) = self.calculate_sg_yardage();
                self.data.yardage = y;
                self.data.ob = ob;
            },
        }
        let modifier = self.calculate_run_yardage_modifier(actual);
        self.data.yardage = self.data.yardage + modifier;
        proof {
            let ds = self.utils.cards.drawn@.skip(start.len() as int);
            assert(ds[0] == first.last());
            if !(stat is Val) {
                assert(ds[1] == self.utils.cards.drawn@.last());
                assert(ds.len() == 2);
            } else {
                assert(ds.len() == 1);
            }
            assert(self.utils.cards.drawn@.subrange(0, start.len() as int) =~= start);
        }
        self.finalize_yardage()
    }

    fn calculate_sg_yardage(&mut self) -> (r: (i32, bool))
        requires
            old(self).ok(),
        ensures
            final(self).ok(),
            final(self).play == old(self).play,
            final(self).data == old(self).data,
            final(self).utils.state == old(self).utils.state,
            final(self).utils.cards.fac_deck.cards() == old(self).utils.cards.fac_deck.cards(),
            final(self).utils.cards.drawn@.drop_last() == old(self).utils.cards.drawn@,
            final(self).utils.cards.drawn@.len() == old(self).utils.cards.drawn@.len() + 1,
            r.0 == final(self).utils.cards.drawn@.last().run_num.num + 5,
            6 <= r.0 <= 17,
            r.1 == final(self).utils.cards.drawn@.last().run_num.ob,
    {
        self.utils.detail("The back gets out for a short gain".to_owned());
        let rn = self.utils.get_full_run_num();
        (rn.num + 5, rn.ob)
    }

    fn calculate_run_yardage_modifier(&mut self, result: &RunDirectionActual) -> (r: i32)
        requires
            old(self).ok(),
            result.offensive_boxes@.len() <= 13,
            result.defensive_boxes@.len() <= 15,
        ensures
            final(self).ok(),
            final(self).play == old(self).play,
            final(self).data == old(self).data,
            final(self).utils.state == old(self).utils.state,
            final(self).utils.cards == old(self).utils.cards,
            r == block_tackle_modifier(*old(self).play.offense, old(self).play.defense, *result),
            -1500 <= r <= 1500,
    {
        self.utils.detail("The run meets the blockers and the tacklers".to_owned());
        if result.offensive_boxes.len() > 0 && result.defensive_boxes.len() > 0 {
            self.off_vs_def(result)
        } else if result.offensive_boxes.len() > 0 {
            self.off_block(result)
        } else {
            self.def_tackle(result)
        }
    }

    fn off_block(&mut self, result: &RunDirectionActual) -> (r: i32)
        requires
            old(self).ok(),
            result.offensive_boxes@.len() <= 13,
        ensures
            final(self).ok(),
            final(self).play == old(self).play,
            final(self).data == old(self).data,
            final(self).utils.state == old(self).utils.state,
            final(self).utils.cards == old(self).utils.cards,
            r == blocks_sum(*old(self).play.offense, result.offensive_boxes@),
            -1300 <= r <= 1300,
    {
        let ghost s = result.offensive_boxes@;
        let mut v: i32 = 0;
        let mut i: usize = 0;
        while i < result.offensive_boxes.len()
            invariant
                self.ok(),
                self.play == old(self).play,
                self.data == old(self).data,
                self.utils.state == old(self).utils.state,
                self.utils.cards == old(self).utils.cards,
                s == result.offensive_boxes@,
                s.len() <= 13,
                0 <= i <= s.len(),
                v == blocks_sum(*self.play.offense, s.take(i as int)),
                -100 * i <= v <= 100 * i,
            decreases s.len() - i,
        {
            let b = self.get_block_value(&result.offensive_boxes[i]);
            proof {
                assert(s.take(i as int + 1).drop_last() =~= s.take(i as int));
            }
            v = v + b;
            i = i + 1;
        }
        proof {
            assert(s.take(i as int) =~= s);
        }
        self.utils.detail("The blocks spring the runner".to_owned());
        v
    }

    fn def_tackle(&mut self, result: &RunDirectionActual) -> (r: i32)
        requires
            old(self).ok(),
            result.defensive_boxes@.len() <= 15,
        ensures
            final(self).ok(),
            final(self).play == old(self).play,
            final(self).data == old(self).data,
            final(self).utils.state == old(self).utils.state,
            final(self).utils.cards == old(self).utils.cards,
            r == (if !any_tackler(old(self).play.defense, result.defensive_boxes@) {
                2
            } else {
                tackles_sum(old(self).play.defense, result.defensive_boxes@)
            }),
            -1500 <= r <= 1500,
    {
        let ghost s = result.defensive_boxes@;
        let mut v: i32 = 0;
        let mut any = false;
        let mut i: usize = 0;
        while i < result.defensive_boxes.len()
            invariant
                self.ok(),
                self.play == old(self).play,
                self.data == old(self).data,
                self.utils.state == old(self).utils.state,
                self.utils.cards == old(self).utils.cards,
                s == result.defensive_boxes@,
                s.len() <= 15,
                0 <= i <= s.len(),
                v == tackles_sum(self.play.defense, s.take(i as int)),
                -100 * i <= v <= 100 * i,
                any == exists|j: int| 0 <= j < i && (#[trigger] tackle_value(self.play.defense, s[j])) is Some,
            decreases s.len() - i,
        {
            let t = self.get_tackle_value(&result.defensive_boxes[i]);
            proof {
                assert(s.take(i as int + 1).drop_last() =~= s.take(i as int));
            }
            match t {
                Some(x) => {
                    v = v + x;
                    any = true;
                },
                None => {},
            }
            i = i + 1;
        }
        proof {
            assert(s.take(i as int) =~= s);
        }
        if !any {
            self.utils.detail("All def boxes were empty".to_owned());
            2
        } else {
            self.utils.detail("The defense tackles".to_owned());
            v
        }
    }

    fn off_vs_def(&mut self, result: &RunDirectionActual) -> (r: i32)
        requires
            old(self).ok(),
            result.offensive_boxes@.len() > 0,
            result.defensive_boxes@.len() > 0,
        ensures
            final(self).ok(),
            final(self).play == old(self).play,
            final(self).data == old(self).data,
            final(self).utils.state == old(self).utils.state,
            final(self).utils.cards == old(self).utils.cards,
            r == block_tackle_modifier(*old(self).play.offense, old(self).play.defense, *result),
            -200 <= r <= 200,
    {
        let b = self.get_block_value(&result.offensive_boxes[0]);
        let t_opt = self.get_tackle_value(&result.defensive_boxes[0]);
        match t_opt {
            None => {
                self.utils.detail("No defense player so the block gains extra yards".to_owned());
                b
            },
            Some(t) => {
                let check = b + t;
                if check > 0 {
                    self.utils.detail("Offense wins the blocking battle".to_owned());
                } else if check == 0 {
                    self.utils.detail("The blocker and tackler match up well".to_owned());
                } else {
                    self.utils.detail("Defense wins the tackling battle".to_owned());
                }
                check
            },
        }
    }

    /// The summed block-against-tackle modifier; see `summed_modifier`.
    fn calculate_run_yardage_modifier2(&mut self, result: &RunDirectionActual) -> (r: i32)
        requires
            old(self).ok(),
            result.offensive_boxes@.len() <= 13,
            result.defensive_boxes@.len() <= 15,
        ensures
            final(self).ok(),
            final(self).play == old(self).play,
            final(self).data == old(self).data,
            final(self).utils.state == old(self).utils.state,
            final(self).utils.cards == old(self).utils.cards,
            r == summed_modifier(*old(self).play.offense, old(self).play.defense, *result),
    {
        let ghost s = result.defensive_boxes@;
        let mut tackles: i32 = 0;
        let mut i: usize = 0;
        while i < result.defensive_boxes.len()
            invariant
                self.ok(),
                self.play == old(self).play,
                s == result.defensive_boxes@,
                s.len() <= 15,
                0 <= i <= s.len(),
                tackles == tackles_total(self.play.defense, s.take(i as int)),
                -1100 * i <= tackles <= 1100 * i,
            decreases s.len() - i,
        {
            let ps = self.play.defense.get_players_in_pos(&result.defensive_boxes[i]);
            proof {
                assert(s.take(i as int + 1).drop_last() =~= s.take(i as int));
                assert(ps@.len() <= 11) by {
                    assert(self.play.defense.boxes@[crate::lineup::box_index(s[i as int])]@.len() <= 11);
                }
            }
            let mut t: i32 = 0;
            let mut j: usize = 0;
            while j < ps.len()
                invariant
                    self.ok(),
                    ps@ == self.play.defense.in_box(s[i as int]),
                    ps@.len() <= 11,
                    0 <= j <= ps@.len(),
                    t == box_tackles(ps@.take(j as int)),
                    -100 * j <= t <= 100 * j,
                decreases ps@.len() - j,
            {
                proof {
                    assert(ps@.take(j as int + 1).drop_last() =~= ps@.take(j as int));
                    crate::lineup::lemma_box_player_wf(self.play.defense, s[i as int], j as int);
                }
                t = t + PlayerUtils::get_tackles(&ps[j]);
                j = j + 1;
            }
            proof {
                assert(ps@.take(j as int) =~= ps@);
            }
            tackles = tackles + t;
            i = i + 1;
        }
        proof {
            assert(s.take(i as int) =~= s);
        }
        let blocks = self.off_block(result);
        if tackles < blocks {
            self.utils.detail("The blocks spring the runner".to_owned());
            blocks
        } else if tackles == blocks {
            self.utils.detail("The runner gets by blocks and tackles".to_owned());
            0
        } else {
            self.utils.detail("A big tackle saves yards".to_owned());
            -tackles
        }
    }

    fn get_block_value(&mut self, o_box: &OffensiveBox) -> (r: i32)
        requires
            old(self).ok(),
        ensures
            final(self).ok(),
            final(self).play == old(self).play,
            final(self).data == old(self).data,
            final(self).utils.state == old(self).utils.state,
            final(self).utils.cards == old(self).utils.cards,
            r == block_value(*old(self).play.offense, *o_box),
            -100 <= r <= 100,
    {
        proof {
            crate::lineup::lemma_offense_player_wf(*self.play.offense, *o_box);
        }
        let b = PlayerUtils::get_blocks(self.play.offense.get_player_in_pos(o_box));
        self.utils.mechanic("Box blocks".to_owned());
        b
    }

    fn get_tackle_value(&mut self, d_box: &DefensiveBox) -> (r: Option<i32>)
        requires
            old(self).ok(),
        ensures
            final(self).ok(),
            final(self).play == old(self).play,
            final(self).data == old(self).data,
            final(self).utils.state == old(self).utils.state,
            final(self).utils.cards == old(self).utils.cards,
            match r {
                Some(t) => tackle_value(old(self).play.defense, *d_box) == Some(t as int) && -100 <= t <= 100,
                None => tackle_value(old(self).play.defense, *d_box) is None,
            },
    {
        let ps = self.play.defense.get_players_in_pos(d_box);
        if ps.len() == 0 {
            self.utils.mechanic("Box empty".to_owned());
            None
        } else if ps.len() == 1 {
            proof {
                crate::lineup::lemma_box_player_wf(self.play.defense, *d_box, 0);
            }
            let t = PlayerUtils::get_tackles(&ps[0]);
            self.utils.mechanic("Box tackles".to_owned());
            Some(t)
        } else {
            self.utils.mechanic("Box with 2 players".to_owned());
            Some(-4)
        }
    }

    fn get_run_modifier(&mut self) -> (r: i32)
        requires
            old(self).ok(),
        ensures
            final(self).ok(),
            final(self).play == old(self).play,
            final(self).data == old(self).data,
            final(self).utils.state == old(self).utils.state,
            final(self).utils.cards == old(self).utils.cards,
            r == draw_impact(*old(self).play.offense_call, old(self).play.defense_call.defense_type)
                + defense_impact(
                RunPlayDefenseImpact::spec_run(),
                old(self).play.defense_call.defense_type,
                old(self).play.defense_call.key,
                old(self).play.offense_call.target,
            ),
            -4 <= r <= 6,
    {
        let draw = self.get_drawplay_impact();
        let def = get_run_modifier(
            RunPlayDefenseImpact::run_defense(),
            self.play.defense_call.defense_type,
            self.play.defense_call.key,
            self.play.offense_call.target,
        );
        self.utils.mechanic(crate::play::labeled("Run modifier ", draw + def));
        draw + def
    }

    fn get_drawplay_impact(&mut self) -> (r: i32)
        requires
            old(self).ok(),
        ensures
            final(self).ok(),
            final(self).play == old(self).play,
            final(self).data == old(self).data,
            final(self).utils.state == old(self).utils.state,
            final(self).utils.cards == old(self).utils.cards,
            r == draw_impact(*old(self).play.offense_call, old(self).play.defense_call.defense_type),
            -4 <= r <= 2,
    {
        let call = self.play.offense_call;
        if call.strategy == OffensiveStrategy::Draw && (call.play_type == OffensivePlayType::IL || call.play_type
            == OffensivePlayType::IR) {
            let t = DrawPlayImpact::standard();
            let val = match self.play.defense_call.defense_type {
                DefensivePlay::RunDefense => t.run_defense,
                DefensivePlay::PassDefense => t.pass_defense,
                DefensivePlay::PreventDefense => t.prevent_defense,
                DefensivePlay::Blitz => t.blitz,
            };
            if val < 0 {
                self.utils.detail("The draw play fools the defense".to_owned());
            } else {
                self.utils.detail("The draw crashes into the run defense".to_owned());
            }
            return val;
        }
        0
    }

    fn finalize_yardage(&mut self) -> (r: PlayResult)
        requires
            old(self).ok(),
            -2000 <= old(self).data.yardage <= 2000,
        ensures
            final(self).utils.wf(),
            final(self).play == old(self).play,
            final(self).utils.cards == old(self).utils.cards,
            r.result_type == ResultType::Regular,
            r.result == finalized(old(self).data.yardage as int, old(self).data.ob, old(self).data.md).0,
            r.time == finalized(old(self).data.yardage as int, old(self).data.ob, old(self).data.md).1,
            r.final_line == r.result + old(self).utils.state.yardline,
    {
        let result = if self.data.yardage < self.data.md.max_loss {
            self.data.md.max_loss
        } else {
            self.data.yardage
        };
        let mut time = RUN_PLAY_TIME;
        if self.data.ob && self.data.md.can_go_ob {
            self.utils.detail("Play ends out of bounds".to_owned());
            time = RUN_PLAY_OB_TIME;
        }
        self.utils.detail(crate::play::labeled("Gain of yards: ", result));
        self.utils.create_result(result, ResultType::Regular, time)
    }
}

/// The run-number change that the defense's call brings to a run or a screen
/// to `target`, by the values of `impact`.
pub fn get_run_modifier(
    impact: RunPlayDefenseImpact,
    defense_type: DefensivePlay,
    key: Option<OffensiveBox>,
    target: OffensiveBox,
) -> (r: i32)
    ensures
        r == defense_impact(impact, defense_type, key, target),
{
    match defense_type {
        DefensivePlay::RunDefense => match key {
            None => impact.run_defense_nokey,
            Some(k) => if k == target {
                impact.run_defense_keyed
            } else {
                impact.run_defense_wrongkey
            },
        },
        DefensivePlay::PassDefense => impact.pass_defense,
        DefensivePlay::PreventDefense => impact.prevent_defense,
        DefensivePlay::Blitz => impact.blitz,
    }
}

/// The yards of a breakaway by a back of long-run letter `c`.
pub fn get_lg_yardage(c: char) -> (r: i32)
    requires
        'A' <= c <= 'Z',
    ensures
        r == breakaway_yards(c),
{
    100 - (c as i32 - 65) * 5
}

/// The back that the call goes to.
pub fn get_rb_stats<'b>(play: &'b PlaySetup) -> (r: &'b RBStats)
    requires
        back_ok(*play),
    ensures
        *r == rb_of(*play.offense, play.offense_call.target),
        crate::players::gain_table_ok(r.rushing),
        'A' <= r.lg <= 'Z',
{
    proof {
        lemma_back(*play.offense, play.offense_call.target);
    }
    match play.offense.get_player_in_pos(&play.offense_call.target) {
        Some(Player::RB(rb)) => rb,
        _ => vstd::pervasive::unreached(),
    }
}

/// The run-gain entry "N" of the back's rushing table at `run_num`.
pub fn get_rush_stat(rb: &RBStats, run_num: i32) -> (r: NumStat)
    requires
        crate::players::gain_table_ok(rb.rushing),
        1 <= run_num <= 12,
    ensures
        r == rush_gain(*rb, run_num as int),
        crate::players::num_stat_ok(r),
{
    proof {
        reveal_strlit("N");
        assert(rb.rushing.stats@[run_num - 1].wf());
    }
    let key = "N".to_owned();
    proof {
        assert(key@ =~= seq!['N']);
    }
    match rb.rushing.get_stat(run_num as usize).get_val(key) {
        Some(v) => *v,
        None => NumStat::Val(0),
    }
}

proof fn lemma_back(off: StandardOffensiveLineup, target: OffensiveBox)
    requires
        off.wf(),
        target == OffensiveBox::B1 || target == OffensiveBox::B2 || target == OffensiveBox::B3,
        off.at(target) is Some,
    ensures
        off.at(target)->Some_0 is RB,
        off.at(target)->Some_0.wf(),
        crate::players::gain_table_ok(rb_of(off, target).rushing),
        'A' <= rb_of(off, target).lg <= 'Z',
{
}

} // verus!
