use vstd::prelude::*;

use crate::defs::{
    kickoff_a, kickoff_b, kickoff_results_a, kickoff_results_b, KickoffResult, KICKOFF_TIME, ONSIDE_KICK_LINE,
    TOUCHBACK_LINE,
};
use crate::fac::{FacData, FacManager};
use crate::game::{GameState, Yard};
use crate::play::{
    extends, fresh, lemma_extends_push, lemma_extends_same, lemma_extends_step, CardStreamer, PlayResult, PlayUtils,
    ResultType,
};
use crate::players::{KRStats, KStats, ReturnStat, Returner};
use crate::stats::TwelveStats;

verus! {

/// The position of the returner that `i` stands for, following "same as"
/// references at most `fuel` times; none when the chain is longer or leaves
/// the chart.
pub open spec fn resolve_returner(rs: Seq<Returner>, i: int, fuel: nat) -> Option<int>
    decreases fuel,
{
    if i < 0 || i >= rs.len() {
        None
    } else {
        match rs[i] {
            Returner::Actual { .. } => Some(i),
            Returner::SameAs(s) => if fuel == 0 {
                None
            } else {
                resolve_returner(rs, s - 1, (fuel - 1) as nat)
            },
        }
    }
}

/// Whether a return table stays within the sizes the arithmetic allows.
pub open spec fn return_table_ok(t: TwelveStats<ReturnStat>) -> bool {
    &&& t.wf()
    &&& forall|i: int| 0 <= i < 12 ==> -200 <= (#[trigger] t.stats@[i]).yards <= 200
}

/// A kick return chart with the four returners that the tables name, each of
/// whose references leads to a returner with a table of its own.
pub open spec fn returners_ok(rs: Seq<Returner>) -> bool {
    &&& rs.len() >= 4
    &&& rs.len() <= 100
    &&& forall|i: int| 0 <= i < rs.len() ==> (#[trigger] resolve_returner(rs, i, rs.len())) is Some
    &&& forall|i: int|
        0 <= i < rs.len() ==> match #[trigger] rs[i] {
            Returner::Actual { return_stats, asterisk_val, .. } => return_table_ok(return_stats) && -200
                <= asterisk_val <= 200,
            _ => true,
        }
}

/// A return from `line` by the returner at position `i`: that returner's table at a fresh
/// run number, where a marked entry becomes the long return on a second draw
/// of 1 or 2. The kicking team loses the ball.
pub open spec fn return_outcome(rs: Seq<Returner>, i: int, line: int, ds: Seq<FacData>) -> (ResultType, int, int, int) {
    let a = resolve_returner(rs, i, rs.len())->Some_0;
    let (stats, ast) = match rs[a] {
        Returner::Actual { return_stats, asterisk_val, .. } => (return_stats, asterisk_val),
        _ => (rs[a]->Actual_return_stats, 0),
    };
    let entry = stats.at(ds[0].run_num.num as int);
    let (ret, k) = if !entry.asterisk {
        (entry.yards as int, 1int)
    } else if ds[1].run_num.num <= 2 {
        (ast as int, 2int)
    } else {
        (entry.yards as int, 2int)
    };
    (ResultType::TurnOver, ret, 100 - (line + ret), k)
}

/// A row of a kickoff table that is not a draw on the second table.
pub open spec fn leaf_outcome(rs: Seq<Returner>, k: KickoffResult, ds: Seq<FacData>) -> (ResultType, int, int, int) {
    match k {
        KickoffResult::Return { recipient, line } => return_outcome(rs, recipient - 1, line as int, ds),
        _ => (ResultType::TurnOver, 0, 100 - TOUCHBACK_LINE, 0),
    }
}

/// A kickoff's kind, return yards, end line (seen from the receiving team's
/// goal line is `100 - end`), and number of cards used.
pub open spec fn kick_outcome(onside: bool, rs: Seq<Returner>, cs: Seq<FacData>) -> (ResultType, int, int, int) {
    if onside {
        let pn = cs[0].pass_num;
        (
            if 1 <= pn <= 11 { ResultType::Regular } else { ResultType::TurnOver },
            0,
            100 - ONSIDE_KICK_LINE,
            1,
        )
    } else {
        match kickoff_a(cs[0].run_num.num as int) {
            KickoffResult::ColumnB => {
                let o = leaf_outcome(rs, kickoff_b(cs[1].run_num.num as int), cs.skip(2));
                (o.0, o.1, o.2, o.3 + 2)
            },
            k => {
                let o = leaf_outcome(rs, k, cs.skip(1));
                (o.0, o.1, o.2, o.3 + 1)
            },
        }
    }
}

/// A kickoff: whether it is onside, the receiving team's return chart, the kicker.
#[derive(Debug, Clone)]
pub struct KickoffPlay {
    pub onside: Option<bool>,
    pub kr: Option<KRStats>,
    pub k: Option<KStats>,
}

impl KickoffPlay {
    pub fn new() -> (r: KickoffPlay)
        ensures
            r.onside is None,
            r.kr is None,
            r.k is None,
    {
        KickoffPlay { onside: None, kr: None, k: None }
    }

    /// Sets the kicker from the roster; the play is unchanged unless the id
    /// names a kicker.
    pub fn set_offense_lineup(&mut self, lineup: &crate::lineup::KickoffIDOffenseLineup, roster: &crate::lineup::Roster) -> (r: Result<(), String>)
        ensures
            r is Ok <==> (crate::lineup::first_with_id(roster.players@, lineup.k@) matches Some(i)
                && roster.players@[i] is K),
            r is Ok ==> (final(self).k matches Some(k) && cloned(
                crate::lineup::roster_player(*roster, lineup.k)->K_0,
                k,
            )),
            r is Err ==> final(self).k == old(self).k,
            final(self).kr == old(self).kr,
            final(self).onside == old(self).onside,
    {
        match roster.get_player(&lineup.k) {
            Some(crate::players::Player::K(k)) => {
                self.k = Some(k.clone());
                Ok(())
            },
            Some(_) => Err("Player is not a K".to_owned()),
            None => Err("Unknown player".to_owned()),
        }
    }

    /// Sets the return chart from the roster; the play is unchanged unless the
    /// id names a kick returner.
    pub fn set_defense_lineup(&mut self, lineup: &crate::lineup::KickoffIDDefenseLineup, roster: &crate::lineup::Roster) -> (r: Result<(), String>)
        ensures
            r is Ok <==> (crate::lineup::first_with_id(roster.players@, lineup.kr@) matches Some(i)
                && roster.players@[i] is KR),
            r is Ok ==> (final(self).kr matches Some(kr) && cloned(
                crate::lineup::roster_player(*roster, lineup.kr)->KR_0,
                kr,
            )),
            r is Err ==> final(self).kr == old(self).kr,
            final(self).k == old(self).k,
            final(self).onside == old(self).onside,
    {
        match roster.get_player(&lineup.kr) {
            Some(crate::players::Player::KR(kr)) => {
                self.kr = Some(kr.clone());
                Ok(())
            },
            Some(_) => Err("Player is not a KR".to_owned()),
            None => Err("Unknown player".to_owned()),
        }
    }

    pub open spec fn ready(&self) -> bool {
        &&& self.kr is Some
        &&& returners_ok(self.kr->Some_0.returners@)
    }
}

/// Whether `r` is the kickoff outcome `o` after `k` cards.
pub open spec fn kick_result_is(r: PlayResult, o: (ResultType, int, int, int), k: int) -> bool {
    &&& r.result_type == o.0
    &&& r.result == o.1
    &&& r.final_line == o.2
    &&& r.time == KICKOFF_TIME
    &&& k == o.3
}

/// Whether `r` is the outcome of the kickoff `k` on the cards `cs`.
pub open spec fn kick_result_of(k: KickoffPlay, r: PlayResult, cs: Seq<FacData>) -> bool {
    kick_result_is(r, kick_outcome(k.onside == Some(true), k.kr->Some_0.returners@, cs), cs.len() as int)
}

pub struct KickPlayImpl<'a> {
    utils: PlayUtils,
    play: &'a KickoffPlay,
}

impl<'a> KickPlayImpl<'a> {
    /// Resolves a kickoff. The cards drawn are the ones the outcome reads: the
    /// result is `kick_outcome` of them.
    pub fn run_play(state: &GameState, play: &KickoffPlay, cards: &mut CardStreamer) -> (r: PlayResult)
        requires
            play.ready(),
            old(cards).wf(),
        ensures
            final(cards).wf(),
            final(cards).fac_deck.cards() == old(cards).fac_deck.cards(),
            extends(final(cards).drawn@, old(cards).drawn@),
            kick_result_is(
                r,
                kick_outcome(
                    play.onside == Some(true),
                    play.kr->Some_0.returners@,
                    fresh(final(cards).drawn@, old(cards).drawn@),
                ),
                fresh(final(cards).drawn@, old(cards).drawn@).len() as int,
            ),
    {
        let mut taken = CardStreamer::new(FacManager::new(Vec::new()));
        std::mem::swap(cards, &mut taken);
        let mut kpc = KickPlayImpl { utils: PlayUtils::new(*state, taken), play };
        let r = kpc.run_kickoff();
        *cards = kpc.utils.into_cards();
        r
    }

    spec fn ok(&self) -> bool {
        &&& self.play.ready()
        &&& self.utils.cards.wf()
    }

    spec fn kept(&self, before: Self) -> bool {
        &&& self.play == before.play
        &&& self.utils.cards.wf()
        &&& self.utils.cards.fac_deck.cards() == before.utils.cards.fac_deck.cards()
        &&& extends(self.utils.cards.drawn@, before.utils.cards.drawn@)
    }

    spec fn since(&self, before: Self) -> Seq<FacData> {
        fresh(self.utils.cards.drawn@, before.utils.cards.drawn@)
    }

    spec fn chart(&self) -> Seq<Returner> {
        self.play.kr->Some_0.returners@
    }

    fn run_kickoff(&mut self) -> (r: PlayResult)
        requires
            old(self).ok(),
        ensures
            final(self).kept(*old(self)),
            kick_result_is(
                r,
                kick_outcome(old(self).play.onside == Some(true), old(self).chart(), final(self).since(*old(self))),
                final(self).since(*old(self)).len() as int,
            ),
    {
        if self.play.onside == Some(true) {
            self.run_onside_kick()
        } else {
            let ghost s0 = self.utils.cards.drawn@;
            let num = self.utils.get_run_num();
            let ghost s1 = self.utils.cards.drawn@;
            let k = kickoff_results_a(num);
            let r = match k {
                KickoffResult::ColumnB => {
                    self.utils.mechanic("Going to the second table".to_owned());
                    let num2 = self.utils.get_run_num();
                    let ghost s2 = self.utils.cards.drawn@;
                    let r = self.run_result(&kickoff_results_b(num2));
                    proof {
                        lemma_extends_step(s1, s2, self.utils.cards.drawn@);
                        assert(self.since(*old(self)).skip(2) =~= fresh(self.utils.cards.drawn@, s2)) by {
                            lemma_extends_step(s0, s1, self.utils.cards.drawn@);
                        }
                    }
                    r
                },
                _ => self.run_result(&k),
            };
            proof {
                lemma_extends_step(s0, s1, self.utils.cards.drawn@);
            }
            r
        }
    }

    fn run_onside_kick(&mut self) -> (r: PlayResult)
        requires
            old(self).ok(),
        ensures
            final(self).kept(*old(self)),
            kick_result_is(r, kick_outcome(true, old(self).chart(), final(self).since(*old(self))), 1),
            final(self).since(*old(self)).len() == 1,
    {
        let ghost s0 = self.utils.cards.drawn@;
        self.utils.detail("An onside kick is tried".to_owned());
        let pn = self.utils.get_pass_num();
        proof {
            lemma_extends_push(s0, self.utils.cards.drawn@);
        }
        let result_type = if 1 <= pn && pn <= 11 {
            self.utils.detail("Recovered by the kicking team".to_owned());
            ResultType::Regular
        } else {
            self.utils.detail("Recovered by the receiving team".to_owned());
            ResultType::TurnOver
        };
        self.create_result(result_type, ONSIDE_KICK_LINE, 0)
    }

    /// A row of a kickoff table other than a draw on the second table.
    fn run_result(&mut self, result: &KickoffResult) -> (r: PlayResult)
        requires
            old(self).ok(),
            !(result is ColumnB),
            *result matches KickoffResult::Return { recipient, line } ==> 1 <= recipient <= 4 && 0 <= line <= 8,
        ensures
            final(self).kept(*old(self)),
            kick_result_is(
                r,
                leaf_outcome(old(self).chart(), *result, final(self).since(*old(self))),
                final(self).since(*old(self)).len() as int,
            ),
    {
        match result {
            KickoffResult::Return { recipient, line } => {
                let idx = (*recipient - 1) as usize;
                self.run_return(idx, *line)
            },
            _ => {
                proof {
                    lemma_extends_same(self.utils.cards.drawn@);
                }
                self.utils.detail("Touchback".to_owned());
                self.create_result(ResultType::TurnOver, TOUCHBACK_LINE, 0)
            },
        }
    }

    /// The position of the returner that position `idx` of the chart stands
    /// for, once every "same as" reference is followed.
    fn resolve(&self, idx: usize) -> (r: usize)
        requires
            self.ok(),
            idx < self.chart().len(),
        ensures
            resolve_returner(self.chart(), idx as int, self.chart().len()) == Some(r as int),
            r < self.chart().len(),
            self.chart()[r as int] is Actual,
    {
        let rs = &self.play.kr.as_ref().unwrap().returners;
        let ghost n = rs@.len();
        let mut i = idx;
        let mut fuel: usize = rs.len();
        while fuel > 0
            invariant
                rs@ == self.chart(),
                n == rs@.len(),
                returners_ok(rs@),
                i < n,
                fuel <= n,
                resolve_returner(rs@, i as int, fuel as nat) == resolve_returner(rs@, idx as int, n),
                resolve_returner(rs@, idx as int, n) is Some,
            decreases fuel,
        {
            match &rs[i] {
                Returner::SameAs(s) => {
                    proof {
                        assert(resolve_returner(rs@, i as int, fuel as nat) == resolve_returner(rs@, *s - 1, (fuel - 1) as nat));
                    }
                    if *s < 1 || *s as usize > rs.len() {
                        proof {
                            assert(resolve_returner(rs@, *s - 1, (fuel - 1) as nat) is None);
                        }
                        return vstd::pervasive::unreached();
                    }
                    i = (*s - 1) as usize;
                    fuel = fuel - 1;
                },
                Returner::Actual { .. } => {
                    return i;
                },
            }
        }
        proof {
            assert(resolve_returner(rs@, idx as int, n) is Some);
        }
        match &rs[i] {
            Returner::Actual { .. } => i,
            Returner::SameAs(_) => vstd::pervasive::unreached(),
        }
    }

    fn run_return(&mut self, idx: usize, line: Yard) -> (r: PlayResult)
        requires
            old(self).ok(),
            idx < old(self).chart().len(),
            0 <= line <= 100,
        ensures
            final(self).kept(*old(self)),
            kick_result_is(
                r,
                return_outcome(old(self).chart(), idx as int, line as int, final(self).since(*old(self))),
                final(self).since(*old(self)).len() as int,
            ),
    {
        let ghost s0 = self.utils.cards.drawn@;
        let a = self.resolve(idx);
        let rn = self.utils.get_run_num();
        let ghost s1 = self.utils.cards.drawn@;
        proof {
            lemma_extends_push(s0, s1);
        }
        let (is_ast, card_val, ast_val) = match &self.play.kr.as_ref().unwrap().returners[a] {
            Returner::Actual { return_stats, asterisk_val, .. } => {
                proof {
                    assert(return_table_ok(*return_stats));
                    assert(-200 <= return_stats.stats@[rn - 1].yards <= 200);
                }
                let stats = return_stats.get_stat(rn as usize);
                (stats.asterisk, stats.yards, *asterisk_val)
            },
            Returner::SameAs(_) => vstd::pervasive::unreached(),
        };
        self.utils.detail("Kick taken by the returner".to_owned());
        let ret_val = self.get_return_val(is_ast, card_val, ast_val);
        proof {
            if is_ast {
                lemma_extends_step(s0, s1, self.utils.cards.drawn@);
            }
        }
        self.create_result(ResultType::TurnOver, line, ret_val)
    }

    fn get_return_val(&mut self, is_ast: bool, card_val: Yard, ast_val: Yard) -> (r: i32)
        requires
            old(self).ok(),
        ensures
            final(self).kept(*old(self)),
            !is_ast ==> r == card_val && final(self).utils.cards == old(self).utils.cards,
            is_ast ==> final(self).since(*old(self)).len() == 1 && final(self).utils.cards.drawn@.len() == old(
                self,
            ).utils.cards.drawn@.len() + 1 && final(self).utils.cards.drawn@.drop_last() == old(self).utils.cards.drawn@
                && r == (if final(self).utils.cards.drawn@.last().run_num.num <= 2 {
                ast_val
            } else {
                card_val
            }),
    {
        if !is_ast {
            proof {
                lemma_extends_same(self.utils.cards.drawn@);
            }
            return card_val;
        }
        let ghost s0 = self.utils.cards.drawn@;
        let rn = self.utils.get_run_num();
        proof {
            lemma_extends_push(s0, self.utils.cards.drawn@);
        }
        if rn <= 2 {
            self.utils.detail("The returner breaks away".to_owned());
            ast_val
        } else {
            card_val
        }
    }

    fn create_result(&mut self, result_type: ResultType, line: Yard, result: Yard) -> (r: PlayResult)
        requires
            -1000 <= line <= 1000,
            -1000 <= result <= 1000,
        ensures
            final(self).utils.cards == old(self).utils.cards,
            final(self).play == old(self).play,
            r.result_type == result_type,
            r.result == result,
            r.final_line == 100 - (line + result),
            r.time == KICKOFF_TIME,
    {
        PlayResult { result_type, result, final_line: 100 - (line + result), time: KICKOFF_TIME, ..self.utils.result() }
    }
}

/// A returner that refers to another with a table of its own stands for that one.
pub proof fn lemma_alias_resolves(rs: Seq<Returner>, i: int, k: int)
    requires
        0 <= i < rs.len(),
        rs[i] == Returner::SameAs(k as i32),
        1 <= k <= rs.len(),
        k <= i32::MAX,
        rs[k - 1] is Actual,
    ensures
        resolve_returner(rs, i, rs.len()) == Some(k - 1),
{
    assert(resolve_returner(rs, k - 1, (rs.len() - 1) as nat) == Some(k - 1));
}

} // verus!
