use rand::seq::SliceRandom;
use vstd::prelude::*;

use crate::lineup::{DefensiveBox, OffensiveBox};
use crate::standard_play::PassResult;
use crate::text::{int_of, parse_i32, parse_pass_target, parse_run_direction, parse_run_num, pass_target_of, run_num_of, text_is};

verus! {

/// The run number of a card, and whether a run on it ends out of bounds.
#[derive(Debug, Clone, Copy, PartialEq, Eq, Structural)]
pub struct RunNum {
    pub num: i32,
    pub ob: bool,
}

/// The blockers and tacklers that a run meets.
#[derive(Debug, Clone)]
pub struct RunDirectionActual {
    pub offensive_boxes: Vec<OffensiveBox>,
    pub defensive_boxes: Vec<DefensiveBox>,
}

/// What a card gives for one kind of run: a breakaway, or a block against tacklers.
#[derive(Debug, Clone)]
pub enum RunDirection {
    Actual(RunDirectionActual),
    Break,
}

impl RunDirection {
    /// At most one entry per position of each side.
    pub open spec fn wf(&self) -> bool {
        match self {
            RunDirection::Actual(a) => a.offensive_boxes@.len() <= 13 && a.defensive_boxes@.len() <= 15,
            RunDirection::Break => true,
        }
    }
}

/// Where a card sends a pass: to the called target, into the pass rush, or to
/// another position.
#[derive(Debug, Clone, Copy, PartialEq, Eq, Structural)]
pub enum PassTarget {
    Orig,
    PassRush,
    Actual(OffensiveBox),
}

/// What a card gives for a screen pass: the outcome, and the percentage of the
/// run table's yardage that a completed screen gains.
#[derive(Debug, Clone, Copy, PartialEq, Eq, Structural)]
pub struct ScreenResult {
    pub result: PassResult,
    pub multiplier_pct: i32,
}

/// One ordinary card.
#[derive(Debug, Clone)]
pub struct FacData {
    pub id: i32,
    pub run_num: RunNum,
    pub pass_num: i32,
    pub sl: RunDirection,
    pub il: RunDirection,
    pub ir: RunDirection,
    pub sr: RunDirection,
    pub er: String,
    pub sc: ScreenResult,
    pub sh: PassTarget,
    pub qk: PassTarget,
    pub lg: PassTarget,
    pub z_result: String,
    pub solitaire: String,
}

impl FacData {
    /// Numbers that every card keeps: run and pass numbers from 1 to 12, and a
    /// screen multiplier that leaves room for the arithmetic.
    pub open spec fn wf(&self) -> bool {
        &&& 1 <= self.run_num.num <= 12
        &&& 1 <= self.pass_num <= 12
        &&& 0 <= self.sc.multiplier_pct <= 1000
        &&& self.sl.wf()
        &&& self.il.wf()
        &&& self.ir.wf()
        &&& self.sr.wf()
    }
}

/// A card of the deck: a rare special card, or an ordinary one.
#[derive(Debug, Clone)]
pub enum FacCard {
    Z,
    Data(FacData),
}

impl FacCard {
    pub open spec fn is_ordinary(&self) -> bool {
        self is Data
    }

    pub open spec fn wf(&self) -> bool {
        match self {
            FacCard::Z => true,
            FacCard::Data(d) => d.wf(),
        }
    }
}

/// The screen column of a card: "Com", "Inc" or "Int", each at full yardage.
pub open spec fn screen_of(s: Seq<char>) -> Option<ScreenResult> {
    if s == seq!['C', 'o', 'm'] {
        Some(ScreenResult { result: PassResult::Complete, multiplier_pct: 100 })
    } else if s == seq!['I', 'n', 'c'] {
        Some(ScreenResult { result: PassResult::Incomplete, multiplier_pct: 100 })
    } else if s == seq!['I', 'n', 't'] {
        Some(ScreenResult { result: PassResult::Interception, multiplier_pct: 100 })
    } else {
        None
    }
}

pub fn parse_screen(s: &str) -> (r: Option<ScreenResult>)
    ensures
        r == screen_of(s@),
{
    proof {
        reveal_strlit("Com");
        reveal_strlit("Inc");
        reveal_strlit("Int");
        assert("Com"@ =~= seq!['C', 'o', 'm']);
        assert("Inc"@ =~= seq!['I', 'n', 'c']);
        assert("Int"@ =~= seq!['I', 'n', 't']);
    }
    if text_is(s, "Com") {
        Some(ScreenResult { result: PassResult::Complete, multiplier_pct: 100 })
    } else if text_is(s, "Inc") {
        Some(ScreenResult { result: PassResult::Incomplete, multiplier_pct: 100 })
    } else if text_is(s, "Int") {
        Some(ScreenResult { result: PassResult::Interception, multiplier_pct: 100 })
    } else {
        None
    }
}

/// The texts of one row of the card table, column by column.
pub struct CardColumns<'a> {
    pub run_num: &'a str,
    pub pass_num: &'a str,
    pub sl: &'a str,
    pub il: &'a str,
    pub ir: &'a str,
    pub sr: &'a str,
    pub sc: &'a str,
    pub sh: &'a str,
    pub qk: &'a str,
    pub lg: &'a str,
}

impl FacData {
    /// Builds a card from the texts of its row; none when a column does not
    /// read, or a number falls outside 1 to 12.
    pub fn from_columns(id: i32, cols: &CardColumns, er: String, z_result: String, solitaire: String) -> (r: Option<
        FacData,
    >)
        ensures
            r matches Some(d) ==> {
                &&& d.wf()
                &&& d.id == id
                &&& d.run_num == run_num_of(cols.run_num@)
                &&& Some(d.pass_num) == int_of(cols.pass_num@)
                &&& Some(d.sc) == screen_of(cols.sc@)
                &&& Some(d.sh) == pass_target_of(cols.sh@)
                &&& Some(d.qk) == pass_target_of(cols.qk@)
                &&& Some(d.lg) == pass_target_of(cols.lg@)
                &&& direction_read(d.sl, cols.sl@)
                &&& direction_read(d.il, cols.il@)
                &&& direction_read(d.ir, cols.ir@)
                &&& direction_read(d.sr, cols.sr@)
                &&& d.er == er
                &&& d.z_result == z_result
                &&& d.solitaire == solitaire
            },
            r is Some <==> {
                &&& 1 <= run_num_of(cols.run_num@).num <= 12
                &&& int_of(cols.pass_num@) matches Some(p) && 1 <= p <= 12
                &&& screen_of(cols.sc@) is Some
                &&& pass_target_of(cols.sh@) is Some
                &&& pass_target_of(cols.qk@) is Some
                &&& pass_target_of(cols.lg@) is Some
                &&& direction_ok(cols.sl@)
                &&& direction_ok(cols.il@)
                &&& direction_ok(cols.ir@)
                &&& direction_ok(cols.sr@)
            },
    {
        let run_num = parse_run_num(cols.run_num);
        if run_num.num < 1 || run_num.num > 12 {
            return None;
        }
        let n = cols.pass_num.unicode_len();
        proof {
            assert(cols.pass_num@.subrange(0, n as int) =~= cols.pass_num@);
        }
        let pass_num = match parse_i32(cols.pass_num, 0, n) {
            Some(p) => p,
            None => {
                return None;
            },
        };
        if pass_num < 1 || pass_num > 12 {
            return None;
        }
        let sc = parse_screen(cols.sc)?;
        let sh = parse_pass_target(cols.sh)?;
        let qk = parse_pass_target(cols.qk)?;
        let lg = parse_pass_target(cols.lg)?;
        let sl = parse_run_direction(cols.sl)?;
        let il = parse_run_direction(cols.il)?;
        let ir = parse_run_direction(cols.ir)?;
        let sr = parse_run_direction(cols.sr)?;
        if !(direction_fits(&sl) && direction_fits(&il) && direction_fits(&ir) && direction_fits(&sr)) {
            return None;
        }
        Some(FacData { id, run_num, pass_num, sl, il, ir, sr, er, sc, sh, qk, lg, z_result, solitaire })
    }
}

/// Whether `d` is what the run column text `s` reads as: a breakaway for
/// "break", else the positions that its codes name.
pub open spec fn direction_read(d: RunDirection, s: Seq<char>) -> bool {
    if s == seq!['b', 'r', 'e', 'a', 'k'] {
        d is Break
    } else {
        crate::text::boxes_from(s, 0) matches Some(b) && d matches RunDirection::Actual(a)
            && a.offensive_boxes@ == b.0 && a.defensive_boxes@ == b.1
    }
}

/// Whether a run column reads as "break" or as at most one code per position.
pub open spec fn direction_ok(s: Seq<char>) -> bool {
    s == seq!['b', 'r', 'e', 'a', 'k'] || (crate::text::boxes_from(s, 0) matches Some(b) && b.0.len() <= 13
        && b.1.len() <= 15)
}

fn direction_fits(d: &RunDirection) -> (r: bool)
    ensures
        r == d.wf(),
{
    match d {
        RunDirection::Actual(a) => a.offensive_boxes.len() <= 13 && a.defensive_boxes.len() <= 15,
        RunDirection::Break => true,
    }
}

/// The seq of indices `0..n`, in order.
pub open spec fn all_indices(n: nat) -> Seq<usize> {
    Seq::new(n, |i: int| i as usize)
}

/// Relies on rand's `SliceRandom::shuffle` with the thread's generator: it
/// only swaps elements, so the result is a reordering of the input.
#[verifier::external_body]
fn shuffle_indices(v: &mut Vec<usize>)
    ensures
        final(v)@.to_multiset() == old(v)@.to_multiset(),
{
    v.shuffle(&mut rand::thread_rng());
}

/// The full set of cards and the pile that is drawn from. The pile holds
/// positions in the full set; it is refilled and reshuffled when it runs out.
pub struct FacManager {
    facs: Vec<FacCard>,
    deck: Vec<usize>,
    /// The positions of every card drawn so far, in order.
    drawn: Ghost<Seq<usize>>,
}

impl FacManager {
    pub closed spec fn cards(&self) -> Seq<FacCard> {
        self.facs@
    }

    pub closed spec fn pile(&self) -> Seq<usize> {
        self.deck@
    }

    /// The positions of every card drawn so far, in order.
    pub closed spec fn history(&self) -> Seq<usize> {
        self.drawn@
    }

    /// Whether an ordinary card is left in the pile.
    pub open spec fn pile_has_data(&self) -> bool {
        exists|k: int| 0 <= k < self.pile().len() && #[trigger] self.cards()[self.pile()[k] as int].is_ordinary()
    }

    /// How many draws at most until an ordinary card comes up.
    pub open spec fn draws_to_data(&self) -> nat {
        if self.pile_has_data() {
            self.pile().len()
        } else {
            self.pile().len() + self.cards().len() + 1
        }
    }

    /// The deck holds an ordinary card, every card is well formed, and the pile
    /// points into the full set.
    pub open spec fn wf(&self) -> bool {
        &&& exists|d: int| 0 <= d < self.cards().len() && #[trigger] self.cards()[d].is_ordinary()
        &&& forall|d: int| 0 <= d < self.cards().len() ==> #[trigger] self.cards()[d].wf()
        &&& forall|k: int| 0 <= k < self.pile().len() ==> #[trigger] self.pile()[k] < self.cards().len()
        &&& self.pile().no_duplicates()
    }

    /// A deck of `facs`, with an empty pile: the first draw shuffles.
    pub fn new(facs: Vec<FacCard>) -> (r: FacManager)
        ensures
            r.cards() == facs@,
            r.pile() == Seq::<usize>::empty(),
            r.history() == Seq::<usize>::empty(),
    {
        FacManager { facs, deck: Vec::new(), drawn: Ghost(Seq::empty()) }
    }

    /// A deck of `facs` whose pile is given, drawn from its end.
    pub fn with_pile(facs: Vec<FacCard>, pile: Vec<usize>) -> (r: FacManager)
        ensures
            r.cards() == facs@,
            r.pile() == pile@,
            r.history() == Seq::<usize>::empty(),
    {
        FacManager { facs, deck: pile, drawn: Ghost(Seq::empty()) }
    }

    pub fn card(&self, i: usize) -> (r: &FacCard)
        requires
            i < self.cards().len(),
        ensures
            *r == self.cards()[i as int],
    {
        &self.facs[i]
    }

    pub fn pile_len(&self) -> (r: usize)
        ensures
            r == self.pile().len(),
    {
        self.deck.len()
    }

    /// Puts every card back into the pile and shuffles it.
    fn refill(&mut self)
        requires
            old(self).wf(),
        ensures
            final(self).wf(),
            final(self).cards() == old(self).cards(),
            final(self).pile().to_multiset() == all_indices(old(self).cards().len()).to_multiset(),
            final(self).pile().len() == old(self).cards().len(),
            final(self).pile_has_data(),
            final(self).history() == old(self).history(),
    {
        let n = self.facs.len();
        let mut v: Vec<usize> = Vec::new();
        let mut i: usize = 0;
        while i < n
            invariant
                n == self.facs@.len(),
                0 <= i <= n,
                v@ == all_indices(i as nat),
            decreases n - i,
        {
            v.push(i);
            i = i + 1;
            proof {
                assert(v@ =~= all_indices(i as nat));
            }
        }
        let ghost before = v@;
        shuffle_indices(&mut v);
        self.deck = v;
        proof {
            broadcast use vstd::seq_lib::group_to_multiset_ensures;

            assert(self.deck@.len() == before.len()) by {
                assert(self.deck@.to_multiset().len() == before.to_multiset().len());
            }
            assert forall|k: int| 0 <= k < self.deck@.len() implies #[trigger] self.deck@[k] < n by {
                assert(self.deck@.contains(self.deck@[k]));
                assert(self.deck@.to_multiset().count(self.deck@[k]) > 0);
                assert(before.to_multiset().count(self.deck@[k]) > 0);
                assert(before.contains(self.deck@[k]));
            }
            let d = choose|d: int| 0 <= d < self.facs@.len() && #[trigger] self.facs@[d].is_ordinary();
            assert(before[d] == d as usize);
            assert(before.contains(d as usize));
            assert(before.to_multiset().count(d as usize) > 0);
            assert(self.deck@.to_multiset().count(d as usize) > 0);
            assert(self.deck@.contains(d as usize));
            let k = choose|k: int| 0 <= k < self.deck@.len() && self.deck@[k] == d as usize;
            assert(self.facs@[self.deck@[k] as int].is_ordinary());
            assert(self.cards()[self.pile()[k] as int].is_ordinary());
            assert(before.no_duplicates());
            before.lemma_multiset_has_no_duplicates();
            assert forall|x: usize| self.deck@.to_multiset().contains(x) implies self.deck@.to_multiset().count(x) == 1 by {
                assert(before.to_multiset().contains(x));
            }
            self.deck@.lemma_multiset_has_no_duplicates_conv();
        }
    }

    /// Draws the top card of the pile, first refilling and reshuffling the pile
    /// when it is empty or when `force_shuffle` asks for it. It never fails.
    pub fn get_fac(&mut self, force_shuffle: bool) -> (r: usize)
        requires
            old(self).wf(),
        ensures
            final(self).wf(),
            final(self).cards() == old(self).cards(),
            r < old(self).cards().len(),
            !force_shuffle && old(self).pile().len() > 0 ==> r == old(self).pile().last()
                && final(self).pile() == old(self).pile().drop_last(),
            force_shuffle || old(self).pile().len() == 0 ==> final(self).pile().push(r).to_multiset() == all_indices(
                old(self).cards().len(),
            ).to_multiset(),
            force_shuffle || old(self).pile().len() == 0 ==> final(self).pile().len() + 1 == old(self).cards().len(),
            final(self).history() == old(self).history().push(r),
            !force_shuffle && !final(self).cards()[r as int].is_ordinary() ==> final(self).draws_to_data() < old(self).draws_to_data(),
    {
        if force_shuffle || self.deck.len() == 0 {
            self.refill();
        }
        let ghost mid = self.deck@;
        let r = self.deck.pop().unwrap();
        proof {
            self.drawn@ = self.drawn@.push(r);
        }
        proof {
            assert(mid =~= self.deck@.push(r));
            assert forall|k: int| 0 <= k < self.pile().len() implies #[trigger] self.pile()[k] < self.cards().len() by {
                assert(self.deck@[k] == mid[k]);
            }
            assert(self.deck@.no_duplicates()) by {
                assert forall|i: int, j: int| 0 <= i < self.deck@.len() && 0 <= j < self.deck@.len() && i != j implies self.deck@[i] != self.deck@[j] by {
                    assert(self.deck@[i] == mid[i] && self.deck@[j] == mid[j]);
                }
            }
            if !self.facs@[r as int].is_ordinary() {
                if exists|k: int| 0 <= k < mid.len() && #[trigger] self.facs@[mid[k] as int].is_ordinary() {
                    let k = choose|k: int| 0 <= k < mid.len() && #[trigger] self.facs@[mid[k] as int].is_ordinary();
                    assert(k < mid.len() - 1);
                    assert(self.deck@[k] == mid[k]);
                }
            }
        }
        r
    }

    /// Draws `count` cards one after another, reshuffling whenever the pile
    /// runs out: every draw succeeds, however many times over the deck `count`
    /// goes, and gives the position of a card of the deck.
    pub fn draw_many(&mut self, count: usize) -> (r: Vec<usize>)
        requires
            old(self).wf(),
        ensures
            final(self).wf(),
            final(self).cards() == old(self).cards(),
            r@.len() == count,
            forall|i: int| 0 <= i < count ==> #[trigger] r@[i] < old(self).cards().len(),
    {
        let mut r: Vec<usize> = Vec::new();
        let mut k: usize = 0;
        while k < count
            invariant
                self.wf(),
                self.cards() == old(self).cards(),
                0 <= k <= count,
                r@.len() == k,
                forall|i: int| 0 <= i < k ==> #[trigger] r@[i] < old(self).cards().len(),
            decreases count - k,
        {
            let i = self.get_fac(false);
            r.push(i);
            k = k + 1;
        }
        r
    }
}

} // verus!
