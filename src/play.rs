use vstd::prelude::*;

use crate::fac::{FacCard, FacData, FacManager, RunNum};
use crate::game::{GameState, Yard};

verus! {

#[derive(Debug, Clone, Copy, PartialEq, Eq, Structural)]
pub enum ResultType {
    Regular,
    TurnOver,
}

/// Which cards a play used, and whether a rare card came up early in it.
#[derive(Debug, Clone)]
pub struct CardResults {
    pub had_z: bool,
    pub cards_flipped: Vec<i32>,
}

/// The outcome of one play. `final_line` is where the play ended, measured from
/// the goal line of the team that had the ball when it started.
#[derive(Debug, Clone)]
pub struct PlayResult {
    pub result_type: ResultType,
    pub result: Yard,
    pub final_line: Yard,
    pub time: i32,
    pub details: Vec<String>,
    pub mechanic: Vec<String>,
    pub extra: Option<String>,
    pub cards: CardResults,
}

/// The card source of one play: it hands out ordinary cards only, skipping the
/// rare special cards, notes whether one came up before the play had used three
/// ordinary cards, and records the id of every ordinary card it handed out.
pub struct CardStreamer {
    pub fac_deck: FacManager,
    pub cards_flipped: Vec<i32>,
    pub had_z: bool,
    /// The ordinary cards handed out so far, in order.
    pub drawn: Ghost<Seq<FacData>>,
}

impl CardStreamer {
    pub open spec fn wf(&self) -> bool {
        self.fac_deck.wf()
    }

    /// The ordinary card at position `i` of the deck.
    pub open spec fn data_at(&self, i: int) -> FacData {
        self.fac_deck.cards()[i]->Data_0
    }

    pub open spec fn is_data(&self, i: int) -> bool {
        0 <= i < self.fac_deck.cards().len() && self.fac_deck.cards()[i].is_ordinary()
    }

    /// A fresh stream for one play over `fac_deck`.
    pub fn new(fac_deck: FacManager) -> (r: CardStreamer)
        ensures
            r.fac_deck == fac_deck,
            r.cards_flipped@ == Seq::<i32>::empty(),
            !r.had_z,
            r.drawn@ == Seq::<FacData>::empty(),
    {
        CardStreamer { fac_deck, cards_flipped: Vec::new(), had_z: false, drawn: Ghost(Seq::empty()) }
    }

    /// Draws until an ordinary card comes up and returns its position in the
    /// deck. Special cards are skipped; one that comes up before three ordinary
    /// cards were handed out in this play sets `had_z`.
    pub fn get_fac(&mut self) -> (r: usize)
        requires
            old(self).wf(),
        ensures
            final(self).wf(),
            final(self).fac_deck.cards() == old(self).fac_deck.cards(),
            final(self).is_data(r as int),
            final(self).data_at(r as int).wf(),
            final(self).cards_flipped@ == old(self).cards_flipped@.push(final(self).data_at(r as int).id),
            final(self).drawn@ == old(self).drawn@.push(final(self).data_at(r as int)),
            final(self).drawn@.drop_last() == old(self).drawn@,
            exists|skipped: Seq<usize>|
                {
                    &&& final(self).fac_deck.history() == old(self).fac_deck.history() + skipped.push(r)
                    &&& forall|k: int|
                        0 <= k < skipped.len() ==> !(#[trigger] old(self).fac_deck.cards()[skipped[k] as int]).is_ordinary()
                    &&& final(self).had_z == (old(self).had_z || (old(self).cards_flipped@.len() < 3 && skipped.len() > 0))
                },
    {
        let ghost start = self.fac_deck.cards();
        let ghost mut skipped: Seq<usize> = Seq::empty();
        loop
            invariant
                self.wf(),
                self.fac_deck.cards() == start,
                start == old(self).fac_deck.cards(),
                self.cards_flipped@ == old(self).cards_flipped@,
                self.drawn == old(self).drawn,
                self.fac_deck.history() == old(self).fac_deck.history() + skipped,
                forall|k: int| 0 <= k < skipped.len() ==> !(#[trigger] start[skipped[k] as int]).is_ordinary(),
                self.had_z == (old(self).had_z || (old(self).cards_flipped@.len() < 3 && skipped.len() > 0)),
            decreases self.fac_deck.draws_to_data(),
        {
            let i = self.fac_deck.get_fac(false);
            match self.fac_deck.card(i) {
                FacCard::Z => {
                    if self.cards_flipped.len() < 3 {
                        self.had_z = true;
                    }
                    proof {
                        let prev = skipped;
                        skipped = skipped.push(i);
                        assert(self.fac_deck.history() =~= old(self).fac_deck.history() + skipped);
                        assert forall|k: int| 0 <= k < skipped.len() implies !(#[trigger] start[skipped[k] as int]).is_ordinary() by {
                            if k < prev.len() {
                                assert(skipped[k] == prev[k]);
                            }
                        }
                    }
                },
                FacCard::Data(c) => {
                    proof {
                        assert(self.fac_deck.cards()[i as int].wf());
                    }
                    self.cards_flipped.push(c.id);
                    proof {
                        self.drawn@ = self.drawn@.push(self.fac_deck.cards()[i as int]->Data_0);
                        assert(self.drawn@.drop_last() =~= old(self).drawn@);
                        assert(self.fac_deck.history() =~= old(self).fac_deck.history() + skipped.push(i));
                    }
                    return i;
                },
            }
        }
    }

    /// The ordinary card at position `i` of the deck.
    pub fn card(&self, i: usize) -> (r: &FacData)
        requires
            self.is_data(i as int),
        ensures
            *r == self.data_at(i as int),
    {
        match self.fac_deck.card(i) {
            FacCard::Data(c) => c,
            FacCard::Z => vstd::pervasive::unreached(),
        }
    }

    pub fn get_results(&self) -> (r: CardResults)
        ensures
            r.had_z == self.had_z,
            r.cards_flipped@ == self.cards_flipped@,
    {
        let flipped = self.cards_flipped.clone();
        proof {
            assert(flipped@ =~= self.cards_flipped@);
        }
        CardResults { had_z: self.had_z, cards_flipped: flipped }
    }

    /// Gives the deck back once the play is over.
    pub fn into_deck(self) -> (r: FacManager)
        ensures
            r == self.fac_deck,
    {
        self.fac_deck
    }
}

/// The narrative and the mechanics of one play, written as the play resolves,
/// together with the play's card stream and the state the play starts from.
pub struct PlayUtils {
    pub details: Vec<String>,
    pub mechanics: Vec<String>,
    pub cards: CardStreamer,
    pub state: GameState,
}

/// `label` followed by the decimal text of `v`.
pub(crate) fn labeled(label: &str, v: i32) -> String {
    let mut s = label.to_owned();
    s.append(v.to_string().as_str());
    s
}

impl PlayUtils {
    pub open spec fn wf(&self) -> bool {
        self.cards.wf()
    }

    pub fn new(state: GameState, cards: CardStreamer) -> (r: PlayUtils)
        ensures
            r.cards == cards,
            r.state == state,
    {
        PlayUtils { details: Vec::new(), mechanics: Vec::new(), cards, state }
    }

    /// Draws an ordinary card and returns its position in the deck.
    pub fn get_fac(&mut self) -> (r: usize)
        requires
            old(self).wf(),
        ensures
            final(self).wf(),
            final(self).state == old(self).state,
            final(self).cards.fac_deck.cards() == old(self).cards.fac_deck.cards(),
            final(self).cards.is_data(r as int),
            final(self).cards.data_at(r as int).wf(),
            final(self).cards.drawn@ == old(self).cards.drawn@.push(final(self).cards.data_at(r as int)),
            final(self).cards.drawn@.drop_last() == old(self).cards.drawn@,
            final(self).cards.cards_flipped@ == old(self).cards.cards_flipped@.push(final(self).cards.data_at(r as int).id),
            final(self).details == old(self).details,
    {
        let i = self.cards.get_fac();
        let id = self.cards.card(i).id;
        self.mechanic(labeled("Card Flipped: ", id));
        i
    }

    /// The pass number of a fresh card.
    pub fn get_pass_num(&mut self) -> (r: i32)
        requires
            old(self).wf(),
        ensures
            final(self).wf(),
            final(self).state == old(self).state,
            final(self).cards.fac_deck.cards() == old(self).cards.fac_deck.cards(),
            1 <= r <= 12,
            final(self).cards.drawn@.len() == old(self).cards.drawn@.len() + 1,
            final(self).cards.drawn@.drop_last() == old(self).cards.drawn@,
            r == final(self).cards.drawn@.last().pass_num,
            final(self).cards.cards_flipped@ == old(self).cards.cards_flipped@.push(final(self).cards.drawn@.last().id),
            final(self).details == old(self).details,
    {
        let i = self.get_fac();
        let pass_num = self.cards.card(i).pass_num;
        self.mechanic(labeled("Pass Num: ", pass_num));
        pass_num
    }

    /// The run number of a fresh card.
    pub fn get_run_num(&mut self) -> (r: i32)
        requires
            old(self).wf(),
        ensures
            final(self).wf(),
            final(self).state == old(self).state,
            final(self).cards.fac_deck.cards() == old(self).cards.fac_deck.cards(),
            1 <= r <= 12,
            final(self).cards.drawn@.len() == old(self).cards.drawn@.len() + 1,
            final(self).cards.drawn@.drop_last() == old(self).cards.drawn@,
            r == final(self).cards.drawn@.last().run_num.num,
            final(self).cards.cards_flipped@ == old(self).cards.cards_flipped@.push(final(self).cards.drawn@.last().id),
            final(self).details == old(self).details,
    {
        self.get_full_run_num().num
    }

    /// The run number of a fresh card, with its out-of-bounds mark.
    pub fn get_full_run_num(&mut self) -> (r: RunNum)
        requires
            old(self).wf(),
        ensures
            final(self).wf(),
            final(self).state == old(self).state,
            final(self).cards.fac_deck.cards() == old(self).cards.fac_deck.cards(),
            1 <= r.num <= 12,
            final(self).cards.drawn@.len() == old(self).cards.drawn@.len() + 1,
            final(self).cards.drawn@.drop_last() == old(self).cards.drawn@,
            r == final(self).cards.drawn@.last().run_num,
            final(self).cards.cards_flipped@ == old(self).cards.cards_flipped@.push(final(self).cards.drawn@.last().id),
            final(self).details == old(self).details,
    {
        let i = self.get_fac();
        let run_num = self.cards.card(i).run_num;
        self.mechanic(labeled("Run Num: ", run_num.num));
        run_num
    }

    pub fn mechanic(&mut self, msg: String)
        ensures
            final(self).cards == old(self).cards,
            final(self).state == old(self).state,
            final(self).details == old(self).details,
            final(self).mechanics@ == old(self).mechanics@.push(msg),
            final(self).cards.drawn == old(self).cards.drawn,
    {
        self.mechanics.push(msg);
    }

    pub fn detail(&mut self, msg: String)
        ensures
            final(self).cards == old(self).cards,
            final(self).state == old(self).state,
            final(self).mechanics == old(self).mechanics,
            final(self).details@ == old(self).details@.push(msg),
            final(self).cards.drawn == old(self).cards.drawn,
    {
        self.details.push(msg);
    }

    /// The play's record so far: its logs and cards, with a regular outcome of
    /// no gain for the resolver to fill in.
    pub fn result(&self) -> (r: PlayResult)
        ensures
            r.result_type == ResultType::Regular,
            r.result == 0,
            r.final_line == 0,
            r.time == 0,
            r.cards.had_z == self.cards.had_z,
            r.cards.cards_flipped@ == self.cards.cards_flipped@,
            r.details@ == self.details@,
            r.mechanic@ == self.mechanics@,
            r.extra is None,
    {
        let details = self.details.clone();
        let mechanic = self.mechanics.clone();
        proof {
            assert(details@ =~= self.details@);
            assert(mechanic@ =~= self.mechanics@);
        }
        PlayResult {
            details,
            mechanic,
            extra: None,
            cards: self.cards.get_results(),
            result_type: ResultType::Regular,
            result: 0,
            final_line: 0,
            time: 0,
        }
    }

    /// A finished result: `result` yards gained, so the play ends that far from
    /// where it started.
    pub fn create_result(&self, result: i32, result_type: ResultType, time: i32) -> (r: PlayResult)
        requires
            -100000 <= result <= 100000,
            -10000 <= self.state.yardline <= 10000,
        ensures
            r.result_type == result_type,
            r.result == result,
            r.final_line == result + self.state.yardline,
            r.time == time,
            r.cards.had_z == self.cards.had_z,
            r.cards.cards_flipped@ == self.cards.cards_flipped@,
            r.details@ == self.details@,
            r.mechanic@ == self.mechanics@,
    {
        PlayResult { result_type, result, final_line: result + self.state.yardline, time, ..self.result() }
    }

    /// Gives the card stream back once the play is over.
    pub fn into_cards(self) -> (r: CardStreamer)
        ensures
            r == self.cards,
    {
        self.cards
    }
}

/// Whether `fin` begins with `start`.
pub open spec fn extends<A>(fin: Seq<A>, start: Seq<A>) -> bool {
    fin.len() >= start.len() && fin.subrange(0, start.len() as int) == start
}

/// What `fin` holds after `start`.
pub open spec fn fresh<A>(fin: Seq<A>, start: Seq<A>) -> Seq<A> {
    fin.skip(start.len() as int)
}

/// Draws made one after another: the later ones follow the earlier ones.
pub proof fn lemma_extends_trans<A>(a: Seq<A>, b: Seq<A>, c: Seq<A>)
    requires
        extends(b, a),
        extends(c, b),
    ensures
        extends(c, a),
        fresh(c, a) == fresh(b, a) + fresh(c, b),
{
    assert(c.subrange(0, a.len() as int) =~= a) by {
        assert forall|k: int| 0 <= k < a.len() implies c.subrange(0, a.len() as int)[k] == a[k] by {
            assert(c[k] == c.subrange(0, b.len() as int)[k]);
            assert(b[k] == b.subrange(0, a.len() as int)[k]);
        }
    }
    assert(fresh(c, a) =~= fresh(b, a) + fresh(c, b)) by {
        assert forall|k: int| 0 <= k < fresh(c, a).len() implies fresh(c, a)[k] == (fresh(b, a) + fresh(c, b))[k] by {
            if k < b.len() - a.len() {
                assert(c[a.len() + k] == c.subrange(0, b.len() as int)[a.len() + k]);
            }
        }
    }
}

/// One card drawn on top of `a`.
pub proof fn lemma_extends_push<A>(a: Seq<A>, b: Seq<A>)
    requires
        b.len() == a.len() + 1,
        b.drop_last() == a,
    ensures
        extends(b, a),
        fresh(b, a) == seq![b.last()],
{
    assert(b.subrange(0, a.len() as int) =~= a);
    assert(fresh(b, a) =~= seq![b.last()]);
}

/// No card drawn.
pub proof fn lemma_extends_same<A>(a: Seq<A>)
    ensures
        extends(a, a),
        fresh(a, a) == Seq::<A>::empty(),
{
    assert(a.subrange(0, a.len() as int) =~= a);
    assert(fresh(a, a) =~= Seq::<A>::empty());
}

/// A card drawn on top of `a`, then more cards: the card comes first among
/// the fresh ones, the later draws after it.
pub proof fn lemma_extends_step<A>(a: Seq<A>, b: Seq<A>, c: Seq<A>)
    requires
        b.len() == a.len() + 1,
        b.drop_last() == a,
        extends(c, b),
    ensures
        extends(c, a),
        fresh(c, a).len() == fresh(c, b).len() + 1,
        fresh(c, a)[0] == b.last(),
        fresh(c, a).skip(1) == fresh(c, b),
{
    lemma_extends_push(a, b);
    lemma_extends_trans(a, b, c);
    assert(fresh(c, a).skip(1) =~= fresh(c, b));
}

} // verus!
