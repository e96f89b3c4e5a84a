use vstd::prelude::*;

use crate::players::{id_of, position_of, Player, Position};

verus! {

/// A position of the offensive formation; each holds at most one player.
#[derive(Debug, Clone, Copy, PartialEq, Eq, Structural)]
pub enum OffensiveBox {
    QB,
    B1,
    B2,
    B3,
    RE,
    LE,
    FL1,
    FL2,
    LT,
    LG,
    C,
    RG,
    RT,
}

/// A box of the defensive formation: A to E form the first row, F to J the
/// second, K to O the third.
#[derive(Debug, Clone, Copy, PartialEq, Eq, Structural)]
pub enum DefensiveBox {
    BoxA,
    BoxB,
    BoxC,
    BoxD,
    BoxE,
    BoxF,
    BoxG,
    BoxH,
    BoxI,
    BoxJ,
    BoxK,
    BoxL,
    BoxM,
    BoxN,
    BoxO,
}

impl OffensiveBox {
    /// The positions that can catch a pass.
    pub fn get_receiver_spots() -> (r: Vec<OffensiveBox>)
        ensures
            r@ == seq![
                OffensiveBox::FL1,
                OffensiveBox::FL2,
                OffensiveBox::LE,
                OffensiveBox::RE,
                OffensiveBox::B1,
                OffensiveBox::B2,
                OffensiveBox::B3,
            ],
    {
        let r = vec![
            OffensiveBox::FL1,
            OffensiveBox::FL2,
            OffensiveBox::LE,
            OffensiveBox::RE,
            OffensiveBox::B1,
            OffensiveBox::B2,
            OffensiveBox::B3,
        ];
        proof {
            assert(r@ =~= seq![
                OffensiveBox::FL1,
                OffensiveBox::FL2,
                OffensiveBox::LE,
                OffensiveBox::RE,
                OffensiveBox::B1,
                OffensiveBox::B2,
                OffensiveBox::B3,
            ]);
        }
        r
    }
}

/// Whether some text of `ids` equals `id`.
pub open spec fn listed(ids: Seq<String>, id: String) -> bool {
    exists|i: int| 0 <= i < ids.len() && #[trigger] ids[i]@ == id@
}

/// The players of `s` whose id `ids` does not list, in order.
pub open spec fn kept(s: Seq<Player>, ids: Seq<String>) -> Seq<Player>
    decreases s.len(),
{
    if s.len() == 0 {
        Seq::empty()
    } else {
        let rest = kept(s.drop_last(), ids);
        if listed(ids, id_of(s.last())) {
            rest
        } else {
            rest.push(s.last())
        }
    }
}

/// Whether `ids` lists `id`.
pub fn is_listed(ids: &Vec<String>, id: &String) -> (r: bool)
    ensures
        r == listed(ids@, *id),
{
    let mut i: usize = 0;
    while i < ids.len()
        invariant
            0 <= i <= ids@.len(),
            forall|j: int| 0 <= j < i ==> #[trigger] ids@[j]@ != id@,
        decreases ids@.len() - i,
    {
        if ids[i] == *id {
            return true;
        }
        i = i + 1;
    }
    false
}

/// The players of `v` whose id `ids` does not list, in order.
fn remove_listed(v: Vec<Player>, ids: &Vec<String>) -> (r: Vec<Player>)
    ensures
        r@ == kept(v@, ids@),
{
    let ghost orig = v@;
    let mut v = v;
    let mut out: Vec<Player> = Vec::new();
    let ghost mut i: int = 0;
    while v.len() > 0
        invariant
            0 <= i <= orig.len(),
            v@ == orig.skip(i),
            out@ == kept(orig.take(i), ids@),
        decreases v@.len(),
    {
        let p = v.remove(0);
        proof {
            assert(orig.take(i + 1).drop_last() =~= orig.take(i));
            assert(orig.take(i + 1).last() == p);
            assert(orig.skip(i + 1) =~= v@);
        }
        if !is_listed(ids, p.get_id()) {
            out.push(p);
        }
        proof {
            i = i + 1;
        }
    }
    proof {
        assert(orig.take(i) =~= orig);
    }
    out
}

/// The offense's players by position; the quarterback and the five linemen are
/// always there.
#[derive(Debug, Clone)]
pub struct StandardOffensiveLineup {
    pub le: Option<Player>,
    pub re: Option<Player>,
    pub fl1: Option<Player>,
    pub fl2: Option<Player>,
    pub qb: Player,
    pub b1: Option<Player>,
    pub b2: Option<Player>,
    pub b3: Option<Player>,
    pub lt: Player,
    pub lg: Player,
    pub c: Player,
    pub rg: Player,
    pub rt: Player,
}

pub open spec fn opt_kind(p: Option<Player>, allowed: Set<Position>) -> bool {
    match p {
        Some(q) => allowed.contains(position_of(q)) && q.wf(),
        None => true,
    }
}

pub open spec fn kind(p: Player, pos: Position) -> bool {
    position_of(p) == pos && p.wf()
}

pub open spec fn occupied(p: Option<Player>) -> int {
    if p is Some { 1 } else { 0 }
}

impl StandardOffensiveLineup {
    /// Each position holds a player of a kind that may stand there.
    pub open spec fn wf(&self) -> bool {
        &&& opt_kind(self.le, set![Position::TE, Position::WR, Position::RB])
        &&& opt_kind(self.re, set![Position::TE, Position::WR, Position::RB])
        &&& opt_kind(self.fl1, set![Position::WR, Position::RB])
        &&& opt_kind(self.fl2, set![Position::WR, Position::RB])
        &&& kind(self.qb, Position::QB)
        &&& opt_kind(self.b1, set![Position::RB])
        &&& opt_kind(self.b2, set![Position::RB])
        &&& opt_kind(self.b3, set![Position::RB])
        &&& kind(self.lt, Position::OL)
        &&& kind(self.lg, Position::OL)
        &&& kind(self.c, Position::OL)
        &&& kind(self.rg, Position::OL)
        &&& kind(self.rt, Position::OL)
    }

    /// The player at `spot`, if any.
    pub open spec fn at(&self, spot: OffensiveBox) -> Option<Player> {
        match spot {
            OffensiveBox::QB => Some(self.qb),
            OffensiveBox::B1 => self.b1,
            OffensiveBox::B2 => self.b2,
            OffensiveBox::B3 => self.b3,
            OffensiveBox::RE => self.re,
            OffensiveBox::LE => self.le,
            OffensiveBox::FL1 => self.fl1,
            OffensiveBox::FL2 => self.fl2,
            OffensiveBox::LT => Some(self.lt),
            OffensiveBox::LG => Some(self.lg),
            OffensiveBox::C => Some(self.c),
            OffensiveBox::RG => Some(self.rg),
            OffensiveBox::RT => Some(self.rt),
        }
    }

    /// One to three backs, both ends, and as many flankers as the backs leave
    /// room for among three.
    pub open spec fn legal(&self) -> bool {
        let backs = occupied(self.b1) + occupied(self.b2) + occupied(self.b3);
        &&& 1 <= backs <= 3
        &&& self.le is Some
        &&& self.re is Some
        &&& occupied(self.fl1) + occupied(self.fl2) == 3 - backs
    }

    pub fn get_player_in_pos(&self, spot: &OffensiveBox) -> (r: Option<&Player>)
        ensures
            match r {
                Some(p) => self.at(*spot) == Some(*p),
                None => self.at(*spot) is None,
            },
    {
        match spot {
            OffensiveBox::QB => Some(&self.qb),
            OffensiveBox::B1 => self.b1.as_ref(),
            OffensiveBox::B2 => self.b2.as_ref(),
            OffensiveBox::B3 => self.b3.as_ref(),
            OffensiveBox::RE => self.re.as_ref(),
            OffensiveBox::LE => self.le.as_ref(),
            OffensiveBox::FL1 => self.fl1.as_ref(),
            OffensiveBox::FL2 => self.fl2.as_ref(),
            OffensiveBox::LT => Some(&self.lt),
            OffensiveBox::LG => Some(&self.lg),
            OffensiveBox::C => Some(&self.c),
            OffensiveBox::RG => Some(&self.rg),
            OffensiveBox::RT => Some(&self.rt),
        }
    }

    pub fn is_legal_lineup(&self) -> (r: Result<(), String>)
        ensures
            r is Ok <==> self.legal(),
    {
        let b_count = LineupUtilities::count_spots(&self.b1) + LineupUtilities::count_spots(&self.b2)
            + LineupUtilities::count_spots(&self.b3);
        LineupUtilities::validate_count(b_count, 1, 3, "Invalid number of Backs")?;
        LineupUtilities::validate_count(LineupUtilities::count_spots(&self.le), 1, 1, "Only one Left End")?;
        LineupUtilities::validate_count(LineupUtilities::count_spots(&self.re), 1, 1, "Only one Right End")?;
        let flanker_count = LineupUtilities::count_spots(&self.fl1) + LineupUtilities::count_spots(&self.fl2);
        let remaining_spots = 3 - b_count;
        LineupUtilities::validate_count(flanker_count, remaining_spots, remaining_spots, "Invalid number of Flankers")?;
        Ok(())
    }
}

pub enum DefensiveRow {
    Row1,
    Row2,
    Row3,
}

/// The position of a box among the fifteen, from A.
pub open spec fn box_index(b: DefensiveBox) -> int {
    match b {
        DefensiveBox::BoxA => 0,
        DefensiveBox::BoxB => 1,
        DefensiveBox::BoxC => 2,
        DefensiveBox::BoxD => 3,
        DefensiveBox::BoxE => 4,
        DefensiveBox::BoxF => 5,
        DefensiveBox::BoxG => 6,
        DefensiveBox::BoxH => 7,
        DefensiveBox::BoxI => 8,
        DefensiveBox::BoxJ => 9,
        DefensiveBox::BoxK => 10,
        DefensiveBox::BoxL => 11,
        DefensiveBox::BoxM => 12,
        DefensiveBox::BoxN => 13,
        DefensiveBox::BoxO => 14,
    }
}

fn box_position(b: &DefensiveBox) -> (r: usize)
    ensures
        r == box_index(*b),
{
    match b {
        DefensiveBox::BoxA => 0,
        DefensiveBox::BoxB => 1,
        DefensiveBox::BoxC => 2,
        DefensiveBox::BoxD => 3,
        DefensiveBox::BoxE => 4,
        DefensiveBox::BoxF => 5,
        DefensiveBox::BoxG => 6,
        DefensiveBox::BoxH => 7,
        DefensiveBox::BoxI => 8,
        DefensiveBox::BoxJ => 9,
        DefensiveBox::BoxK => 10,
        DefensiveBox::BoxL => 11,
        DefensiveBox::BoxM => 12,
        DefensiveBox::BoxN => 13,
        DefensiveBox::BoxO => 14,
    }
}

fn box_at(i: usize) -> (r: DefensiveBox)
    requires
        i < 15,
    ensures
        box_index(r) == i,
{
    match i {
        0 => DefensiveBox::BoxA,
        1 => DefensiveBox::BoxB,
        2 => DefensiveBox::BoxC,
        3 => DefensiveBox::BoxD,
        4 => DefensiveBox::BoxE,
        5 => DefensiveBox::BoxF,
        6 => DefensiveBox::BoxG,
        7 => DefensiveBox::BoxH,
        8 => DefensiveBox::BoxI,
        9 => DefensiveBox::BoxJ,
        10 => DefensiveBox::BoxK,
        11 => DefensiveBox::BoxL,
        12 => DefensiveBox::BoxM,
        13 => DefensiveBox::BoxN,
        _ => DefensiveBox::BoxO,
    }
}

/// Whether the box at position `i` takes a single player: all of rows two and
/// three but box L.
pub open spec fn single_box(i: int) -> bool {
    5 <= i < 15 && i != 11
}

/// The defense's players by box, A to O.
#[derive(Debug, Clone)]
pub struct StandardDefensiveLineup {
    pub boxes: Vec<Vec<Player>>,
}

impl StandardDefensiveLineup {
    /// Fifteen boxes of at most eleven players; the single boxes hold at most
    /// one, every player is well formed.
    pub open spec fn wf(&self) -> bool {
        &&& self.boxes@.len() == 15
        &&& forall|i: int| 0 <= i < 15 ==> (#[trigger] self.boxes@[i])@.len() <= 11
        &&& forall|i: int| 0 <= i < 15 && single_box(i) ==> (#[trigger] self.boxes@[i])@.len() <= 1
        &&& forall|i: int, j: int|
            0 <= i < 15 && 0 <= j < self.boxes@[i]@.len() ==> (#[trigger] self.boxes@[i]@[j]).wf()
    }

    pub open spec fn in_box(&self, b: DefensiveBox) -> Seq<Player> {
        self.boxes@[box_index(b)]@
    }

    pub open spec fn count(&self, i: int) -> int {
        self.boxes@[i]@.len() as int
    }

    pub open spec fn row1_count(&self) -> int {
        self.count(0) + self.count(1) + self.count(2) + self.count(3) + self.count(4)
    }

    pub open spec fn row2_count(&self) -> int {
        self.count(5) + self.count(6) + self.count(7) + self.count(8) + self.count(9)
    }

    pub open spec fn row3_count(&self) -> int {
        self.count(10) + self.count(11) + self.count(12) + self.count(13) + self.count(14)
    }

    /// Eleven players: three to ten in the first row with at most three a box,
    /// and box L used only once K, M, N and O are all filled.
    pub open spec fn legal(&self) -> bool {
        &&& forall|i: int| 0 <= i < 5 ==> #[trigger] self.count(i) <= 3
        &&& 3 <= self.row1_count() <= 10
        &&& self.row1_count() + self.row2_count() <= 11
        &&& self.count(11) > 0 ==> self.count(10) + self.count(12) + self.count(13) + self.count(14) >= 4
        &&& self.row3_count() == 11 - (self.row1_count() + self.row2_count())
    }

    pub fn get_players_in_pos(&self, spot: &DefensiveBox) -> (r: &Vec<Player>)
        requires
            self.wf(),
        ensures
            r@ == self.in_box(*spot),
    {
        &self.boxes[box_position(spot)]
    }

    fn box_len(&self, i: usize) -> (r: i32)
        requires
            self.wf(),
            i < 15,
        ensures
            r == self.count(i as int),
            single_box(i as int) ==> r <= 1,
    {
        proof {
            assert(self.boxes@[i as int]@.len() <= 11);
            assert(single_box(i as int) ==> self.boxes@[i as int]@.len() <= 1);
        }
        self.boxes[i].len() as i32
    }

    /// The number of players in a row; the first row counts as empty when one
    /// of its boxes holds more than three.
    pub fn get_count_in_row(&self, row: DefensiveRow) -> (r: i32)
        requires
            self.wf(),
        ensures
            row is Row1 ==> r == (if forall|i: int| 0 <= i < 5 ==> #[trigger] self.count(i) <= 3 {
                self.row1_count()
            } else {
                0
            }),
            row is Row2 ==> r == self.row2_count(),
            row is Row3 ==> r == self.row3_count(),
    {
        match row {
            DefensiveRow::Row1 => {
                let a = self.box_len(0);
                let b = self.box_len(1);
                let c = self.box_len(2);
                let d = self.box_len(3);
                let e = self.box_len(4);
                if a > 3 || b > 3 || c > 3 || d > 3 || e > 3 {
                    proof {
                        assert(!(forall|i: int| 0 <= i < 5 ==> #[trigger] self.count(i) <= 3)) by {
                            if a > 3 { assert(self.count(0) > 3); }
                            if b > 3 { assert(self.count(1) > 3); }
                            if c > 3 { assert(self.count(2) > 3); }
                            if d > 3 { assert(self.count(3) > 3); }
                            if e > 3 { assert(self.count(4) > 3); }
                        }
                    }
                    return 0;
                }
                proof {
                    assert forall|i: int| 0 <= i < 5 implies #[trigger] self.count(i) <= 3 by {
                        if i == 0 { assert(self.count(0) == a); }
                        if i == 1 { assert(self.count(1) == b); }
                        if i == 2 { assert(self.count(2) == c); }
                        if i == 3 { assert(self.count(3) == d); }
                        if i == 4 { assert(self.count(4) == e); }
                    }
                }
                a + b + c + d + e
            },
            DefensiveRow::Row2 => self.box_len(5) + self.box_len(6) + self.box_len(7) + self.box_len(8)
                + self.box_len(9),
            DefensiveRow::Row3 => self.box_len(10) + self.box_len(11) + self.box_len(12) + self.box_len(13)
                + self.box_len(14),
        }
    }

    pub fn is_legal_lineup(&self) -> (r: Result<(), String>)
        requires
            self.wf(),
        ensures
            r is Ok <==> self.legal(),
    {
        let mut i: usize = 0;
        while i < 5
            invariant
                self.wf(),
                0 <= i <= 5,
                forall|j: int| 0 <= j < i ==> #[trigger] self.count(j) <= 3,
            decreases 5 - i,
        {
            if self.boxes[i].len() > 3 {
                return Err("Only 3 allowed in a First Row Box".to_string());
            }
            i = i + 1;
        }
        let row1_spots = self.get_count_in_row(DefensiveRow::Row1);
        LineupUtilities::validate_count(row1_spots, 3, 10, "Need between 3-10 in First Row")?;
        let row2_spots = self.get_count_in_row(DefensiveRow::Row2);
        let remaining_row3_spots = 11 - (row2_spots + row1_spots);
        if remaining_row3_spots < 0 {
            return Err("Too many Lineman and Linebackers".to_string());
        }
        let non_box_l_db_count = self.box_len(10) + self.box_len(12) + self.box_len(13) + self.box_len(14);
        let l_count = self.box_len(11);
        if l_count > 0 && non_box_l_db_count < 4 {
            return Err("Can only put in Box L after the other 4 Row 3 spots are full".to_string());
        }
        LineupUtilities::validate_count(
            non_box_l_db_count + l_count,
            remaining_row3_spots,
            remaining_row3_spots,
            "Improper secondary size",
        )?;
        Ok(())
    }

    /// The first box, from A, that holds the player `id`.
    pub fn find_player(&self, id: &String) -> (r: Option<DefensiveBox>)
        requires
            self.wf(),
        ensures
            match r {
                Some(b) => (exists|j: int|
                    0 <= j < self.in_box(b).len() && #[trigger] id_of(self.in_box(b)[j])@ == id@) && forall|i: int, j: int|
                    0 <= i < box_index(b) && 0 <= j < self.boxes@[i]@.len() ==> #[trigger] id_of(self.boxes@[i]@[j])@ != id@,
                None => forall|i: int, j: int|
                    0 <= i < 15 && 0 <= j < self.boxes@[i]@.len() ==> #[trigger] id_of(self.boxes@[i]@[j])@ != id@,
            },
    {
        let mut i: usize = 0;
        while i < 15
            invariant
                self.wf(),
                0 <= i <= 15,
                forall|a: int, j: int|
                    0 <= a < i && 0 <= j < self.boxes@[a]@.len() ==> #[trigger] id_of(self.boxes@[a]@[j])@ != id@,
            decreases 15 - i,
        {
            let players = &self.boxes[i];
            let mut j: usize = 0;
            while j < players.len()
                invariant
                    self.wf(),
                    0 <= i < 15,
                    players@ == self.boxes@[i as int]@,
                    0 <= j <= players@.len(),
                    forall|a: int, k: int|
                        0 <= a < i && 0 <= k < self.boxes@[a]@.len() ==> #[trigger] id_of(self.boxes@[a]@[k])@ != id@,
                    forall|k: int| 0 <= k < j ==> #[trigger] id_of(players@[k])@ != id@,
                decreases players@.len() - j,
            {
                if *players[j].get_id() == *id {
                    let b = box_at(i);
                    proof {
                        assert(id_of(self.in_box(b)[j as int])@ == id@);
                    }
                    return Some(b);
                }
                j = j + 1;
            }
            i = i + 1;
        }
        None
    }

    /// The lineup without the players that `ids` lists, each box keeping its order.
    pub fn filter_players(self, ids: &Vec<String>) -> (r: Self)
        requires
            self.wf(),
        ensures
            r.wf(),
            forall|b: DefensiveBox| #[trigger] r.in_box(b) == kept(self.in_box(b), ids@),
    {
        let ghost orig = self.boxes@;
        let mut old_boxes = self.boxes;
        let mut boxes: Vec<Vec<Player>> = Vec::new();
        let mut i: usize = 0;
        while old_boxes.len() > 0
            invariant
                orig.len() == 15,
                0 <= i <= 15,
                old_boxes@ == orig.skip(i as int),
                boxes@.len() == i,
                forall|k: int| 0 <= k < i ==> (#[trigger] boxes@[k])@ == kept(orig[k]@, ids@),
            decreases old_boxes@.len(),
        {
            let v = old_boxes.remove(0);
            proof {
                assert(v == orig[i as int]);
                assert(orig.skip(i as int + 1) =~= old_boxes@);
            }
            boxes.push(remove_listed(v, ids));
            i = i + 1;
        }
        let r = StandardDefensiveLineup { boxes };
        proof {
            assert forall|k: int| 0 <= k < 15 implies (#[trigger] r.boxes@[k])@.len() <= orig[k]@.len() by {
                lemma_kept_len(orig[k]@, ids@);
            }
            assert forall|k: int, j: int| 0 <= k < 15 && 0 <= j < r.boxes@[k]@.len() implies (#[trigger] r.boxes@[k]@[j]).wf() by {
                lemma_kept_from(orig[k]@, ids@, j);
            }
        }
        r
    }
}

proof fn lemma_kept_len(s: Seq<Player>, ids: Seq<String>)
    ensures
        kept(s, ids).len() <= s.len(),
    decreases s.len(),
{
    if s.len() > 0 {
        lemma_kept_len(s.drop_last(), ids);
    }
}

proof fn lemma_kept_from(s: Seq<Player>, ids: Seq<String>, j: int)
    requires
        0 <= j < kept(s, ids).len(),
    ensures
        exists|k: int| 0 <= k < s.len() && s[k] == #[trigger] kept(s, ids)[j],
    decreases s.len(),
{
    let rest = kept(s.drop_last(), ids);
    if j < rest.len() {
        lemma_kept_from(s.drop_last(), ids, j);
        let k = choose|k: int| 0 <= k < s.drop_last().len() && s.drop_last()[k] == #[trigger] rest[j];
        assert(s[k] == kept(s, ids)[j]);
    } else {
        assert(s[s.len() - 1] == kept(s, ids)[j]);
    }
}

pub proof fn lemma_offense_player_wf(off: StandardOffensiveLineup, b: OffensiveBox)
    requires
        off.wf(),
    ensures
        off.at(b) matches Some(p) ==> p.wf(),
{
}

pub proof fn lemma_box_player_wf(def: StandardDefensiveLineup, b: DefensiveBox, j: int)
    requires
        def.wf(),
        0 <= j < def.in_box(b).len(),
    ensures
        def.in_box(b)[j].wf(),
{
    assert(def.boxes@[box_index(b)]@[j].wf());
}

/// A team's players.
#[derive(Debug, Clone)]
pub struct Roster {
    pub team_name: crate::players::TeamID,
    pub players: Vec<Player>,
}

/// The position of the first player of `ps` whose id is `id`.
pub open spec fn first_with_id(ps: Seq<Player>, id: Seq<char>) -> Option<int> {
    if exists|i: int| 0 <= i < ps.len() && #[trigger] id_of(ps[i])@ == id {
        Some(choose|i: int| 0 <= i < ps.len() && #[trigger] id_of(ps[i])@ == id && forall|j: int| 0 <= j < i ==> id_of(ps[j])@ != id)
    } else {
        None
    }
}

impl Roster {
    /// The first player of the roster with id `id`.
    pub fn get_player(&self, id: &String) -> (r: Option<&Player>)
        ensures
            match r {
                Some(p) => first_with_id(self.players@, id@) matches Some(i) && *p == self.players@[i],
                None => first_with_id(self.players@, id@) is None,
            },
    {
        let mut i: usize = 0;
        while i < self.players.len()
            invariant
                0 <= i <= self.players@.len(),
                forall|j: int| 0 <= j < i ==> id_of(#[trigger] self.players@[j])@ != id@,
            decreases self.players@.len() - i,
        {
            if *self.players[i].get_id() == *id {
                proof {
                    let k = choose|k: int|
                        0 <= k < self.players@.len() && #[trigger] id_of(self.players@[k])@ == id@ && forall|j: int|
                            0 <= j < k ==> id_of(self.players@[j])@ != id@;
                    assert(id_of(self.players@[i as int])@ == id@);
                    if k < i {
                        assert(id_of(self.players@[k])@ != id@);
                    }
                    if k > i {
                        assert(id_of(self.players@[i as int])@ != id@);
                    }
                }
                return Some(&self.players[i]);
            }
            i = i + 1;
        }
        None
    }
}

/// The kinds of player that a position of a lineup takes.
#[derive(Debug, Clone, Copy, PartialEq, Eq, Structural)]
pub enum SlotKind {
    Quarterback,
    Back,
    End,
    Flanker,
    Lineman,
    FrontRow,
    Linebacker,
    Secondary,
}

pub open spec fn kind_allows(k: SlotKind, p: Position) -> bool {
    match k {
        SlotKind::Quarterback => p == Position::QB,
        SlotKind::Back => p == Position::RB,
        SlotKind::End => p == Position::TE || p == Position::WR || p == Position::RB,
        SlotKind::Flanker => p == Position::WR || p == Position::RB,
        SlotKind::Lineman => p == Position::OL,
        SlotKind::FrontRow => p == Position::DL || p == Position::LB,
        SlotKind::Linebacker => p == Position::LB,
        SlotKind::Secondary => p == Position::DB,
    }
}

fn allows(k: SlotKind, p: Position) -> (r: bool)
    ensures
        r == kind_allows(k, p),
{
    match k {
        SlotKind::Quarterback => p == Position::QB,
        SlotKind::Back => p == Position::RB,
        SlotKind::End => p == Position::TE || p == Position::WR || p == Position::RB,
        SlotKind::Flanker => p == Position::WR || p == Position::RB,
        SlotKind::Lineman => p == Position::OL,
        SlotKind::FrontRow => p == Position::DL || p == Position::LB,
        SlotKind::Linebacker => p == Position::LB,
        SlotKind::Secondary => p == Position::DB,
    }
}

/// Whether the roster has a player `id` of a kind that `kind` takes.
pub open spec fn id_fits(team: Roster, id: String, kind: SlotKind) -> bool {
    match first_with_id(team.players@, id@) {
        Some(i) => kind_allows(kind, position_of(team.players@[i])),
        None => false,
    }
}

/// The id of the player, if any.
pub open spec fn id_opt(p: Option<Player>) -> Option<String> {
    match p {
        Some(q) => Some(id_of(q)),
        None => None,
    }
}

/// The offense's lineup by player id.
#[derive(Debug, Clone)]
pub struct StandardIDOffenseLineup {
    pub le: Option<String>,
    pub re: Option<String>,
    pub fl1: Option<String>,
    pub fl2: Option<String>,
    pub qb: Option<String>,
    pub b1: Option<String>,
    pub b2: Option<String>,
    pub b3: Option<String>,
    pub lt: Option<String>,
    pub lg: Option<String>,
    pub c: Option<String>,
    pub rg: Option<String>,
    pub rt: Option<String>,
}

/// The defense's lineup by player id, box A to O.
#[derive(Debug, Clone)]
pub struct StandardIDDefenseLineup {
    pub boxes: Vec<Vec<String>>,
}

#[derive(Debug, Clone)]
pub struct KickoffIDOffenseLineup {
    pub k: String,
}

#[derive(Debug, Clone)]
pub struct KickoffIDDefenseLineup {
    pub kr: String,
}

/// Whether an optional position's id, when given, names a player that fits.
pub open spec fn opt_fits(team: Roster, id: Option<String>, kind: SlotKind) -> bool {
    match id {
        Some(i) => id_fits(team, i, kind),
        None => true,
    }
}

/// Whether a required position's id is given and names a player that fits.
pub open spec fn req_fits(team: Roster, id: Option<String>, kind: SlotKind) -> bool {
    match id {
        Some(i) => id_fits(team, i, kind),
        None => false,
    }
}

/// The kind of player that box `i` takes.
pub open spec fn box_kind(i: int) -> SlotKind {
    if i < 5 {
        SlotKind::FrontRow
    } else if i < 10 {
        SlotKind::Linebacker
    } else {
        SlotKind::Secondary
    }
}

fn kind_of_box(i: usize) -> (r: SlotKind)
    ensures
        r == box_kind(i as int),
{
    if i < 5 {
        SlotKind::FrontRow
    } else if i < 10 {
        SlotKind::Linebacker
    } else {
        SlotKind::Secondary
    }
}

/// The roster's player `id`; meaningful when the roster has one.
pub open spec fn roster_player(team: Roster, id: String) -> Player {
    team.players@[first_with_id(team.players@, id@)->Some_0]
}

/// Whether a lineup position holds a copy of the roster's player for its id,
/// and is empty when no id is given.
pub open spec fn slot_from(team: Roster, id: Option<String>, p: Option<Player>) -> bool {
    match (id, p) {
        (Some(i), Some(q)) => cloned(roster_player(team, i), q),
        (None, None) => true,
        _ => false,
    }
}

/// A copy of the roster's player `id` when it fits `kind`.
fn player_for(team: &Roster, id: &String, kind: SlotKind) -> (r: Result<Player, String>)
    ensures
        r is Ok <==> id_fits(*team, *id, kind),
        r matches Ok(p) ==> cloned(roster_player(*team, *id), p),
{
    match team.get_player(id) {
        Some(p) => {
            if allows(kind, p.get_pos()) {
                Ok(p.clone())
            } else {
                Err("Not a valid type for the position".to_owned())
            }
        },
        None => Err("No such player".to_owned()),
    }
}

impl LineupUtilities {
    pub fn get_player_from_id_or_err(id_opt: &Option<String>, team: &Roster, kind: SlotKind) -> (r: Result<
        Player,
        String,
    >)
        ensures
            r is Ok <==> req_fits(*team, *id_opt, kind),
            r matches Ok(p) ==> cloned(roster_player(*team, id_opt->Some_0), p),
    {
        match id_opt {
            Some(id) => player_for(team, id, kind),
            None => Err("Missing player".to_owned()),
        }
    }

    pub fn get_option_player_from_id(id_opt: &Option<String>, team: &Roster, kind: SlotKind) -> (r: Result<
        Option<Player>,
        String,
    >)
        ensures
            r is Ok <==> opt_fits(*team, *id_opt, kind),
            r matches Ok(p) ==> slot_from(*team, *id_opt, p),
    {
        match id_opt {
            Some(id) => {
                let p = player_for(team, id, kind)?;
                Ok(Some(p))
            },
            None => Ok(None),
        }
    }

    pub fn get_id_from_player(player: &Option<Player>) -> (r: Option<String>)
        ensures
            r == id_opt(*player),
    {
        match player {
            Some(p) => Some(p.get_id().clone()),
            None => None,
        }
    }

    /// Copies of the roster's players `ids`, when each fits `kind`.
    pub fn transform_vector(ids: &Vec<String>, team: &Roster, kind: SlotKind) -> (r: Result<Vec<Player>, String>)
        ensures
            r is Ok <==> forall|i: int| 0 <= i < ids@.len() ==> #[trigger] id_fits(*team, ids@[i], kind),
            r matches Ok(v) ==> v@.len() == ids@.len() && forall|i: int|
                0 <= i < ids@.len() ==> cloned(roster_player(*team, ids@[i]), #[trigger] v@[i]),
    {
        let mut out: Vec<Player> = Vec::new();
        let mut i: usize = 0;
        while i < ids.len()
            invariant
                0 <= i <= ids@.len(),
                out@.len() == i,
                forall|k: int| 0 <= k < i ==> #[trigger] id_fits(*team, ids@[k], kind),
                forall|k: int| 0 <= k < i ==> cloned(roster_player(*team, ids@[k]), #[trigger] out@[k]),
            decreases ids@.len() - i,
        {
            let p = player_for(team, &ids[i], kind)?;
            out.push(p);
            i = i + 1;
        }
        Ok(out)
    }
}

impl StandardOffensiveLineup {
    /// Looks up each position's player in the roster. Every required position
    /// (the quarterback and the linemen) must be given, and every given id
    /// must name a player of a kind that the position takes.
    pub fn create_lineup(id_lineup: &StandardIDOffenseLineup, team: &Roster) -> (r: Result<Self, String>)
        ensures
            r is Ok <==> {
                &&& req_fits(*team, id_lineup.qb, SlotKind::Quarterback)
                &&& opt_fits(*team, id_lineup.le, SlotKind::End)
                &&& opt_fits(*team, id_lineup.re, SlotKind::End)
                &&& opt_fits(*team, id_lineup.fl1, SlotKind::Flanker)
                &&& opt_fits(*team, id_lineup.fl2, SlotKind::Flanker)
                &&& opt_fits(*team, id_lineup.b1, SlotKind::Back)
                &&& opt_fits(*team, id_lineup.b2, SlotKind::Back)
                &&& opt_fits(*team, id_lineup.b3, SlotKind::Back)
                &&& req_fits(*team, id_lineup.lt, SlotKind::Lineman)
                &&& req_fits(*team, id_lineup.lg, SlotKind::Lineman)
                &&& req_fits(*team, id_lineup.c, SlotKind::Lineman)
                &&& req_fits(*team, id_lineup.rg, SlotKind::Lineman)
                &&& req_fits(*team, id_lineup.rt, SlotKind::Lineman)
            },
            r matches Ok(l) ==> {
                &&& cloned(roster_player(*team, id_lineup.qb->Some_0), l.qb)
                &&& cloned(roster_player(*team, id_lineup.lt->Some_0), l.lt)
                &&& cloned(roster_player(*team, id_lineup.lg->Some_0), l.lg)
                &&& cloned(roster_player(*team, id_lineup.c->Some_0), l.c)
                &&& cloned(roster_player(*team, id_lineup.rg->Some_0), l.rg)
                &&& cloned(roster_player(*team, id_lineup.rt->Some_0), l.rt)
                &&& slot_from(*team, id_lineup.le, l.le)
                &&& slot_from(*team, id_lineup.re, l.re)
                &&& slot_from(*team, id_lineup.fl1, l.fl1)
                &&& slot_from(*team, id_lineup.fl2, l.fl2)
                &&& slot_from(*team, id_lineup.b1, l.b1)
                &&& slot_from(*team, id_lineup.b2, l.b2)
                &&& slot_from(*team, id_lineup.b3, l.b3)
            },
    {
        let qb = LineupUtilities::get_player_from_id_or_err(&id_lineup.qb, team, SlotKind::Quarterback)?;
        let le = LineupUtilities::get_option_player_from_id(&id_lineup.le, team, SlotKind::End)?;
        let re = LineupUtilities::get_option_player_from_id(&id_lineup.re, team, SlotKind::End)?;
        let fl1 = LineupUtilities::get_option_player_from_id(&id_lineup.fl1, team, SlotKind::Flanker)?;
        let fl2 = LineupUtilities::get_option_player_from_id(&id_lineup.fl2, team, SlotKind::Flanker)?;
        let b1 = LineupUtilities::get_option_player_from_id(&id_lineup.b1, team, SlotKind::Back)?;
        let b2 = LineupUtilities::get_option_player_from_id(&id_lineup.b2, team, SlotKind::Back)?;
        let b3 = LineupUtilities::get_option_player_from_id(&id_lineup.b3, team, SlotKind::Back)?;
        let lt = LineupUtilities::get_player_from_id_or_err(&id_lineup.lt, team, SlotKind::Lineman)?;
        let lg = LineupUtilities::get_player_from_id_or_err(&id_lineup.lg, team, SlotKind::Lineman)?;
        let c = LineupUtilities::get_player_from_id_or_err(&id_lineup.c, team, SlotKind::Lineman)?;
        let rg = LineupUtilities::get_player_from_id_or_err(&id_lineup.rg, team, SlotKind::Lineman)?;
        let rt = LineupUtilities::get_player_from_id_or_err(&id_lineup.rt, team, SlotKind::Lineman)?;
        Ok(StandardOffensiveLineup { le, re, fl1, fl2, qb, b1, b2, b3, lt, lg, c, rg, rt })
    }

    /// The ids of the lineup's players, position by position.
    pub fn convert_to_id_lineup(&self) -> (r: StandardIDOffenseLineup)
        ensures
            r.qb == Some(id_of(self.qb)),
            r.lt == Some(id_of(self.lt)),
            r.lg == Some(id_of(self.lg)),
            r.c == Some(id_of(self.c)),
            r.rg == Some(id_of(self.rg)),
            r.rt == Some(id_of(self.rt)),
            r.le == id_opt(self.le),
            r.re == id_opt(self.re),
            r.fl1 == id_opt(self.fl1),
            r.fl2 == id_opt(self.fl2),
            r.b1 == id_opt(self.b1),
            r.b2 == id_opt(self.b2),
            r.b3 == id_opt(self.b3),
    {
        StandardIDOffenseLineup {
            le: LineupUtilities::get_id_from_player(&self.le),
            re: LineupUtilities::get_id_from_player(&self.re),
            fl1: LineupUtilities::get_id_from_player(&self.fl1),
            fl2: LineupUtilities::get_id_from_player(&self.fl2),
            qb: Some(self.qb.get_id().clone()),
            b1: LineupUtilities::get_id_from_player(&self.b1),
            b2: LineupUtilities::get_id_from_player(&self.b2),
            b3: LineupUtilities::get_id_from_player(&self.b3),
            lt: Some(self.lt.get_id().clone()),
            lg: Some(self.lg.get_id().clone()),
            c: Some(self.c.get_id().clone()),
            rg: Some(self.rg.get_id().clone()),
            rt: Some(self.rt.get_id().clone()),
        }
    }
}

impl StandardDefensiveLineup {
    /// Looks up each box's players in the roster: fifteen boxes, a single box
    /// of rows two and three with at most one id, at most eleven ids in any box,
    /// and every id naming a player of a kind that its row takes.
    pub fn create_lineup(id_lineup: &StandardIDDefenseLineup, team: &Roster) -> (r: Result<Self, String>)
        ensures
            r is Ok <==> {
                &&& id_lineup.boxes@.len() == 15
                &&& forall|i: int| 0 <= i < 15 ==> (#[trigger] id_lineup.boxes@[i])@.len() <= (if single_box(i) { 1int } else { 11 })
                &&& forall|i: int, j: int| 0 <= i < 15 && 0 <= j < id_lineup.boxes@[i]@.len() ==> #[trigger] id_fits(*team, id_lineup.boxes@[i]@[j], box_kind(i))
            },
            r matches Ok(l) ==> l.boxes@.len() == 15 && forall|i: int| 0 <= i < 15 ==> (#[trigger] l.boxes@[i])@.len() == id_lineup.boxes@[i]@.len(),
            r matches Ok(l) ==> forall|i: int, j: int|
                0 <= i < 15 && 0 <= j < id_lineup.boxes@[i]@.len() ==> cloned(
                    roster_player(*team, id_lineup.boxes@[i]@[j]),
                    #[trigger] l.boxes@[i]@[j],
                ),
    {
        if id_lineup.boxes.len() != 15 {
            return Err("Need fifteen boxes".to_owned());
        }
        let mut boxes: Vec<Vec<Player>> = Vec::new();
        let mut i: usize = 0;
        while i < 15
            invariant
                id_lineup.boxes@.len() == 15,
                0 <= i <= 15,
                boxes@.len() == i,
                forall|k: int| 0 <= k < i ==> (#[trigger] id_lineup.boxes@[k])@.len() <= (if single_box(k) { 1int } else { 11 }),
                forall|k: int, j: int| 0 <= k < i && 0 <= j < id_lineup.boxes@[k]@.len() ==> #[trigger] id_fits(*team, id_lineup.boxes@[k]@[j], box_kind(k)),
                forall|k: int| 0 <= k < i ==> (#[trigger] boxes@[k])@.len() == id_lineup.boxes@[k]@.len(),
                forall|k: int, j: int|
                    0 <= k < i && 0 <= j < id_lineup.boxes@[k]@.len() ==> cloned(
                        roster_player(*team, id_lineup.boxes@[k]@[j]),
                        #[trigger] boxes@[k]@[j],
                    ),
            decreases 15 - i,
        {
            let limit: usize = if i >= 5 && i != 11 { 1 } else { 11 };
            if id_lineup.boxes[i].len() > limit {
                return Err("Too many players in a box".to_owned());
            }
            let v = LineupUtilities::transform_vector(&id_lineup.boxes[i], team, kind_of_box(i))?;
            boxes.push(v);
            i = i + 1;
        }
        Ok(StandardDefensiveLineup { boxes })
    }

    /// The ids of the lineup's players, box by box.
    pub fn convert_to_id_lineup(&self) -> (r: StandardIDDefenseLineup)
        requires
            self.wf(),
        ensures
            r.boxes@.len() == 15,
            forall|i: int, j: int| 0 <= i < 15 && 0 <= j < self.boxes@[i]@.len() ==> (#[trigger] r.boxes@[i]@[j])
                == id_of(self.boxes@[i]@[j]),
            forall|i: int| 0 <= i < 15 ==> (#[trigger] r.boxes@[i])@.len() == self.boxes@[i]@.len(),
    {
        let mut boxes: Vec<Vec<String>> = Vec::new();
        let mut i: usize = 0;
        while i < 15
            invariant
                self.wf(),
                0 <= i <= 15,
                boxes@.len() == i,
                forall|k: int, j: int| 0 <= k < i && 0 <= j < self.boxes@[k]@.len() ==> (#[trigger] boxes@[k]@[j])
                    == id_of(self.boxes@[k]@[j]),
                forall|k: int| 0 <= k < i ==> (#[trigger] boxes@[k])@.len() == self.boxes@[k]@.len(),
            decreases 15 - i,
        {
            let players = &self.boxes[i];
            let mut ids: Vec<String> = Vec::new();
            let mut j: usize = 0;
            while j < players.len()
                invariant
                    0 <= j <= players@.len(),
                    ids@.len() == j,
                    forall|k: int| 0 <= k < j ==> (#[trigger] ids@[k]) == id_of(players@[k]),
                decreases players@.len() - j,
            {
                ids.push(players[j].get_id().clone());
                j = j + 1;
            }
            boxes.push(ids);
            i = i + 1;
        }
        StandardIDDefenseLineup { boxes }
    }
}

/// Counting and checking helpers of the lineups.
pub struct LineupUtilities {}

impl LineupUtilities {
    pub fn validate_count(actual: i32, low: i32, high: i32, msg: &str) -> (r: Result<(), String>)
        ensures
            r is Ok <==> low <= actual <= high,
    {
        if actual < low || actual > high {
            return Err(msg.to_string());
        }
        Ok(())
    }

    pub fn count_spots(pos: &Option<Player>) -> (r: i32)
        ensures
            r == occupied(*pos),
    {
        if pos.is_some() {
            1
        } else {
            0
        }
    }
}

} // verus!
