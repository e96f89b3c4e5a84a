use vstd::prelude::*;

use crate::stats::{num_stat_of, LabeledStat, NumStat, Range, RangedStats, TwelveStats};
use crate::text::{char_from, find_char, pieces, split_text, text_is, trim_text, trimmed};
use crate::standard_play::{PassResult, PassRushResult};

verus! {

/// The largest size of a rating or of a yardage in an ability table.
pub const RATING_LIMIT: i32 = 100;

pub open spec fn rating_ok(v: i32) -> bool {
    -RATING_LIMIT <= v <= RATING_LIMIT
}

pub open spec fn num_stat_ok(s: NumStat) -> bool {
    match s {
        NumStat::Val(v) => rating_ok(v),
        _ => true,
    }
}

#[derive(Debug, Clone)]
pub struct TeamID {
    pub name: String,
    pub year: String,
}

/// A team name with the known misspellings of the rating files mended.
pub open spec fn mended_name(s: Seq<char>) -> Seq<char> {
    if s == "N.Y.Giants"@ {
        "N.Y. Giants"@
    } else if s == "NY Giants"@ {
        "N.Y. Giants"@
    } else if s == "SanDiego"@ {
        "San Diego"@
    } else if s == "NewOrleans"@ {
        "New Orleans"@
    } else if s == "SanFran"@ {
        "San Francisco"@
    } else if s == "St.Louis"@ {
        "St. Louis"@
    } else if s == "NewEngland"@ {
        "New England"@
    } else if s == "N.Y.Jets"@ {
        "N.Y. Jets"@
    } else if s == "NY Jets"@ {
        "N.Y. Jets"@
    } else if s == "KansasCity"@ {
        "Kansas City"@
    } else if s == "L.A.Raiders"@ {
        "L.A. Raiders"@
    } else if s == "L.A.Rams"@ {
        "L.A. Rams"@
    } else if s == "LA Raiders"@ {
        "L.A. Raiders"@
    } else if s == "LA Rams"@ {
        "L.A. Rams"@
    } else if s == "Balimore"@ {
        "Baltimore"@
    } else if s == "Cincinatti"@ {
        "Cincinnati"@
    } else {
        s
    }
}

fn mend_name(s: &str) -> (r: String)
    ensures
        r@ == mended_name(s@),
{
    if text_is(s, "N.Y.Giants") {
        "N.Y. Giants".to_owned()
    } else if text_is(s, "NY Giants") {
        "N.Y. Giants".to_owned()
    } else if text_is(s, "SanDiego") {
        "San Diego".to_owned()
    } else if text_is(s, "NewOrleans") {
        "New Orleans".to_owned()
    } else if text_is(s, "SanFran") {
        "San Francisco".to_owned()
    } else if text_is(s, "St.Louis") {
        "St. Louis".to_owned()
    } else if text_is(s, "NewEngland") {
        "New England".to_owned()
    } else if text_is(s, "N.Y.Jets") {
        "N.Y. Jets".to_owned()
    } else if text_is(s, "NY Jets") {
        "N.Y. Jets".to_owned()
    } else if text_is(s, "KansasCity") {
        "Kansas City".to_owned()
    } else if text_is(s, "L.A.Raiders") {
        "L.A. Raiders".to_owned()
    } else if text_is(s, "L.A.Rams") {
        "L.A. Rams".to_owned()
    } else if text_is(s, "LA Raiders") {
        "L.A. Raiders".to_owned()
    } else if text_is(s, "LA Rams") {
        "L.A. Rams".to_owned()
    } else if text_is(s, "Balimore") {
        "Baltimore".to_owned()
    } else if text_is(s, "Cincinatti") {
        "Cincinnati".to_owned()
    } else {
        s.to_owned()
    }
}

impl TeamID {
    /// Reads "year name" (around the text's whitespace): the year is what comes
    /// before the first space, the name what follows it ("Omaha" when nothing
    /// does), with its known misspellings mended.
    pub fn create_from_str(instr: &str) -> (r: TeamID)
        ensures
            ({
                let t = trimmed(instr@);
                let d = char_from(t, ' ', 0);
                &&& r.year@ == t.subrange(0, d)
                &&& r.name@ == mended_name(if d < t.len() { t.skip(d + 1) } else { "Omaha"@ })
            }),
    {
        let t = trim_text(instr);
        let n = t.unicode_len();
        let d = find_char(t, ' ', 0);
        let year = t.substring_char(0, d).to_owned();
        let name = if d < n {
            let rest = t.substring_char(d + 1, n);
            proof {
                assert(rest@ =~= t@.skip(d + 1));
            }
            mend_name(rest)
        } else {
            mend_name("Omaha")
        };
        TeamID { name, year }
    }
}

#[derive(Debug, Clone, Copy, PartialEq, Eq, Structural)]
pub enum Position {
    QB,
    RB,
    WR,
    TE,
    DB,
    LB,
    DL,
    OL,
    K,
    KR,
    P,
    PR,
}

/// Gain entries under a few labels, such as the run gain "N" of a rushing table.
#[derive(Debug, Clone)]
pub struct TripleStat {
    pub stats: LabeledStat<NumStat>,
}

impl TripleStat {
    pub open spec fn wf(&self) -> bool {
        &&& self.stats.wf()
        &&& forall|i: int| 0 <= i < self.stats.values@.len() ==> num_stat_ok(#[trigger] self.stats.values@[i])
    }

    pub open spec fn lookup(&self, label: Seq<char>) -> Option<NumStat> {
        self.stats.lookup(label)
    }

    /// Builds the entry from labels "a/b/c" and values "x/y/z": up to three
    /// values, each under the label in the same place; none when a value has
    /// no label or a label comes twice.
    pub fn create_from_str(labels: String, val: &str) -> (r: Option<TripleStat>)
        ensures
            ({
                let ls = pieces(labels@, '/');
                let vs = pieces(val@, '/');
                let k = if vs.len() < 3 { vs.len() as int } else { 3 };
                &&& r is None <==> (ls.len() < k || exists|i: int, j: int| 0 <= i < j < k && ls[i] == ls[j])
                &&& r matches Some(t) ==> t.stats.wf() && t.stats.labels@.len() == k && forall|i: int|
                    0 <= i < k ==> #[trigger] t.stats.labels@[i]@ == ls[i] && t.stats.values@[i] == num_stat_of(vs[i])
            }),
    {
        let ls = split_text(labels.as_str(), '/');
        let vs = split_text(val, '/');
        let ghost lv = ls@.map_values(|t: String| t@);
        let ghost vv = vs@.map_values(|t: String| t@);
        let k: usize = if vs.len() < 3 { vs.len() } else { 3 };
        if ls.len() < k {
            return None;
        }
        let mut names: Vec<String> = Vec::new();
        let mut values: Vec<NumStat> = Vec::new();
        let mut i: usize = 0;
        while i < k
            invariant
                k <= ls@.len(),
                k <= vs@.len(),
                lv == ls@.map_values(|t: String| t@),
                vv == vs@.map_values(|t: String| t@),
                0 <= i <= k,
                names@.len() == i,
                values@.len() == i,
                forall|j: int| 0 <= j < i ==> (#[trigger] names@[j])@ == lv[j] && values@[j] == num_stat_of(vv[j]),
            decreases k - i,
        {
            proof {
                assert(lv[i as int] == ls@[i as int]@);
                assert(vv[i as int] == vs@[i as int]@);
            }
            names.push(ls[i].clone());
            values.push(NumStat::gen_from_str(vs[i].as_str()));
            i = i + 1;
        }
        match LabeledStat::create(names, values) {
            Ok(stats) => {
                let t = TripleStat { stats };
                proof {
                    assert forall|a: int, b: int| 0 <= a < b < k implies lv[a] != lv[b] by {
                        assert(t.stats.labels@[a]@ != t.stats.labels@[b]@);
                    }
                }
                Some(t)
            },
            Err(_) => {
                proof {
                    let (a, b) = choose|a: int, b: int|
                        0 <= a < names@.len() && 0 <= b < names@.len() && a != b && #[trigger] names@[a]@
                            == #[trigger] names@[b]@;
                    if a < b {
                        assert(lv[a] == lv[b]);
                    } else {
                        assert(lv[b] == lv[a]);
                    }
                }
                None
            },
        }
    }

    pub fn get_val(&self, cat: String) -> (r: Option<&NumStat>)
        requires
            self.wf(),
        ensures
            r matches Some(v) ==> self.lookup(cat@) == Some(*v) && num_stat_ok(*v),
            r is None ==> self.lookup(cat@) is None,
    {
        let r = self.stats.get_val(cat);
        proof {
            if r is Some {
                let i = choose|i: int| 0 <= i < self.stats.labels@.len() && #[trigger] self.stats.labels@[i]@ == cat@;
                assert(num_stat_ok(self.stats.values@[i]));
            }
        }
        r
    }
}

pub type PassGain = TwelveStats<TripleStat>;

pub open spec fn gain_table_ok(t: TwelveStats<TripleStat>) -> bool {
    &&& t.wf()
    &&& forall|i: int| 0 <= i < 12 ==> (#[trigger] t.stats@[i]).wf()
}

pub open spec fn num_table_ok(t: TwelveStats<NumStat>) -> bool {
    &&& t.wf()
    &&& forall|i: int| 0 <= i < 12 ==> num_stat_ok(#[trigger] t.stats@[i])
}

#[derive(Debug, Clone)]
pub struct QBStats {
    pub team: TeamID,
    pub name: String,
    pub id: String,
    pub position: Position,
    pub endurance: char,
    pub quick: RangedStats<PassResult>,
    pub short: RangedStats<PassResult>,
    pub long: RangedStats<PassResult>,
    pub long_run: char,
    pub pass_rush: RangedStats<PassRushResult>,
    pub endurance_rushing: i32,
    pub rushing: TwelveStats<NumStat>,
}

#[derive(Debug, Clone)]
pub struct RBStats {
    pub team: TeamID,
    pub name: String,
    pub id: String,
    pub position: Position,
    pub rushing: TwelveStats<TripleStat>,
    pub pass_gain: PassGain,
    pub lg: char,
    pub blocks: i32,
}

#[derive(Debug, Clone)]
pub struct WRStats {
    pub team: TeamID,
    pub name: String,
    pub id: String,
    pub position: Position,
    pub rushing: TwelveStats<TripleStat>,
    pub pass_gain: PassGain,
    pub end: i32,
    pub lg: char,
    pub blocks: i32,
}

#[derive(Debug, Clone)]
pub struct DBStats {
    pub team: TeamID,
    pub name: String,
    pub id: String,
    pub position: Position,
    pub pass_def: i32,
    pub pass_rush: i32,
    pub intercepts: Range,
}

#[derive(Debug, Clone)]
pub struct LBStats {
    pub team: TeamID,
    pub name: String,
    pub id: String,
    pub position: Position,
    pub tackles: i32,
    pub pass_rush: i32,
    pub pass_def: i32,
    pub intercepts: Range,
}

#[derive(Debug, Clone)]
pub struct DLStats {
    pub team: TeamID,
    pub name: String,
    pub id: String,
    pub position: Position,
    pub tackles: i32,
    pub pass_rush: i32,
}

#[derive(Debug, Clone)]
pub struct TEStats {
    pub team: TeamID,
    pub name: String,
    pub id: String,
    pub position: Position,
    pub rushing: TwelveStats<TripleStat>,
    pub pass_gain: PassGain,
    pub blocks: i32,
    pub long_rush: char,
}

#[derive(Debug, Clone)]
pub struct OLStats {
    pub team: TeamID,
    pub name: String,
    pub id: String,
    pub position: Position,
    pub blocks: i32,
    pub pass_block: i32,
}

#[derive(Debug, Clone)]
pub struct KStats {
    pub team: TeamID,
    pub name: String,
    pub id: String,
    pub position: Position,
}

#[derive(Debug, Clone)]
pub struct PStats {
    pub team: TeamID,
    pub name: String,
    pub id: String,
    pub position: Position,
}

/// One entry of a kick return table: yards, and whether a second draw of 1 or 2
/// turns it into the returner's long return.
#[derive(Debug, Clone, Copy, PartialEq, Eq, Structural)]
pub struct ReturnStat {
    pub yards: i32,
    pub asterisk: bool,
}

/// A returner of a kick return chart: one with a table of its own, or a
/// reference to another returner of the same chart, counted from one.
#[derive(Debug, Clone)]
pub enum Returner {
    SameAs(i32),
    Actual { name: String, return_stats: TwelveStats<ReturnStat>, asterisk_val: i32 },
}

#[derive(Debug, Clone)]
pub struct KRStats {
    pub team: TeamID,
    pub name: String,
    pub id: String,
    pub position: Position,
    pub returners: Vec<Returner>,
}

#[derive(Debug, Clone)]
pub struct PRStats {
    pub team: TeamID,
    pub name: String,
    pub id: String,
    pub position: Position,
    pub returners: Vec<Returner>,
}

#[derive(Debug, Clone)]
pub struct TeamStats {
    pub team: TeamID,
    pub position: Position,
    pub big_play_home: i32,
    pub big_play_road: i32,
    pub fumbles_lost: Range,
    pub def_adj: i32,
}

#[derive(Debug, Clone)]
pub enum Player {
    QB(QBStats),
    RB(RBStats),
    WR(WRStats),
    TE(TEStats),
    DB(DBStats),
    LB(LBStats),
    DL(DLStats),
    OL(OLStats),
    K(KStats),
    KR(KRStats),
    P(PStats),
    PR(PRStats),
}

/// A player's run blocking; zero for those who do not block.
pub open spec fn blocks_of(p: Player) -> i32 {
    match p {
        Player::OL(s) => s.blocks,
        Player::RB(s) => s.blocks,
        Player::WR(s) => s.blocks,
        Player::TE(s) => s.blocks,
        _ => 0,
    }
}

/// A player's tackling; zero for those who do not tackle.
pub open spec fn tackles_of(p: Player) -> i32 {
    match p {
        Player::DL(s) => s.tackles,
        Player::LB(s) => s.tackles,
        _ => 0,
    }
}

/// A player's pass defense; zero for those who do not cover.
pub open spec fn pass_defense_of(p: Player) -> i32 {
    match p {
        Player::DB(s) => s.pass_def,
        Player::LB(s) => s.pass_def,
        _ => 0,
    }
}

/// A player's pass rush; zero for those who do not rush.
pub open spec fn pass_rush_of(p: Player) -> i32 {
    match p {
        Player::DB(s) => s.pass_rush,
        Player::LB(s) => s.pass_rush,
        Player::DL(s) => s.pass_rush,
        _ => 0,
    }
}

/// A player's pass blocking; zero for those who are not linemen.
pub open spec fn pass_block_of(p: Player) -> i32 {
    match p {
        Player::OL(s) => s.pass_block,
        _ => 0,
    }
}

/// The pass gain table of a player who can catch a pass.
pub open spec fn pass_gain_of(p: Player) -> Option<PassGain> {
    match p {
        Player::RB(s) => Some(s.pass_gain),
        Player::WR(s) => Some(s.pass_gain),
        Player::TE(s) => Some(s.pass_gain),
        _ => None,
    }
}

impl Player {
    /// Ratings and tables within the sizes that the engine's arithmetic allows.
    pub open spec fn wf(&self) -> bool {
        &&& rating_ok(blocks_of(*self))
        &&& rating_ok(tackles_of(*self))
        &&& rating_ok(pass_defense_of(*self))
        &&& rating_ok(pass_rush_of(*self))
        &&& rating_ok(pass_block_of(*self))
        &&& match *self {
            Player::QB(s) => s.quick.wf() && s.short.wf() && s.long.wf() && s.pass_rush.wf() && num_table_ok(
                s.rushing,
            ),
            Player::RB(s) => gain_table_ok(s.rushing) && gain_table_ok(s.pass_gain) && 'A' <= s.lg <= 'Z',
            Player::WR(s) => gain_table_ok(s.rushing) && gain_table_ok(s.pass_gain),
            Player::TE(s) => gain_table_ok(s.rushing) && gain_table_ok(s.pass_gain),
            _ => true,
        }
    }

    pub fn is_qb(val: Player) -> (r: Option<QBStats>)
        ensures
            val matches Player::QB(s) ==> r == Some(s),
            !(val is QB) ==> r is None,
    {
        if let Player::QB(v) = val {
            return Some(v);
        }
        None
    }

    pub fn is_rb(val: Player) -> (r: Option<RBStats>)
        ensures
            val matches Player::RB(s) ==> r == Some(s),
            !(val is RB) ==> r is None,
    {
        if let Player::RB(v) = val {
            return Some(v);
        }
        None
    }

    pub fn is_wr(val: Player) -> (r: Option<WRStats>)
        ensures
            val matches Player::WR(s) ==> r == Some(s),
            !(val is WR) ==> r is None,
    {
        if let Player::WR(v) = val {
            return Some(v);
        }
        None
    }

    pub fn is_te(val: Player) -> (r: Option<TEStats>)
        ensures
            val matches Player::TE(s) ==> r == Some(s),
            !(val is TE) ==> r is None,
    {
        if let Player::TE(v) = val {
            return Some(v);
        }
        None
    }

    pub fn is_ol(val: Player) -> (r: Option<OLStats>)
        ensures
            val matches Player::OL(s) ==> r == Some(s),
            !(val is OL) ==> r is None,
    {
        if let Player::OL(v) = val {
            return Some(v);
        }
        None
    }

    pub fn is_dl(val: Player) -> (r: Option<DLStats>)
        ensures
            val matches Player::DL(s) ==> r == Some(s),
            !(val is DL) ==> r is None,
    {
        if let Player::DL(v) = val {
            return Some(v);
        }
        None
    }

    pub fn is_lb(val: Player) -> (r: Option<LBStats>)
        ensures
            val matches Player::LB(s) ==> r == Some(s),
            !(val is LB) ==> r is None,
    {
        if let Player::LB(v) = val {
            return Some(v);
        }
        None
    }

    pub fn is_db(val: Player) -> (r: Option<DBStats>)
        ensures
            val matches Player::DB(s) ==> r == Some(s),
            !(val is DB) ==> r is None,
    {
        if let Player::DB(v) = val {
            return Some(v);
        }
        None
    }

    /// The position of the player's kind.
    pub fn get_pos(&self) -> (r: Position)
        ensures
            r == position_of(*self),
    {
        match self {
            Player::QB(_) => Position::QB,
            Player::RB(_) => Position::RB,
            Player::WR(_) => Position::WR,
            Player::TE(_) => Position::TE,
            Player::DB(_) => Position::DB,
            Player::LB(_) => Position::LB,
            Player::DL(_) => Position::DL,
            Player::OL(_) => Position::OL,
            Player::K(_) => Position::K,
            Player::KR(_) => Position::KR,
            Player::P(_) => Position::P,
            Player::PR(_) => Position::PR,
        }
    }

    pub fn get_id(&self) -> (r: &String)
        ensures
            r == id_of(*self),
    {
        match self {
            Player::QB(s) => &s.id,
            Player::RB(s) => &s.id,
            Player::WR(s) => &s.id,
            Player::TE(s) => &s.id,
            Player::DB(s) => &s.id,
            Player::LB(s) => &s.id,
            Player::DL(s) => &s.id,
            Player::OL(s) => &s.id,
            Player::K(s) => &s.id,
            Player::KR(s) => &s.id,
            Player::P(s) => &s.id,
            Player::PR(s) => &s.id,
        }
    }
}

pub open spec fn position_of(p: Player) -> Position {
    match p {
        Player::QB(_) => Position::QB,
        Player::RB(_) => Position::RB,
        Player::WR(_) => Position::WR,
        Player::TE(_) => Position::TE,
        Player::DB(_) => Position::DB,
        Player::LB(_) => Position::LB,
        Player::DL(_) => Position::DL,
        Player::OL(_) => Position::OL,
        Player::K(_) => Position::K,
        Player::KR(_) => Position::KR,
        Player::P(_) => Position::P,
        Player::PR(_) => Position::PR,
    }
}

pub open spec fn id_of(p: Player) -> String {
    match p {
        Player::QB(s) => s.id,
        Player::RB(s) => s.id,
        Player::WR(s) => s.id,
        Player::TE(s) => s.id,
        Player::DB(s) => s.id,
        Player::LB(s) => s.id,
        Player::DL(s) => s.id,
        Player::OL(s) => s.id,
        Player::K(s) => s.id,
        Player::KR(s) => s.id,
        Player::P(s) => s.id,
        Player::PR(s) => s.id,
    }
}

/// The ratings that the play resolvers read from a player.
pub struct PlayerUtils {}

impl PlayerUtils {
    pub fn get_blocks(player: Option<&Player>) -> (r: i32)
        ensures
            r == match player {
                Some(p) => blocks_of(*p),
                None => 0,
            },
    {
        match player {
            Some(p) => match p {
                Player::OL(s) => s.blocks,
                Player::RB(s) => s.blocks,
                Player::WR(s) => s.blocks,
                Player::TE(s) => s.blocks,
                _ => 0,
            },
            None => 0,
        }
    }

    pub fn get_tackles(player: &Player) -> (r: i32)
        ensures
            r == tackles_of(*player),
    {
        match player {
            Player::DL(s) => s.tackles,
            Player::LB(s) => s.tackles,
            _ => 0,
        }
    }

    pub fn get_pass_defense(player: &Player) -> (r: i32)
        ensures
            r == pass_defense_of(*player),
    {
        match player {
            Player::DB(s) => s.pass_def,
            Player::LB(s) => s.pass_def,
            _ => 0,
        }
    }

    pub fn get_pass_rush(player: &Player) -> (r: i32)
        ensures
            r == pass_rush_of(*player),
    {
        match player {
            Player::DB(s) => s.pass_rush,
            Player::LB(s) => s.pass_rush,
            Player::DL(s) => s.pass_rush,
            _ => 0,
        }
    }

    pub fn get_pass_block(player: &Player) -> (r: i32)
        ensures
            r == pass_block_of(*player),
    {
        match player {
            Player::OL(s) => s.pass_block,
            _ => 0,
        }
    }

    pub fn get_pass_gain(player: Option<&Player>) -> (r: Option<&PassGain>)
        ensures
            match player {
                Some(p) => match (r, pass_gain_of(*p)) {
                    (Some(a), Some(b)) => *a == b,
                    (None, None) => true,
                    _ => false,
                },
                None => r is None,
            },
    {
        match player {
            Some(p) => match p {
                Player::RB(s) => Some(&s.pass_gain),
                Player::WR(s) => Some(&s.pass_gain),
                Player::TE(s) => Some(&s.pass_gain),
                _ => None,
            },
            None => None,
        }
    }
}

} // verus!
