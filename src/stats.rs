use vstd::prelude::*;

use crate::text::{dash_from, find_dash, int_of, parse_i32, pieces, split_text, text_is, trim_text, trimmed};

verus! {

/// An inclusive range of card numbers; it is empty when `end < start`.
#[derive(Debug, Clone, Copy, PartialEq, Eq, Structural)]
pub struct Range {
    pub start: i32,
    pub end: i32,
}

impl Range {
    pub open spec fn contains(self, n: int) -> bool {
        self.start <= n <= self.end
    }

    /// The placeholder range used where a table gives none.
    pub fn new() -> (r: Range)
        ensures
            r.start == 49 && r.end == 49,
    {
        Range { start: 49, end: 49 }
    }

    /// Reads a range "a-b", or a single number "a" for the range a to a; a
    /// part that is not a number leaves the placeholder 49.
    pub fn from_str(instr: &str) -> (r: Range)
        ensures
            r == range_of_text(instr@),
    {
        let n = instr.unicode_len();
        let d1 = find_dash(instr, 0);
        let mut start: i32 = 49;
        let mut end: i32 = 49;
        if let Some(num) = parse_i32(instr, 0, d1) {
            start = num;
            end = num;
        }
        if d1 < n {
            let d2 = find_dash(instr, d1 + 1);
            if let Some(num) = parse_i32(instr, d1 + 1, d2) {
                end = num;
            }
        }
        Range { start, end }
    }

    /// Reads a table line "tag<splitter>range": the trimmed tag, and the range
    /// of the trimmed text after the first splitter (the placeholder range
    /// when the line has no splitter).
    pub fn get_tag_and_range(instr: &str, splitter: char) -> (r: (String, Range))
        ensures
            r.0@ == trimmed(pieces(instr@, splitter)[0]),
            pieces(instr@, splitter).len() == 1 ==> r.1 == (Range { start: 49, end: 49 }),
            pieces(instr@, splitter).len() > 1 ==> r.1 == range_of_text(trimmed(pieces(instr@, splitter)[1])),
    {
        let vals = split_text(instr, splitter);
        proof {
            assert(vals@.map_values(|t: String| t@).len() == vals@.len());
            lemma_pieces_nonempty(instr@, splitter);
            assert(vals@.map_values(|t: String| t@)[0] == vals@[0]@);
        }
        let tag = trim_text(vals[0].as_str()).to_owned();
        if vals.len() == 1 {
            return (tag, Range::new());
        }
        proof {
            assert(vals@.map_values(|t: String| t@)[1] == vals@[1]@);
        }
        let range = Range::from_str(trim_text(vals[1].as_str()));
        (tag, range)
    }

    pub fn in_range(&self, num: i32) -> (r: bool)
        ensures
            r == self.contains(num as int),
    {
        num >= self.start && num <= self.end
    }
}

/// The trimmed tag of a table line.
pub open spec fn line_tag(l: Seq<char>, c: char) -> Seq<char> {
    trimmed(pieces(l, c)[0])
}

/// The range of a table line; see `Range::get_tag_and_range`.
pub open spec fn line_range(l: Seq<char>, c: char) -> Range {
    if pieces(l, c).len() == 1 {
        Range { start: 49, end: 49 }
    } else {
        range_of_text(trimmed(pieces(l, c)[1]))
    }
}

/// The categories of the lines whose tag names one, in order.
pub open spec fn read_cats<T: Shiftable>(ls: Seq<&str>, c: char) -> Seq<T>
    decreases ls.len(),
{
    if ls.len() == 0 {
        Seq::empty()
    } else {
        let rest = read_cats::<T>(ls.drop_last(), c);
        match T::code_of(line_tag(ls.last()@, c)) {
            Some(k) => rest.push(k),
            None => rest,
        }
    }
}

/// The ranges of the lines whose tag names a category, in order.
pub open spec fn read_ranges<T: Shiftable>(ls: Seq<&str>, c: char) -> Seq<Range>
    decreases ls.len(),
{
    if ls.len() == 0 {
        Seq::empty()
    } else {
        let rest = read_ranges::<T>(ls.drop_last(), c);
        match T::code_of(line_tag(ls.last()@, c)) {
            Some(_) => rest.push(line_range(ls.last()@, c)),
            None => rest,
        }
    }
}

proof fn lemma_read_len<T: Shiftable>(ls: Seq<&str>, c: char)
    ensures
        read_cats::<T>(ls, c).len() == read_ranges::<T>(ls, c).len(),
    decreases ls.len(),
{
    if ls.len() > 0 {
        lemma_read_len::<T>(ls.drop_last(), c);
    }
}

proof fn lemma_pieces_nonempty(s: Seq<char>, c: char)
    ensures
        pieces(s, c).len() >= 1,
{
}

/// The range that the text `s` gives; see `Range::from_str`.
pub open spec fn range_of_text(s: Seq<char>) -> Range {
    let d1 = dash_from(s, 0);
    let first = int_of(s.subrange(0, d1));
    let start = match first {
        Some(v) => v,
        None => 49i32,
    };
    let second = if d1 < s.len() {
        int_of(s.subrange(d1 + 1, dash_from(s, d1 + 1)))
    } else {
        None
    };
    Range {
        start,
        end: match second {
            Some(v) => v,
            None => start,
        },
    }
}

/// The gain entry that the text `s` gives: "Sg", "Lg", or a number; any other
/// text gives no yards.
pub open spec fn num_stat_of(s: Seq<char>) -> NumStat {
    if s == seq!['S', 'g'] {
        NumStat::Sg
    } else if s == seq!['L', 'g'] {
        NumStat::Lg
    } else {
        match int_of(s) {
            Some(v) => NumStat::Val(v),
            None => NumStat::Val(0),
        }
    }
}

/// A gain entry of an ability table: a number of yards, or a short or long
/// gain that is settled by another draw.
#[derive(Debug, Clone, Copy, PartialEq, Eq, Structural)]
pub enum NumStat {
    Sg,
    Lg,
    Val(i32),
}

impl NumStat {
    /// Reads a gain entry; see `num_stat_of`.
    pub fn gen_from_str(val: &str) -> (r: NumStat)
        ensures
            r == num_stat_of(val@),
    {
        proof {
            reveal_strlit("Sg");
            reveal_strlit("Lg");
            assert("Sg"@ =~= seq!['S', 'g']);
            assert("Lg"@ =~= seq!['L', 'g']);
        }
        if text_is(val, "Sg") {
            NumStat::Sg
        } else if text_is(val, "Lg") {
            NumStat::Lg
        } else {
            let n = val.unicode_len();
            proof {
                assert(val@.subrange(0, n as int) =~= val@);
            }
            match parse_i32(val, 0, n) {
                Some(v) => NumStat::Val(v),
                None => NumStat::Val(0),
            }
        }
    }
}

/// A table with one entry for each number from 1 to 12.
#[derive(Debug, Clone)]
pub struct TwelveStats<T> {
    pub stats: Vec<T>,
}

impl<T> TwelveStats<T> {
    pub open spec fn wf(&self) -> bool {
        self.stats@.len() == 12
    }

    /// The entry of number `n`, counted from one.
    pub open spec fn at(&self, n: int) -> T {
        self.stats@[n - 1]
    }

    pub fn get_stat(&self, num: usize) -> (r: &T)
        requires
            1 <= num <= self.stats@.len(),
        ensures
            *r == self.at(num as int),
    {
        &self.stats[num - 1]
    }
}

/// Why a stat table could not be built.
#[derive(Debug, Clone, Copy, PartialEq, Eq, Structural)]
pub enum StatsError {
    /// The labels and the values differ in number.
    LengthMismatch,
    /// A label occurs twice.
    DuplicateLabel,
    /// The ranges do not split 1 to 12 into consecutive pieces.
    BadRanges,
    /// A category occurs twice.
    DuplicateCategory,
}

/// Whether no text occurs twice in `s`.
pub open spec fn distinct_texts(s: Seq<String>) -> bool {
    forall|i: int, j: int| 0 <= i < s.len() && 0 <= j < s.len() && i != j ==> #[trigger] s[i]@ != #[trigger] s[j]@
}

/// A small table of values under text labels; no label occurs twice.
#[derive(Debug, Clone)]
pub struct LabeledStat<T> {
    pub labels: Vec<String>,
    pub values: Vec<T>,
}

impl<T> LabeledStat<T> {
    pub open spec fn wf(&self) -> bool {
        &&& self.labels@.len() == self.values@.len()
        &&& distinct_texts(self.labels@)
    }

    /// The value under `label`, if the table has that label.
    pub open spec fn lookup(&self, label: Seq<char>) -> Option<T> {
        if exists|i: int| 0 <= i < self.labels@.len() && #[trigger] self.labels@[i]@ == label {
            let i = choose|i: int| 0 <= i < self.labels@.len() && #[trigger] self.labels@[i]@ == label;
            Some(self.values@[i])
        } else {
            None
        }
    }

    /// Builds the table from labels and values given in the same order.
    pub fn create(labels: Vec<String>, values: Vec<T>) -> (r: Result<Self, StatsError>)
        ensures
            labels@.len() != values@.len() ==> r == Err::<Self, StatsError>(StatsError::LengthMismatch),
            labels@.len() == values@.len() && !distinct_texts(labels@) ==> r == Err::<Self, StatsError>(
                StatsError::DuplicateLabel,
            ),
            labels@.len() == values@.len() && distinct_texts(labels@) ==> (r matches Ok(t) && t.wf()
                && t.labels@ == labels@ && t.values@ == values@),
    {
        if labels.len() != values.len() {
            return Err(StatsError::LengthMismatch);
        }
        let mut i: usize = 0;
        while i < labels.len()
            invariant
                labels@.len() == values@.len(),
                0 <= i <= labels@.len(),
                forall|a: int, b: int| 0 <= a < i && 0 <= b < labels@.len() && a != b ==> #[trigger] labels@[a]@ != #[trigger] labels@[b]@,
            decreases labels@.len() - i,
        {
            let mut j: usize = 0;
            while j < labels.len()
                invariant
                    labels@.len() == values@.len(),
                    0 <= i < labels@.len(),
                    0 <= j <= labels@.len(),
                    forall|a: int, b: int| 0 <= a < i && 0 <= b < labels@.len() && a != b ==> #[trigger] labels@[a]@ != #[trigger] labels@[b]@,
                    forall|b: int| 0 <= b < j && b != i ==> labels@[i as int]@ != #[trigger] labels@[b]@,
                decreases labels@.len() - j,
            {
                if j != i && labels[i] == labels[j] {
                    proof {
                        assert(labels@[i as int]@ == labels@[j as int]@);
                    }
                    return Err(StatsError::DuplicateLabel);
                }
                j = j + 1;
            }
            i = i + 1;
        }
        proof {
            assert(distinct_texts(labels@));
        }
        Ok(LabeledStat { labels, values })
    }

    /// The value under `cat`, if the table has that label.
    pub fn get_val(&self, cat: String) -> (r: Option<&T>)
        requires
            self.wf(),
        ensures
            r matches Some(v) ==> self.lookup(cat@) == Some(*v),
            r is None ==> self.lookup(cat@) is None,
    {
        let mut i: usize = 0;
        while i < self.labels.len()
            invariant
                self.wf(),
                0 <= i <= self.labels@.len(),
                forall|j: int| 0 <= j < i ==> #[trigger] self.labels@[j]@ != cat@,
            decreases self.labels@.len() - i,
        {
            if self.labels[i] == cat {
                proof {
                    let k = choose|k: int| 0 <= k < self.labels@.len() && #[trigger] self.labels@[k]@ == cat@;
                    assert(k == i);
                }
                return Some(&self.values[i]);
            }
            i = i + 1;
        }
        None
    }
}

/// A category type whose two named categories form the boundary that a shift moves.
pub trait Shiftable: Sized + Copy {
    spec fn first() -> Self;

    spec fn second() -> Self;

    fn get_first() -> (r: Self)
        ensures
            r == Self::first(),
    ;

    fn get_second() -> (r: Self)
        ensures
            r == Self::second(),
    ;

    fn same(&self, other: &Self) -> (r: bool)
        ensures
            r == (*self == *other),
    ;

    /// The category that a table line names by its code.
    spec fn code_of(code: Seq<char>) -> Option<Self>;

    fn from_code(code: &str) -> (r: Option<Self>)
        ensures
            r == Self::code_of(code@),
    ;
}

/// Whether the ranges split 1 to 12 into consecutive, non-empty pieces, in order.
pub open spec fn covers_twelve(rs: Seq<Range>) -> bool {
    &&& rs.len() > 0
    &&& rs[0].start == 1
    &&& rs[rs.len() - 1].end == 12
    &&& forall|i: int| 0 <= i < rs.len() ==> #[trigger] rs[i].start <= rs[i].end
    &&& forall|i: int| 0 <= i < rs.len() - 1 ==> #[trigger] rs[i].end + 1 == rs[i + 1].start
}

/// Where the boundary between the pair at `p` and `p + 1` lies after `shift`:
/// moved by `shift`, but kept so that each of the two keeps at least one number.
pub open spec fn shifted_edge(rs: Seq<Range>, p: int, shift: int) -> int {
    let e = rs[p].end + shift;
    if e < rs[p].start {
        rs[p].start as int
    } else if e > rs[p + 1].end - 1 {
        rs[p + 1].end - 1
    } else {
        e
    }
}

/// The ranges after `shift` moved the boundary of the pair at `p` and `p + 1`.
pub open spec fn shifted_ranges(rs: Seq<Range>, p: int, shift: int) -> Seq<Range> {
    let e = shifted_edge(rs, p, shift);
    rs.update(p, Range { start: rs[p].start, end: e as i32 }).update(
        p + 1,
        Range { start: (e + 1) as i32, end: rs[p + 1].end },
    )
}

proof fn lemma_shift_covers(rs: Seq<Range>, p: int, shift: int)
    requires
        covers_twelve(rs),
        0 <= p && p + 1 < rs.len(),
    ensures
        covers_twelve(shifted_ranges(rs, p, shift)),
{
    let t = shifted_ranges(rs, p, shift);
    assert(rs[p].end + 1 == rs[p + 1].start);
    assert forall|i: int| 0 <= i < t.len() - 1 implies #[trigger] t[i].end + 1 == t[i + 1].start by {
        assert(rs[i].end + 1 == rs[i + 1].start);
    }
    assert forall|i: int| 0 <= i < t.len() implies #[trigger] t[i].start <= t[i].end by {
        assert(rs[i].start <= rs[i].end);
    }
}

/// In ranges that split 1 to 12 into consecutive pieces, every earlier piece ends
/// before every later one starts.
proof fn lemma_ordered(rs: Seq<Range>, i: int, j: int)
    requires
        covers_twelve(rs),
        0 <= i < j < rs.len(),
    ensures
        rs[i].end < rs[j].start,
    decreases j - i,
{
    assert(rs[j - 1].end + 1 == rs[j].start);
    if i < j - 1 {
        lemma_ordered(rs, i, j - 1);
        assert(rs[j - 1].start <= rs[j - 1].end);
    }
}

/// Some piece among the first `k + 1` holds `n` when `n` is at most the end of piece `k`.
proof fn lemma_found(rs: Seq<Range>, n: int, k: int)
    requires
        covers_twelve(rs),
        0 <= k < rs.len(),
        1 <= n <= rs[k].end,
    ensures
        exists|i: int| 0 <= i <= k && #[trigger] rs[i].contains(n),
    decreases k,
{
    if n < rs[k].start {
        assert(rs[k - 1].end + 1 == rs[k].start);
        lemma_found(rs, n, k - 1);
    } else {
        assert(rs[k].contains(n));
    }
}

/// Ranges that split 1 to 12 into consecutive pieces hold each of those numbers
/// in exactly one piece.
pub proof fn lemma_exactly_one(rs: Seq<Range>, n: int)
    requires
        covers_twelve(rs),
        1 <= n <= 12,
    ensures
        exists|i: int| 0 <= i < rs.len() && #[trigger] rs[i].contains(n),
        forall|i: int, j: int|
            0 <= i < rs.len() && 0 <= j < rs.len() && #[trigger] rs[i].contains(n) && #[trigger] rs[j].contains(n)
                ==> i == j,
{
    lemma_found(rs, n, rs.len() - 1);
    assert forall|i: int, j: int|
        0 <= i < rs.len() && 0 <= j < rs.len() && #[trigger] rs[i].contains(n) && #[trigger] rs[j].contains(n)
            implies i == j by {
        if i < j {
            lemma_ordered(rs, i, j);
        } else if j < i {
            lemma_ordered(rs, j, i);
        }
    }
}

/// A table that splits the numbers 1 to 12 into consecutive ranges, one per
/// category; the categories at `pivot` and `pivot + 1` form the boundary pair
/// that a shift moves.
#[derive(Debug, Clone)]
pub struct RangedStats<T> {
    pub cats: Vec<T>,
    pub ranges: Vec<Range>,
    pub pivot: usize,
}

impl<T: Shiftable> RangedStats<T> {
    pub open spec fn wf(&self) -> bool {
        &&& self.cats@.len() == self.ranges@.len()
        &&& covers_twelve(self.ranges@)
        &&& self.pivot + 1 < self.ranges@.len()
        &&& self.cats@.no_duplicates()
    }

    /// The ranges once `shift` has moved the boundary pair.
    pub open spec fn shifted(&self, shift: int) -> Seq<Range> {
        shifted_ranges(self.ranges@, self.pivot as int, shift)
    }

    /// The position of the category whose shifted range holds `n`.
    pub open spec fn category_index(&self, n: int, shift: int) -> int {
        choose|i: int| 0 <= i < self.ranges@.len() && #[trigger] self.shifted(shift)[i].contains(n)
    }

    /// Builds the table from categories and their ranges, in the order of the
    /// numbers; the boundary pair is where the first category of the pair is
    /// followed by the second.
    pub fn create(cats: Vec<T>, ranges: Vec<Range>) -> (r: Result<Self, StatsError>)
        ensures
            cats@.len() != ranges@.len() ==> r == Err::<Self, StatsError>(StatsError::LengthMismatch),
            cats@.len() == ranges@.len() && !covers_twelve(ranges@) ==> r == Err::<Self, StatsError>(
                StatsError::BadRanges,
            ),
            r matches Ok(t) ==> t.wf() && t.cats@ == cats@ && t.ranges@ == ranges@ && t.cats@[t.pivot as int]
                == T::first() && t.cats@[t.pivot + 1] == T::second(),
            cats@.len() == ranges@.len() && covers_twelve(ranges@) && !cats@.no_duplicates() ==> r == Err::<
                Self,
                StatsError,
            >(StatsError::DuplicateCategory),
            cats@.len() == ranges@.len() && covers_twelve(ranges@) && cats@.no_duplicates() && (exists|p: int|
                0 <= p && p + 1 < cats@.len() && #[trigger] cats@[p] == T::first() && cats@[p + 1] == T::second())
                ==> r is Ok,
    {
        if cats.len() != ranges.len() {
            return Err(StatsError::LengthMismatch);
        }
        if !Self::check_ranges(&ranges) {
            return Err(StatsError::BadRanges);
        }
        if !Self::distinct(&cats) {
            return Err(StatsError::DuplicateCategory);
        }
        let first = T::get_first();
        let second = T::get_second();
        let mut p: usize = 0;
        while p < cats.len() - 1
            invariant
                cats@.len() == ranges@.len(),
                covers_twelve(ranges@),
                cats@.no_duplicates(),
                0 <= p,
                first == T::first(),
                second == T::second(),
                forall|q: int| 0 <= q < p && q + 1 < cats@.len() ==> !(#[trigger] cats@[q] == T::first() && cats@[q + 1] == T::second()),
            decreases cats@.len() - p,
        {
            if cats[p].same(&first) && cats[p + 1].same(&second) {
                return Ok(RangedStats { cats, ranges, pivot: p });
            }
            p = p + 1;
        }
        Err(StatsError::BadRanges)
    }

    /// Builds the table from lines "code<splitter>range", one category per
    /// line in the order of the numbers; a line whose code names no category
    /// is left out.
    pub fn create_from_strs(vals: &[&str], splitter: char) -> (r: Result<Self, StatsError>)
        ensures
            r matches Ok(t) ==> t.wf() && t.cats@ == read_cats::<T>(vals@, splitter) && t.ranges@ == read_ranges::<T>(
                vals@,
                splitter,
            ) && t.cats@[t.pivot as int] == T::first() && t.cats@[t.pivot + 1] == T::second(),
            !covers_twelve(read_ranges::<T>(vals@, splitter)) ==> r is Err,
            !read_cats::<T>(vals@, splitter).no_duplicates() ==> r is Err,
            covers_twelve(read_ranges::<T>(vals@, splitter)) && read_cats::<T>(vals@, splitter).no_duplicates() && (exists|p: int|
                0 <= p && p + 1 < read_cats::<T>(vals@, splitter).len() && #[trigger] read_cats::<T>(vals@, splitter)[p]
                    == T::first() && read_cats::<T>(vals@, splitter)[p + 1] == T::second()) ==> r is Ok,
    {
        let mut cats: Vec<T> = Vec::new();
        let mut ranges: Vec<Range> = Vec::new();
        let mut i: usize = 0;
        while i < vals.len()
            invariant
                0 <= i <= vals@.len(),
                cats@ == read_cats::<T>(vals@.take(i as int), splitter),
                ranges@ == read_ranges::<T>(vals@.take(i as int), splitter),
            decreases vals@.len() - i,
        {
            let (tag, range) = Range::get_tag_and_range(vals[i], splitter);
            proof {
                assert(vals@.take(i as int + 1).drop_last() =~= vals@.take(i as int));
                assert(vals@.take(i as int + 1).last() == vals@[i as int]);
            }
            if let Some(cat) = T::from_code(tag.as_str()) {
                cats.push(cat);
                ranges.push(range);
            }
            i = i + 1;
        }
        proof {
            assert(vals@.take(i as int) =~= vals@);
            lemma_read_len::<T>(vals@, splitter);
        }
        Self::create(cats, ranges)
    }

    /// Whether no category occurs twice.
    fn distinct(cats: &Vec<T>) -> (r: bool)
        ensures
            r == cats@.no_duplicates(),
    {
        let mut i: usize = 0;
        while i < cats.len()
            invariant
                0 <= i <= cats@.len(),
                forall|a: int, b: int| 0 <= a < i && 0 <= b < cats@.len() && a != b ==> cats@[a] != cats@[b],
            decreases cats@.len() - i,
        {
            let mut j: usize = 0;
            while j < cats.len()
                invariant
                    0 <= i < cats@.len(),
                    0 <= j <= cats@.len(),
                    forall|a: int, b: int| 0 <= a < i && 0 <= b < cats@.len() && a != b ==> cats@[a] != cats@[b],
                    forall|b: int| 0 <= b < j && b != i ==> cats@[i as int] != cats@[b],
                decreases cats@.len() - j,
            {
                if j != i && cats[i].same(&cats[j]) {
                    return false;
                }
                j = j + 1;
            }
            i = i + 1;
        }
        true
    }

    fn check_ranges(ranges: &Vec<Range>) -> (r: bool)
        ensures
            r == covers_twelve(ranges@),
    {
        let n = ranges.len();
        if n == 0 || ranges[0].start != 1 || ranges[n - 1].end != 12 {
            return false;
        }
        let mut i: usize = 0;
        while i < n
            invariant
                n == ranges@.len(),
                0 <= i <= n,
                forall|j: int| 0 <= j < i ==> #[trigger] ranges@[j].start <= ranges@[j].end,
                forall|j: int| 0 <= j < i && j < n - 1 ==> #[trigger] ranges@[j].end + 1 == ranges@[j + 1].start,
            decreases n - i,
        {
            if ranges[i].start > ranges[i].end {
                return false;
            }
            if i + 1 < n && ranges[i].end as i64 + 1 != ranges[i + 1].start as i64 {
                return false;
            }
            i = i + 1;
        }
        true
    }

    /// The category that `val` falls into once `shift` has moved the boundary
    /// between the pair: the first of the pair grows by `shift` (shrinks when it
    /// is negative) at the cost of the second, and each keeps at least one number.
    pub fn get_category(&self, val: i32, shift: i32) -> (r: T)
        requires
            self.wf(),
            1 <= val <= 12,
        ensures
            0 <= self.category_index(val as int, shift as int) < self.cats@.len(),
            self.shifted(shift as int)[self.category_index(val as int, shift as int)].contains(val as int),
            r == self.cats@[self.category_index(val as int, shift as int)],
    {
        let ghost t = self.shifted(shift as int);
        proof {
            lemma_shift_covers(self.ranges@, self.pivot as int, shift as int);
            lemma_exactly_one(t, val as int);
        }
        let p = self.pivot;
        let count = self.ranges.len();
        let f = self.ranges[p];
        let s = self.ranges[p + 1];
        let moved: i64 = f.end as i64 + shift as i64;
        let edge: i32 = if moved < f.start as i64 {
            f.start
        } else if moved > s.end as i64 - 1 {
            s.end - 1
        } else {
            moved as i32
        };
        let mut i: usize = 0;
        while i < count
            invariant
                self.wf(),
                count == self.ranges@.len(),
                p == self.pivot,
                t == self.shifted(shift as int),
                t.len() == self.ranges@.len(),
                edge == shifted_edge(self.ranges@, p as int, shift as int),
                covers_twelve(t),
                1 <= val <= 12,
                0 <= i <= self.ranges@.len(),
                forall|j: int| 0 <= j < i ==> !(#[trigger] t[j]).contains(val as int),
            decreases self.ranges@.len() - i,
        {
            let mut range = self.ranges[i];
            if i == p {
                range = Range { start: range.start, end: edge };
            } else if i == p + 1 {
                range = Range { start: edge + 1, end: range.end };
            }
            assert(range == t[i as int]);
            if range.in_range(val) {
                proof {
                    lemma_exactly_one(t, val as int);
                }
                return self.cats[i];
            }
            i = i + 1;
        }
        proof {
            lemma_exactly_one(t, val as int);
        }
        self.cats[0]
    }
}

/// Whatever the shift, a well-formed table keeps its ranges consecutive and
/// covering 1 to 12, and each of those numbers lies in exactly one range.
pub proof fn lemma_category_unique<T: Shiftable>(table: RangedStats<T>, n: int, shift: int)
    requires
        table.wf(),
        1 <= n <= 12,
    ensures
        covers_twelve(table.shifted(shift)),
        exists|i: int| 0 <= i < table.cats@.len() && #[trigger] table.shifted(shift)[i].contains(n),
        forall|i: int, j: int|
            0 <= i < table.cats@.len() && 0 <= j < table.cats@.len() && #[trigger] table.shifted(shift)[i].contains(n)
                && #[trigger] table.shifted(shift)[j].contains(n) ==> i == j,
{
    lemma_shift_covers(table.ranges@, table.pivot as int, shift);
    lemma_exactly_one(table.shifted(shift), n);
}

} // verus!
