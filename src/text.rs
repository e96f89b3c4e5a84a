use vstd::prelude::*;

use crate::fac::{PassTarget, RunDirection, RunDirectionActual, RunNum};
use crate::lineup::{DefensiveBox, OffensiveBox};

verus! {

pub open spec fn is_digit(c: char) -> bool {
    '0' <= c <= '9'
}

/// The value of a run of decimal digits.
pub open spec fn digits_value(d: Seq<char>) -> int
    decreases d.len(),
{
    if d.len() == 0 {
        0
    } else {
        digits_value(d.drop_last()) * 10 + (d.last() as int - '0' as int)
    }
}

/// Whether `s` starts with exactly `k` decimal digits.
pub open spec fn is_lead(s: Seq<char>, k: int) -> bool {
    0 <= k <= s.len() && (forall|i: int| 0 <= i < k ==> is_digit(#[trigger] s[i])) && (k == s.len() || !is_digit(
        s[k],
    ))
}

/// The number of decimal digits that `s` starts with.
pub open spec fn lead_digits(s: Seq<char>) -> int {
    choose|k: int| is_lead(s, k)
}

/// The run-number text of a card: digits, then an optional space, then an
/// optional "(OB)" that marks a run that ends out of bounds. The number is -1
/// when the text has another shape or the digits do not fit an `i32`.
pub open spec fn run_num_of(s: Seq<char>) -> RunNum {
    let k = lead_digits(s);
    let rest = s.skip(k);
    let shape_ok = k >= 1 && (rest == Seq::<char>::empty() || rest == seq![' '] || rest == seq!['(', 'O', 'B', ')']
        || rest == seq![' ', '(', 'O', 'B', ')']);
    if !shape_ok {
        RunNum { num: -1i32, ob: false }
    } else {
        let v = digits_value(s.take(k));
        RunNum {
            num: if v <= i32::MAX { v as i32 } else { -1i32 },
            ob: rest.len() >= 4,
        }
    }
}

/// Whether `s` holds exactly the characters of `lit`.
pub fn text_is(s: &str, lit: &str) -> (r: bool)
    ensures
        r == (s@ == lit@),
{
    let n = s.unicode_len();
    if n != lit.unicode_len() {
        return false;
    }
    let mut i: usize = 0;
    while i < n
        invariant
            n == s@.len(),
            n == lit@.len(),
            0 <= i <= n,
            forall|j: int| 0 <= j < i ==> s@[j] == lit@[j],
        decreases n - i,
    {
        if s.get_char(i) != lit.get_char(i) {
            return false;
        }
        i = i + 1;
    }
    proof {
        assert(s@ =~= lit@);
    }
    true
}

/// Reads the run-number column of a card.
pub fn parse_run_num(s: &str) -> (r: RunNum)
    ensures
        r == run_num_of(s@),
{
    let n = s.unicode_len();
    let mut k: usize = 0;
    let mut v: i64 = 0;
    let mut too_big = false;
    while k < n && is_digit_char(s.get_char(k))
        invariant
            n == s@.len(),
            0 <= k <= n,
            forall|i: int| 0 <= i < k ==> is_digit(#[trigger] s@[i]),
            !too_big ==> v == digits_value(s@.take(k as int)) && 0 <= v <= i32::MAX,
            too_big ==> digits_value(s@.take(k as int)) > i32::MAX,
        decreases n - k,
    {
        let c = s.get_char(k);
        proof {
            assert(s@.take(k as int + 1).drop_last() =~= s@.take(k as int));
            lemma_digits_nonneg(s@.take(k as int));
        }
        if !too_big {
            let d = (c as u32 - '0' as u32) as i64;
            let next = v * 10 + d;
            if next > i32::MAX as i64 {
                too_big = true;
            } else {
                v = next;
            }
        } else {
            proof {
                lemma_digits_nonneg(s@.take(k as int));
                assert(digits_value(s@.take(k as int + 1)) >= digits_value(s@.take(k as int)) * 10);
            }
        }
        k = k + 1;
    }
    proof {
        assert(is_lead(s@, k as int));
        assert(lead_digits(s@) == k as int) by {
            let j = lead_digits(s@);
            assert(is_lead(s@, j));
            if j < k as int {
                assert(is_digit(s@[j]));
            }
            if j > k as int {
                assert(is_digit(s@[k as int]));
            }
        }
    }
    let rest = s.substring_char(k, n);
    let shape_ok = k >= 1 && (text_is(rest, "") || text_is(rest, " ") || text_is(rest, "(OB)") || text_is(
        rest,
        " (OB)",
    ));
    proof {
        reveal_strlit("");
        reveal_strlit(" ");
        reveal_strlit("(OB)");
        reveal_strlit(" (OB)");
        assert(rest@ =~= s@.skip(k as int));
        assert(""@ =~= Seq::<char>::empty());
        assert(" "@ =~= seq![' ']);
        assert("(OB)"@ =~= seq!['(', 'O', 'B', ')']);
        assert(" (OB)"@ =~= seq![' ', '(', 'O', 'B', ')']);
    }
    if !shape_ok {
        return RunNum { num: -1, ob: false };
    }
    let num: i32 = if too_big {
        -1
    } else {
        v as i32
    };
    RunNum { num, ob: n - k >= 4 }
}

fn is_digit_char(c: char) -> (r: bool)
    ensures
        r == is_digit(c),
{
    '0' <= c && c <= '9'
}

proof fn lemma_digits_nonneg(d: Seq<char>)
    requires
        forall|i: int| 0 <= i < d.len() ==> is_digit(#[trigger] d[i]),
    ensures
        digits_value(d) >= 0,
    decreases d.len(),
{
    if d.len() > 0 {
        assert forall|i: int| 0 <= i < d.drop_last().len() implies is_digit(#[trigger] d.drop_last()[i]) by {
            assert(d.drop_last()[i] == d[i]);
        }
        lemma_digits_nonneg(d.drop_last());
    }
}

/// Whether `c` is `l`, or the capital of the small letter `l`.
pub open spec fn same_ci(c: char, l: char) -> bool {
    c == l || ('A' <= c <= 'Z' && c as u32 + 32 == l as u32)
}

/// Whether `s` spells the small-letter code `lit`, in either case.
pub open spec fn code_matches(s: Seq<char>, lit: Seq<char>) -> bool {
    s.len() == lit.len() && forall|i: int| 0 <= i < s.len() ==> same_ci(#[trigger] s[i], lit[i])
}

/// The offensive position that a card or a call names by its code, in either
/// case: "qb", "bk"/"bk1"/"b1", "bk2"/"b2", "bk3"/"b3", "re", "le", "fl"/"fl1",
/// "fl2", "lt", "lg", "c"/"cn", "rg", "rt".
pub open spec fn offensive_box_of(c: Seq<char>) -> Option<OffensiveBox> {
    if code_matches(c, seq!['q', 'b']) {
        Some(OffensiveBox::QB)
    } else if code_matches(c, seq!['b', 'k']) || code_matches(c, seq!['b', 'k', '1']) || code_matches(c, seq!['b', '1']) {
        Some(OffensiveBox::B1)
    } else if code_matches(c, seq!['b', 'k', '2']) || code_matches(c, seq!['b', '2']) {
        Some(OffensiveBox::B2)
    } else if code_matches(c, seq!['b', 'k', '3']) || code_matches(c, seq!['b', '3']) {
        Some(OffensiveBox::B3)
    } else if code_matches(c, seq!['r', 'e']) {
        Some(OffensiveBox::RE)
    } else if code_matches(c, seq!['l', 'e']) {
        Some(OffensiveBox::LE)
    } else if code_matches(c, seq!['f', 'l']) || code_matches(c, seq!['f', 'l', '1']) {
        Some(OffensiveBox::FL1)
    } else if code_matches(c, seq!['f', 'l', '2']) {
        Some(OffensiveBox::FL2)
    } else if code_matches(c, seq!['l', 't']) {
        Some(OffensiveBox::LT)
    } else if code_matches(c, seq!['l', 'g']) {
        Some(OffensiveBox::LG)
    } else if code_matches(c, seq!['c']) || code_matches(c, seq!['c', 'n']) {
        Some(OffensiveBox::C)
    } else if code_matches(c, seq!['r', 'g']) {
        Some(OffensiveBox::RG)
    } else if code_matches(c, seq!['r', 't']) {
        Some(OffensiveBox::RT)
    } else {
        None
    }
}

/// Whether the characters `s[from..to]` spell the small-letter code `lit`.
fn code_is(s: &str, from: usize, to: usize, lit: &str) -> (r: bool)
    requires
        from <= to <= s@.len(),
    ensures
        r == code_matches(s@.subrange(from as int, to as int), lit@),
{
    let n = lit.unicode_len();
    if to - from != n {
        return false;
    }
    let mut i: usize = 0;
    while i < n
        invariant
            from <= to <= s@.len(),
            n == lit@.len(),
            to - from == n,
            0 <= i <= n,
            forall|j: int| 0 <= j < i ==> same_ci(s@[from + j], lit@[j]),
        decreases n - i,
    {
        let c = s.get_char(from + i);
        let l = lit.get_char(i);
        let same = if 'A' <= c && c <= 'Z' {
            c == l || c as u32 + 32 == l as u32
        } else {
            c == l
        };
        if !same {
            proof {
                assert(s@.subrange(from as int, to as int)[i as int] == s@[from + i]);
                assert(!same_ci(s@.subrange(from as int, to as int)[i as int], lit@[i as int]));
            }
            return false;
        }
        i = i + 1;
    }
    proof {
        assert forall|j: int| 0 <= j < n implies same_ci(#[trigger] s@.subrange(from as int, to as int)[j], lit@[j]) by {
            assert(s@.subrange(from as int, to as int)[j] == s@[from + j]);
        }
    }
    true
}

/// Reads an offensive position code; see `offensive_box_of`.
#[verifier::rlimit(100)]
pub fn offensive_box_from(s: &str, from: usize, to: usize) -> (r: Option<OffensiveBox>)
    requires
        from <= to <= s@.len(),
    ensures
        r == offensive_box_of(s@.subrange(from as int, to as int)),
{
    proof {
        reveal_strlit("qb");
        reveal_strlit("bk");
        reveal_strlit("bk1");
        reveal_strlit("b1");
        reveal_strlit("bk2");
        reveal_strlit("b2");
        reveal_strlit("bk3");
        reveal_strlit("b3");
        reveal_strlit("re");
        reveal_strlit("le");
        reveal_strlit("fl");
        reveal_strlit("fl1");
        reveal_strlit("fl2");
        reveal_strlit("lt");
        reveal_strlit("lg");
        reveal_strlit("c");
        reveal_strlit("cn");
        reveal_strlit("rg");
        reveal_strlit("rt");
        assert("qb"@ =~= seq!['q', 'b']);
        assert("bk"@ =~= seq!['b', 'k']);
        assert("bk1"@ =~= seq!['b', 'k', '1']);
        assert("b1"@ =~= seq!['b', '1']);
        assert("bk2"@ =~= seq!['b', 'k', '2']);
        assert("b2"@ =~= seq!['b', '2']);
        assert("bk3"@ =~= seq!['b', 'k', '3']);
        assert("b3"@ =~= seq!['b', '3']);
        assert("re"@ =~= seq!['r', 'e']);
        assert("le"@ =~= seq!['l', 'e']);
        assert("fl"@ =~= seq!['f', 'l']);
        assert("fl1"@ =~= seq!['f', 'l', '1']);
        assert("fl2"@ =~= seq!['f', 'l', '2']);
        assert("lt"@ =~= seq!['l', 't']);
        assert("lg"@ =~= seq!['l', 'g']);
        assert("c"@ =~= seq!['c']);
        assert("cn"@ =~= seq!['c', 'n']);
        assert("rg"@ =~= seq!['r', 'g']);
        assert("rt"@ =~= seq!['r', 't']);
    }
    if code_is(s, from, to, "qb") {
        Some(OffensiveBox::QB)
    } else if code_is(s, from, to, "bk") || code_is(s, from, to, "bk1") || code_is(s, from, to, "b1") {
        Some(OffensiveBox::B1)
    } else if code_is(s, from, to, "bk2") || code_is(s, from, to, "b2") {
        Some(OffensiveBox::B2)
    } else if code_is(s, from, to, "bk3") || code_is(s, from, to, "b3") {
        Some(OffensiveBox::B3)
    } else if code_is(s, from, to, "re") {
        Some(OffensiveBox::RE)
    } else if code_is(s, from, to, "le") {
        Some(OffensiveBox::LE)
    } else if code_is(s, from, to, "fl") || code_is(s, from, to, "fl1") {
        Some(OffensiveBox::FL1)
    } else if code_is(s, from, to, "fl2") {
        Some(OffensiveBox::FL2)
    } else if code_is(s, from, to, "lt") {
        Some(OffensiveBox::LT)
    } else if code_is(s, from, to, "lg") {
        Some(OffensiveBox::LG)
    } else if code_is(s, from, to, "c") || code_is(s, from, to, "cn") {
        Some(OffensiveBox::C)
    } else if code_is(s, from, to, "rg") {
        Some(OffensiveBox::RG)
    } else if code_is(s, from, to, "rt") {
        Some(OffensiveBox::RT)
    } else {
        None
    }
}

pub open spec fn is_upper(c: char) -> bool {
    'A' <= c <= 'Z'
}

/// The defensive box that a card names by its letter, a to o in either case.
pub open spec fn defensive_box_of(c: char) -> Option<DefensiveBox> {
    if same_ci(c, 'a') {
        Some(DefensiveBox::BoxA)
    } else if same_ci(c, 'b') {
        Some(DefensiveBox::BoxB)
    } else if same_ci(c, 'c') {
        Some(DefensiveBox::BoxC)
    } else if same_ci(c, 'd') {
        Some(DefensiveBox::BoxD)
    } else if same_ci(c, 'e') {
        Some(DefensiveBox::BoxE)
    } else if same_ci(c, 'f') {
        Some(DefensiveBox::BoxF)
    } else if same_ci(c, 'g') {
        Some(DefensiveBox::BoxG)
    } else if same_ci(c, 'h') {
        Some(DefensiveBox::BoxH)
    } else if same_ci(c, 'i') {
        Some(DefensiveBox::BoxI)
    } else if same_ci(c, 'j') {
        Some(DefensiveBox::BoxJ)
    } else if same_ci(c, 'k') {
        Some(DefensiveBox::BoxK)
    } else if same_ci(c, 'l') {
        Some(DefensiveBox::BoxL)
    } else if same_ci(c, 'm') {
        Some(DefensiveBox::BoxM)
    } else if same_ci(c, 'n') {
        Some(DefensiveBox::BoxN)
    } else if same_ci(c, 'o') {
        Some(DefensiveBox::BoxO)
    } else {
        None
    }
}

fn ci(c: char, l: char) -> (r: bool)
    ensures
        r == same_ci(c, l),
{
    if 'A' <= c && c <= 'Z' {
        c == l || c as u32 + 32 == l as u32
    } else {
        c == l
    }
}

/// Reads a defensive box letter; see `defensive_box_of`.
pub fn defensive_box_from(c: char) -> (r: Option<DefensiveBox>)
    ensures
        r == defensive_box_of(c),
{
    if ci(c, 'a') {
        Some(DefensiveBox::BoxA)
    } else if ci(c, 'b') {
        Some(DefensiveBox::BoxB)
    } else if ci(c, 'c') {
        Some(DefensiveBox::BoxC)
    } else if ci(c, 'd') {
        Some(DefensiveBox::BoxD)
    } else if ci(c, 'e') {
        Some(DefensiveBox::BoxE)
    } else if ci(c, 'f') {
        Some(DefensiveBox::BoxF)
    } else if ci(c, 'g') {
        Some(DefensiveBox::BoxG)
    } else if ci(c, 'h') {
        Some(DefensiveBox::BoxH)
    } else if ci(c, 'i') {
        Some(DefensiveBox::BoxI)
    } else if ci(c, 'j') {
        Some(DefensiveBox::BoxJ)
    } else if ci(c, 'k') {
        Some(DefensiveBox::BoxK)
    } else if ci(c, 'l') {
        Some(DefensiveBox::BoxL)
    } else if ci(c, 'm') {
        Some(DefensiveBox::BoxM)
    } else if ci(c, 'n') {
        Some(DefensiveBox::BoxN)
    } else if ci(c, 'o') {
        Some(DefensiveBox::BoxO)
    } else {
        None
    }
}

/// The positions named from index `i` of a run column's text: each run of
/// capital letters is cut into pairs, left to right, and a single letter left
/// over; a pair names an offensive position, a single letter a defensive box.
/// None when a code names no position.
pub open spec fn boxes_from(s: Seq<char>, i: int) -> Option<(Seq<OffensiveBox>, Seq<DefensiveBox>)>
    decreases s.len() - i,
{
    if i < 0 || i >= s.len() {
        Some((Seq::empty(), Seq::empty()))
    } else if !is_upper(s[i]) {
        boxes_from(s, i + 1)
    } else if i + 1 < s.len() && is_upper(s[i + 1]) {
        match (offensive_box_of(s.subrange(i, i + 2)), boxes_from(s, i + 2)) {
            (Some(o), Some(rest)) => Some((seq![o] + rest.0, rest.1)),
            _ => None,
        }
    } else {
        match (defensive_box_of(s[i]), boxes_from(s, i + 1)) {
            (Some(d), Some(rest)) => Some((rest.0, seq![d] + rest.1)),
            _ => None,
        }
    }
}

/// The lists `offs` and `defs` followed by what `rest` names.
pub open spec fn joined(
    offs: Seq<OffensiveBox>,
    defs: Seq<DefensiveBox>,
    rest: Option<(Seq<OffensiveBox>, Seq<DefensiveBox>)>,
) -> Option<(Seq<OffensiveBox>, Seq<DefensiveBox>)> {
    match rest {
        Some(r) => Some((offs + r.0, defs + r.1)),
        None => None,
    }
}

/// Reads a run column of a card: "break", or the codes of the blockers and
/// the tacklers; none when a code names no position.
pub fn parse_run_direction(s: &str) -> (r: Option<RunDirection>)
    ensures
        s@ == seq!['b', 'r', 'e', 'a', 'k'] ==> r == Some(RunDirection::Break),
        s@ != seq!['b', 'r', 'e', 'a', 'k'] ==> match (r, boxes_from(s@, 0)) {
            (Some(RunDirection::Actual(a)), Some(b)) => a.offensive_boxes@ == b.0 && a.defensive_boxes@ == b.1,
            (None, None) => true,
            _ => false,
        },
{
    proof {
        reveal_strlit("break");
        assert("break"@ =~= seq!['b', 'r', 'e', 'a', 'k']);
    }
    if text_is(s, "break") {
        return Some(RunDirection::Break);
    }
    let n = s.unicode_len();
    let mut offs: Vec<OffensiveBox> = Vec::new();
    let mut defs: Vec<DefensiveBox> = Vec::new();
    let mut i: usize = 0;
    while i < n
        invariant
            n == s@.len(),
            0 <= i <= n,
            boxes_from(s@, 0) == joined(offs@, defs@, boxes_from(s@, i as int)),
        decreases n - i,
    {
        let c = s.get_char(i);
        if !('A' <= c && c <= 'Z') {
            i = i + 1;
        } else if i + 1 < n && 'A' <= s.get_char(i + 1) && s.get_char(i + 1) <= 'Z' {
            match offensive_box_from(s, i, i + 2) {
                Some(o) => {
                    proof {
                        assert(offs@.push(o) + boxes_from(s@, i + 2)->Some_0.0 =~= offs@ + (seq![o] + boxes_from(s@, i + 2)->Some_0.0));
                    }
                    offs.push(o);
                    i = i + 2;
                },
                None => {
                    return None;
                },
            }
        } else {
            match defensive_box_from(c) {
                Some(d) => {
                    proof {
                        assert(defs@.push(d) + boxes_from(s@, i + 1)->Some_0.1 =~= defs@ + (seq![d] + boxes_from(s@, i + 1)->Some_0.1));
                    }
                    defs.push(d);
                    i = i + 1;
                },
                None => {
                    return None;
                },
            }
        }
    }
    proof {
        assert(offs@ + Seq::<OffensiveBox>::empty() =~= offs@);
        assert(defs@ + Seq::<DefensiveBox>::empty() =~= defs@);
    }
    Some(RunDirection::Actual(RunDirectionActual { offensive_boxes: offs, defensive_boxes: defs }))
}

/// A pass-target column of a card: the called target, the pass rush, or the
/// position whose code it holds.
pub open spec fn pass_target_of(s: Seq<char>) -> Option<PassTarget> {
    if s == seq!['O', 'r', 'i', 'g'] {
        Some(PassTarget::Orig)
    } else if s == seq!['P', 'a', 's', 's', 'R', 'u', 's', 'h'] {
        Some(PassTarget::PassRush)
    } else {
        match offensive_box_of(s) {
            Some(b) => Some(PassTarget::Actual(b)),
            None => None,
        }
    }
}

/// Reads a pass-target column of a card; none when it names no position.
pub fn parse_pass_target(s: &str) -> (r: Option<PassTarget>)
    ensures
        r == pass_target_of(s@),
{
    proof {
        reveal_strlit("Orig");
        reveal_strlit("PassRush");
        assert("Orig"@ =~= seq!['O', 'r', 'i', 'g']);
        assert("PassRush"@ =~= seq!['P', 'a', 's', 's', 'R', 'u', 's', 'h']);
    }
    if text_is(s, "Orig") {
        Some(PassTarget::Orig)
    } else if text_is(s, "PassRush") {
        Some(PassTarget::PassRush)
    } else {
        let n = s.unicode_len();
        proof {
            assert(s@.subrange(0, n as int) =~= s@);
        }
        match offensive_box_from(s, 0, n) {
            Some(b) => Some(PassTarget::Actual(b)),
            None => None,
        }
    }
}

/// Whether every character of `d` is a decimal digit.
pub open spec fn all_digits(d: Seq<char>) -> bool {
    forall|i: int| 0 <= i < d.len() ==> is_digit(#[trigger] d[i])
}

/// The `i32` that `s` spells: an optional sign, then one or more decimal
/// digits; none for any other text or a value out of range.
pub open spec fn int_of(s: Seq<char>) -> Option<i32> {
    let neg = s.len() > 0 && s[0] == '-';
    let d = if s.len() > 0 && (s[0] == '-' || s[0] == '+') { s.skip(1) } else { s };
    if d.len() == 0 || !all_digits(d) {
        None
    } else {
        let v = if neg { -digits_value(d) } else { digits_value(d) };
        if i32::MIN <= v <= i32::MAX { Some(v as i32) } else { None }
    }
}

/// Reads the `i32` that `s[from..to]` spells; see `int_of`.
pub fn parse_i32(s: &str, from: usize, to: usize) -> (r: Option<i32>)
    requires
        from <= to <= s@.len(),
    ensures
        r == int_of(s@.subrange(from as int, to as int)),
{
    let ghost t = s@.subrange(from as int, to as int);
    if from == to {
        return None;
    }
    let first = s.get_char(from);
    let neg = first == '-';
    let start = if first == '-' || first == '+' { from + 1 } else { from };
    let ghost d = s@.subrange(start as int, to as int);
    proof {
        assert(t.len() > 0 && t[0] == first);
        if first == '-' || first == '+' {
            assert(t.skip(1) =~= d);
        } else {
            assert(t =~= d);
        }
    }
    if start == to {
        return None;
    }
    let mut k: usize = start;
    let mut v: i64 = 0;
    while k < to
        invariant
            from <= start <= k <= to <= s@.len(),
            d == s@.subrange(start as int, to as int),
            t == s@.subrange(from as int, to as int),
            t.len() > 0 && t[0] == first,
            neg == (first == '-'),
            start as int == (if first == '-' || first == '+' { from + 1 } else { from as int }),
            (first == '-' || first == '+') ==> t.skip(1) == d,
            !(first == '-' || first == '+') ==> t == d,
            d.len() > 0,
            forall|i: int| start <= i < k ==> is_digit(#[trigger] s@[i]),
            v == digits_value(s@.subrange(start as int, k as int)),
            0 <= v <= 2147483648,
        decreases to - k,
    {
        let c = s.get_char(k);
        if !('0' <= c && c <= '9') {
            proof {
                assert(d[k - start] == c);
                assert(!all_digits(d));
            }
            return None;
        }
        proof {
            assert(s@.subrange(start as int, k as int + 1).drop_last() =~= s@.subrange(start as int, k as int));
        }
        let next = v * 10 + (c as u32 - '0' as u32) as i64;
        if next > 2147483648 {
            proof {
                if all_digits(d) {
                    lemma_digits_monotone(s@, start as int, k as int + 1, to as int);
                }
            }
            return None;
        }
        v = next;
        k = k + 1;
    }
    proof {
        assert(s@.subrange(start as int, k as int) =~= d);
        assert(all_digits(d));
    }
    if neg {
        Some((-v) as i32)
    } else if v > 2147483647 {
        None
    } else {
        Some(v as i32)
    }
}

/// A longer run of digits is worth at least as much as its prefix.
proof fn lemma_digits_monotone(s: Seq<char>, start: int, k: int, to: int)
    requires
        0 <= start <= k <= to <= s.len(),
        all_digits(s.subrange(start, to)),
    ensures
        digits_value(s.subrange(start, to)) >= digits_value(s.subrange(start, k)),
    decreases to - k,
{
    if k < to {
        lemma_digits_monotone(s, start, k + 1, to);
        assert(s.subrange(start, k + 1).drop_last() =~= s.subrange(start, k));
        assert(s.subrange(start, k + 1)[k - start] == s.subrange(start, to)[k - start]);
        assert forall|i: int| 0 <= i < s.subrange(start, k).len() implies is_digit(#[trigger] s.subrange(start, k)[i]) by {
            assert(s.subrange(start, k)[i] == s.subrange(start, to)[i]);
        }
        lemma_digits_nonneg(s.subrange(start, k));
    }
}

/// The index of the first '-' at or after `i`, or the length when there is none.
pub open spec fn dash_from(s: Seq<char>, i: int) -> int
    decreases s.len() - i,
{
    if i < 0 || i >= s.len() {
        s.len() as int
    } else if s[i] == '-' {
        i
    } else {
        dash_from(s, i + 1)
    }
}

pub fn find_dash(s: &str, from: usize) -> (r: usize)
    requires
        from <= s@.len(),
    ensures
        r == dash_from(s@, from as int),
        from <= r <= s@.len(),
{
    let n = s.unicode_len();
    let mut i = from;
    while i < n
        invariant
            n == s@.len(),
            from <= i <= n,
            dash_from(s@, from as int) == dash_from(s@, i as int),
        decreases n - i,
    {
        if s.get_char(i) == '-' {
            return i;
        }
        i = i + 1;
    }
    i
}

/// The index of the first `c` at or after `i`, or the length when there is none.
pub open spec fn char_from(s: Seq<char>, c: char, i: int) -> int
    decreases s.len() - i,
{
    if i < 0 || i >= s.len() {
        s.len() as int
    } else if s[i] == c {
        i
    } else {
        char_from(s, c, i + 1)
    }
}

/// The pieces of `s` between the separators `c`, in order: `s` cut at every `c`.
pub open spec fn pieces(s: Seq<char>, c: char) -> Seq<Seq<char>>
    decreases s.len(),
{
    let d = char_from(s, c, 0);
    if d < 0 || d >= s.len() {
        seq![s]
    } else {
        seq![s.subrange(0, d)] + pieces(s.skip(d + 1), c)
    }
}

proof fn lemma_char_from_skip(s: Seq<char>, c: char, i: int, j: int)
    requires
        0 <= i <= j <= s.len(),
        forall|k: int| i <= k < j ==> s[k] != c,
    ensures
        char_from(s, c, j) == i + char_from(s.skip(i), c, j - i),
    decreases s.len() - j,
{
    if j < s.len() && s[j] != c {
        lemma_char_from_skip(s, c, i, j + 1);
    }
}

/// Finds the first `c` at or after `from`; the length when there is none.
pub fn find_char(s: &str, c: char, from: usize) -> (r: usize)
    requires
        from <= s@.len(),
    ensures
        r == char_from(s@, c, from as int),
        from <= r <= s@.len(),
{
    let n = s.unicode_len();
    let mut i = from;
    while i < n
        invariant
            n == s@.len(),
            from <= i <= n,
            char_from(s@, c, from as int) == char_from(s@, c, i as int),
        decreases n - i,
    {
        if s.get_char(i) == c {
            return i;
        }
        i = i + 1;
    }
    i
}

/// The texts of `s` between the separators `c`, in order.
pub fn split_text(s: &str, c: char) -> (r: Vec<String>)
    ensures
        r@.map_values(|t: String| t@) == pieces(s@, c),
{
    let n = s.unicode_len();
    let mut out: Vec<String> = Vec::new();
    let mut i: usize = 0;
    proof {
        assert(s@.skip(0) =~= s@);
        assert(out@.map_values(|t: String| t@) + pieces(s@.skip(0), c) =~= pieces(s@, c));
    }
    loop
        invariant
            n == s@.len(),
            0 <= i <= n,
            pieces(s@, c) == out@.map_values(|t: String| t@) + pieces(s@.skip(i as int), c),
        decreases n - i,
    {
        let d = find_char(s, c, i);
        let piece = s.substring_char(i, d).to_owned();
        proof {
            let rest = s@.skip(i as int);
            lemma_char_from_skip(s@, c, i as int, i as int);
            assert(char_from(rest, c, 0) == d - i);
            assert(rest.subrange(0, d - i) =~= piece@);
            if d < n {
                assert(rest.skip(d - i + 1) =~= s@.skip(d + 1));
            } else {
                assert(rest =~= piece@);
            }
        }
        let ghost before = out@;
        out.push(piece);
        proof {
            assert(out@.map_values(|t: String| t@) =~= before.map_values(|t: String| t@).push(piece@));
        }
        if d >= n {
            proof {
                assert(pieces(s@.skip(i as int), c) == seq![piece@]);
                assert(pieces(s@, c) =~= out@.map_values(|t: String| t@));
            }
            return out;
        }
        proof {
            assert(pieces(s@.skip(i as int), c) == seq![piece@] + pieces(s@.skip(d + 1), c));
            assert(pieces(s@, c) =~= out@.map_values(|t: String| t@) + pieces(s@.skip(d + 1), c));
        }
        i = d + 1;
    }
}

/// Whether `c` has the Unicode White_Space property, the whitespace that
/// `str::trim` removes.
pub open spec fn is_ws(c: char) -> bool {
    let u = c as u32;
    ||| 0x9 <= u <= 0xD
    ||| u == 0x20
    ||| u == 0x85
    ||| u == 0xA0
    ||| u == 0x1680
    ||| 0x2000 <= u <= 0x200A
    ||| u == 0x2028
    ||| u == 0x2029
    ||| u == 0x202F
    ||| u == 0x205F
    ||| u == 0x3000
}

fn ws_char(c: char) -> (r: bool)
    ensures
        r == is_ws(c),
{
    let u = c as u32;
    (0x9 <= u && u <= 0xD) || u == 0x20 || u == 0x85 || u == 0xA0 || u == 0x1680 || (0x2000 <= u && u <= 0x200A)
        || u == 0x2028 || u == 0x2029 || u == 0x202F || u == 0x205F || u == 0x3000
}

/// `s` without its leading whitespace.
pub open spec fn trim_start(s: Seq<char>) -> Seq<char>
    decreases s.len(),
{
    if s.len() > 0 && is_ws(s[0]) {
        trim_start(s.skip(1))
    } else {
        s
    }
}

/// `s` without its trailing whitespace.
pub open spec fn trim_end(s: Seq<char>) -> Seq<char>
    decreases s.len(),
{
    if s.len() > 0 && is_ws(s.last()) {
        trim_end(s.drop_last())
    } else {
        s
    }
}

/// The text without the whitespace at its two ends.
pub open spec fn trimmed(s: Seq<char>) -> Seq<char> {
    trim_end(trim_start(s))
}

/// The text without the whitespace at its two ends, as `str::trim` gives it.
pub fn trim_text(s: &str) -> (r: &str)
    ensures
        r@ == trimmed(s@),
{
    let n = s.unicode_len();
    let mut i: usize = 0;
    proof {
        assert(s@.skip(0) =~= s@);
    }
    while i < n && ws_char(s.get_char(i))
        invariant
            n == s@.len(),
            0 <= i <= n,
            trim_start(s@) == trim_start(s@.skip(i as int)),
        decreases n - i,
    {
        proof {
            assert(s@.skip(i as int)[0] == s@[i as int]);
            assert(s@.skip(i as int).skip(1) =~= s@.skip(i as int + 1));
        }
        i = i + 1;
    }
    proof {
        if i < n {
            assert(s@.skip(i as int)[0] == s@[i as int]);
        }
        assert(trim_start(s@) == s@.skip(i as int));
        assert(s@.skip(i as int) =~= s@.subrange(i as int, n as int));
    }
    let mut j: usize = n;
    while j > i && ws_char(s.get_char(j - 1))
        invariant
            n == s@.len(),
            0 <= i <= j <= n,
            trimmed(s@) == trim_end(s@.subrange(i as int, j as int)),
        decreases j,
    {
        proof {
            assert(s@.subrange(i as int, j as int).last() == s@[j - 1]);
            assert(s@.subrange(i as int, j as int).drop_last() =~= s@.subrange(i as int, j - 1));
        }
        j = j - 1;
    }
    proof {
        if j > i {
            assert(s@.subrange(i as int, j as int).last() == s@[j - 1]);
        }
    }
    s.substring_char(i, j)
}

} // verus!
