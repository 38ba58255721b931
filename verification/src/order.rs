//! Orders used to sort what the site lists: text in the order of `str`,
//! and dates written in the forms that metadata uses.
use vstd::prelude::*;

use crate::text::{
    chars_of, eq_str, find_char, find_from, is_ascii_digit, slice_to_vec, trim, trimmed,
};

verus! {

// ---------------------------------------------------------------------------
// Text order
// ---------------------------------------------------------------------------
/// `a < b` in the order of `str`: lexicographic by scalar value.
pub open spec fn seq_lt(a: Seq<char>, b: Seq<char>) -> bool
    decreases a.len(),
{
    if a.len() == 0 {
        b.len() > 0
    } else if b.len() == 0 {
        false
    } else if a[0] != b[0] {
        (a[0] as u32) < (b[0] as u32)
    } else {
        seq_lt(a.drop_first(), b.drop_first())
    }
}

pub proof fn lemma_seq_lt_irreflexive(a: Seq<char>)
    ensures
        !seq_lt(a, a),
    decreases a.len(),
{
    if a.len() > 0 {
        lemma_seq_lt_irreflexive(a.drop_first());
    }
}

pub proof fn lemma_seq_lt_transitive(a: Seq<char>, b: Seq<char>, c: Seq<char>)
    requires
        seq_lt(a, b),
        seq_lt(b, c),
    ensures
        seq_lt(a, c),
    decreases a.len(),
{
    if a.len() > 0 && b.len() > 0 && c.len() > 0 && a[0] == b[0] && b[0] == c[0] {
        lemma_seq_lt_transitive(a.drop_first(), b.drop_first(), c.drop_first());
    }
}

/// Whether `a` comes before `b` in the order of `str`.
pub fn chars_lt(a: &[char], b: &[char]) -> (r: bool)
    ensures
        r == seq_lt(a@, b@),
{
    let mut i: usize = 0;
    assert(a@.skip(0) =~= a@);
    assert(b@.skip(0) =~= b@);
    loop
        invariant
            i <= a@.len(),
            i <= b@.len(),
            seq_lt(a@, b@) == seq_lt(a@.skip(i as int), b@.skip(i as int)),
        decreases a@.len() - i,
    {
        if i == a.len() {
            return i < b.len();
        }
        if i == b.len() {
            return false;
        }
        if a[i] != b[i] {
            return (a[i] as u32) < (b[i] as u32);
        }
        assert(a@.skip(i as int).drop_first() =~= a@.skip(i + 1));
        assert(b@.skip(i as int).drop_first() =~= b@.skip(i + 1));
        i = i + 1;
    }
}

// ---------------------------------------------------------------------------
// Dates
// ---------------------------------------------------------------------------
pub open spec fn all_digits(s: Seq<char>) -> bool {
    forall|i: int| 0 <= i < s.len() ==> is_ascii_digit(#[trigger] s[i])
}

/// The number written by decimal digits.
pub open spec fn dec_value(s: Seq<char>) -> nat
    decreases s.len(),
{
    if s.len() == 0 {
        0
    } else {
        dec_value(s.drop_last()) * 10 + ((s.last() as u32) - 48) as nat
    }
}

/// `YYYY-MM-DD`, as (year, month, day).
pub open spec fn iso_date(s: Seq<char>) -> Option<(nat, nat, nat)> {
    if s.len() == 10 && s[4] == '-' && s[7] == '-' && all_digits(s.take(4)) && all_digits(
        s.subrange(5, 7),
    ) && all_digits(s.skip(8)) {
        Some((dec_value(s.take(4)), dec_value(s.subrange(5, 7)), dec_value(s.skip(8))))
    } else {
        None
    }
}

/// The number of an English month name or of its three-letter
/// abbreviation; 0 for anything else.
pub open spec fn month_number(s: Seq<char>) -> nat {
    if s == "January"@ || s == "Jan"@ {
        1
    } else if s == "February"@ || s == "Feb"@ {
        2
    } else if s == "March"@ || s == "Mar"@ {
        3
    } else if s == "April"@ || s == "Apr"@ {
        4
    } else if s == "May"@ {
        5
    } else if s == "June"@ || s == "Jun"@ {
        6
    } else if s == "July"@ || s == "Jul"@ {
        7
    } else if s == "August"@ || s == "Aug"@ {
        8
    } else if s == "September"@ || s == "Sep"@ {
        9
    } else if s == "October"@ || s == "Oct"@ {
        10
    } else if s == "November"@ || s == "Nov"@ {
        11
    } else if s == "December"@ || s == "Dec"@ {
        12
    } else {
        0
    }
}

/// `Month D, YYYY` (one or two day digits), as (year, month, day).
pub open spec fn long_date(s: Seq<char>) -> Option<(nat, nat, nat)> {
    match find_from(s, seq![' '], 0) {
        None => None,
        Some(sp) => {
            let m = month_number(s.take(sp));
            let rest = s.skip(sp + 1);
            match find_from(rest, seq![','], 0) {
                None => None,
                Some(c) => {
                    let day = rest.take(c);
                    let tail = rest.skip(c);
                    if m > 0 && 1 <= day.len() <= 2 && all_digits(day) && tail.len() == 6
                        && tail[1] == ' ' && all_digits(tail.skip(2)) {
                        Some((dec_value(tail.skip(2)), m, dec_value(day)))
                    } else {
                        None
                    }
                },
            }
        },
    }
}

/// The date a text names, ignoring surrounding whitespace.
pub open spec fn parse_date_spec(s: Seq<char>) -> Option<(nat, nat, nat)> {
    let t = trim(s);
    match iso_date(t) {
        Some(d) => Some(d),
        None => long_date(t),
    }
}

/// Chronological order of (year, month, day).
pub open spec fn ymd_lt(x: (nat, nat, nat), y: (nat, nat, nat)) -> bool {
    x.0 < y.0 || (x.0 == y.0 && (x.1 < y.1 || (x.1 == y.1 && x.2 < y.2)))
}

/// The order of date values: dates chronologically, any date after any
/// text that is not a date, texts that are not dates in the order of `str`.
pub open spec fn date_lt(a: Seq<char>, b: Seq<char>) -> bool {
    match (parse_date_spec(a), parse_date_spec(b)) {
        (Some(x), Some(y)) => ymd_lt(x, y),
        (None, Some(_)) => true,
        (Some(_), None) => false,
        (None, None) => seq_lt(a, b),
    }
}

/// Date values that the order does not separate.
pub open spec fn date_same(a: Seq<char>, b: Seq<char>) -> bool {
    match (parse_date_spec(a), parse_date_spec(b)) {
        (Some(x), Some(y)) => x == y,
        (None, None) => a == b,
        _ => false,
    }
}

pub proof fn lemma_date_lt_irreflexive(a: Seq<char>)
    ensures
        !date_lt(a, a),
{
    lemma_seq_lt_irreflexive(a);
}

pub proof fn lemma_date_lt_transitive(a: Seq<char>, b: Seq<char>, c: Seq<char>)
    requires
        date_lt(a, b),
        date_lt(b, c),
    ensures
        date_lt(a, c),
{
    if parse_date_spec(a) is None && parse_date_spec(b) is None && parse_date_spec(c) is None {
        lemma_seq_lt_transitive(a, b, c);
    }
}

/// Two values are either ordered one way, the other way, or the same.
pub proof fn lemma_date_total(a: Seq<char>, b: Seq<char>)
    ensures
        date_lt(a, b) || date_lt(b, a) || date_same(a, b),
{
    if parse_date_spec(a) is None && parse_date_spec(b) is None {
        lemma_seq_lt_total(a, b);
    }
}

pub proof fn lemma_seq_lt_total(a: Seq<char>, b: Seq<char>)
    ensures
        seq_lt(a, b) || seq_lt(b, a) || a == b,
    decreases a.len(),
{
    if a.len() > 0 && b.len() > 0 {
        if a[0] == b[0] {
            lemma_seq_lt_total(a.drop_first(), b.drop_first());
            if a.drop_first() == b.drop_first() {
                assert(a =~= seq![a[0]] + a.drop_first());
                assert(b =~= seq![b[0]] + b.drop_first());
            }
        } else {
            vstd::utf8::char_u32_cast(a[0], a[0] as u32);
            vstd::utf8::char_u32_cast(b[0], b[0] as u32);
        }
    } else if a.len() == 0 && b.len() == 0 {
        assert(a =~= b);
    }
}

fn digits_value(s: &[char]) -> (r: Option<u32>)
    requires
        s@.len() <= 4,
    ensures
        all_digits(s@) ==> r == Some(dec_value(s@) as u32) && dec_value(s@) < 10000,
        !all_digits(s@) ==> r is None,
{
    let mut v: u32 = 0;
    let mut i: usize = 0;
    while i < s.len()
        invariant
            i <= s@.len() <= 4,
            all_digits(s@.take(i as int)),
            v as nat == dec_value(s@.take(i as int)),
            i == 0 ==> v == 0,
            i == 1 ==> v < 10,
            i == 2 ==> v < 100,
            i == 3 ==> v < 1000,
            i == 4 ==> v < 10000,
        decreases s.len() - i,
    {
        let c = s[i];
        if !crate::text::ascii_digit(c) {
            assert(!all_digits(s@)) by {
                assert(s@[i as int] == c);
            }
            return None;
        }
        assert(s@.take(i + 1).drop_last() =~= s@.take(i as int));
        v = v * 10 + (c as u32 - 48);
        i = i + 1;
    }
    assert(s@.take(i as int) =~= s@);
    Some(v)
}

fn iso_date_exec(s: &[char]) -> (r: Option<(u32, u32, u32)>)
    ensures
        match iso_date(s@) {
            Some(d) => r == Some((d.0 as u32, d.1 as u32, d.2 as u32)) && d.0 < 10000 && d.1
                < 10000 && d.2 < 10000,
            None => r is None,
        },
{
    if s.len() != 10 || s[4] != '-' || s[7] != '-' {
        return None;
    }
    let y = slice_to_vec(s, 0, 4);
    let m = slice_to_vec(s, 5, 7);
    let d = slice_to_vec(s, 8, 10);
    assert(y@ =~= s@.take(4));
    assert(d@ =~= s@.skip(8));
    match (digits_value(y.as_slice()), digits_value(m.as_slice()), digits_value(d.as_slice())) {
        (Some(a), Some(b), Some(c)) => Some((a, b, c)),
        _ => None,
    }
}

fn month_number_exec(s: &[char]) -> (r: u32)
    ensures
        r as nat == month_number(s@),
{
    if eq_str(s, "January") || eq_str(s, "Jan") {
        1
    } else if eq_str(s, "February") || eq_str(s, "Feb") {
        2
    } else if eq_str(s, "March") || eq_str(s, "Mar") {
        3
    } else if eq_str(s, "April") || eq_str(s, "Apr") {
        4
    } else if eq_str(s, "May") {
        5
    } else if eq_str(s, "June") || eq_str(s, "Jun") {
        6
    } else if eq_str(s, "July") || eq_str(s, "Jul") {
        7
    } else if eq_str(s, "August") || eq_str(s, "Aug") {
        8
    } else if eq_str(s, "September") || eq_str(s, "Sep") {
        9
    } else if eq_str(s, "October") || eq_str(s, "Oct") {
        10
    } else if eq_str(s, "November") || eq_str(s, "Nov") {
        11
    } else if eq_str(s, "December") || eq_str(s, "Dec") {
        12
    } else {
        0
    }
}

fn long_date_exec(s: &[char]) -> (r: Option<(u32, u32, u32)>)
    ensures
        match long_date(s@) {
            Some(d) => r == Some((d.0 as u32, d.1 as u32, d.2 as u32)) && d.0 < 10000 && d.1
                < 10000 && d.2 < 10000,
            None => r is None,
        },
{
    let sp = match find_char(s, ' ', 0) {
        Some(k) => k,
        None => {
            return None;
        },
    };
    let n = s.len();
    let name = slice_to_vec(s, 0, sp);
    assert(name@ =~= s@.take(sp as int));
    let m = month_number_exec(name.as_slice());
    let rest = slice_to_vec(s, sp + 1, s.len());
    assert(rest@ =~= s@.skip(sp + 1));
    let c = match find_char(rest.as_slice(), ',', 0) {
        Some(k) => k,
        None => {
            return None;
        },
    };
    let day = slice_to_vec(rest.as_slice(), 0, c);
    let tail = slice_to_vec(rest.as_slice(), c, rest.len());
    assert(day@ =~= rest@.take(c as int));
    assert(tail@ =~= rest@.skip(c as int));
    if m == 0 || day.len() < 1 || day.len() > 2 || tail.len() != 6 || tail[1] != ' ' {
        return None;
    }
    let year = slice_to_vec(tail.as_slice(), 2, 6);
    assert(year@ =~= tail@.skip(2));
    match (digits_value(day.as_slice()), digits_value(year.as_slice())) {
        (Some(d), Some(y)) => Some((y, m, d)),
        _ => None,
    }
}

/// The (year, month, day) of a date value, if it is a date.
pub fn parse_date(s: &str) -> (r: Option<(u32, u32, u32)>)
    ensures
        match parse_date_spec(s@) {
            Some(d) => r == Some((d.0 as u32, d.1 as u32, d.2 as u32)) && d.0 < 10000 && d.1
                < 10000 && d.2 < 10000,
            None => r is None,
        },
{
    let v = chars_of(s);
    let t = trimmed(v.as_slice());
    match iso_date_exec(t.as_slice()) {
        Some(d) => Some(d),
        None => long_date_exec(t.as_slice()),
    }
}

/// Compares two date values: `Less`, `Equal` or `Greater` as numbers -1, 0, 1.
pub fn compare_dates(a: &str, b: &str) -> (r: i8)
    ensures
        r == -1 <==> date_lt(a@, b@),
        r == 1 <==> date_lt(b@, a@),
        r == 0 <==> date_same(a@, b@),
{
    proof {
        lemma_date_total(a@, b@);
        lemma_date_lt_irreflexive(a@);
        if date_lt(a@, b@) && date_lt(b@, a@) {
            lemma_date_lt_transitive(a@, b@, a@);
        }
    }
    match (parse_date(a), parse_date(b)) {
        (Some(x), Some(y)) => {
            if x.0 < y.0 || (x.0 == y.0 && (x.1 < y.1 || (x.1 == y.1 && x.2 < y.2))) {
                -1
            } else if x.0 == y.0 && x.1 == y.1 && x.2 == y.2 {
                0
            } else {
                1
            }
        },
        (None, Some(_)) => -1,
        (Some(_), None) => 1,
        (None, None) => {
            let av = chars_of(a);
            let bv = chars_of(b);
            if chars_lt(av.as_slice(), bv.as_slice()) {
                -1
            } else if chars_lt(bv.as_slice(), av.as_slice()) {
                1
            } else {
                proof {
                    lemma_seq_lt_total(a@, b@);
                }
                0
            }
        },
    }
}

} // verus!
