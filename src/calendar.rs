use vstd::prelude::*;

use crate::text::{chars_of, compare_text, text_le, trim_chars, trim_ws};

verus! {

// ---------------------------------------------------------------------------
// Weekly schedule assignments
// ---------------------------------------------------------------------------

/// A schedule assigned to a weekday, optionally limited to a date range
/// (`YYYY-MM-DD` texts, both ends included).
#[derive(Debug, Clone, PartialEq)]
pub struct AssignmentRow {
    pub id: String,
    pub schedule_id: String,
    pub day_of_week: i8,
    pub start_date: Option<String>,
    pub end_date: Option<String>,
}

pub open spec fn applies_spec(start: Option<String>, end: Option<String>, date: Seq<char>) -> bool {
    (match start {
        Some(s) => text_le(s@, date),
        None => true,
    }) && (match end {
        Some(e) => text_le(date, e@),
        None => true,
    })
}

/// Whether an assignment covers `date`: on or after its start and on or
/// before its end, where given.
pub fn assignment_applies_to_date(a: &AssignmentRow, date: &str) -> (r: bool)
    ensures
        r == applies_spec(a.start_date, a.end_date, date@),
{
    let d = chars_of(date);
    let after_start = match &a.start_date {
        Some(s) => compare_text(&chars_of(s.as_str()), &d) <= 0,
        None => true,
    };
    let before_end = match &a.end_date {
        Some(e) => compare_text(&d, &chars_of(e.as_str())) <= 0,
        None => true,
    };
    after_start && before_end
}

/// How strongly an assignment claims its day: bounded assignments (with a
/// start or an end date) over open ones, then the later start.
pub fn assignment_priority(a: &AssignmentRow) -> (r: (i8, Option<&str>))
    ensures
        r.0 == if a.start_date is Some || a.end_date is Some {
            1i8
        } else {
            0i8
        },
        match a.start_date {
            Some(s) => r.1 matches Some(t) && t@ == s@,
            None => r.1 is None,
        },
{
    let bounded: i8 = if a.start_date.is_some() || a.end_date.is_some() {
        1
    } else {
        0
    };
    let start = match &a.start_date {
        Some(s) => Some(s.as_str()),
        None => None,
    };
    (bounded, start)
}

// ---------------------------------------------------------------------------
// Decimal numbers and ISO weeks
// ---------------------------------------------------------------------------

pub open spec fn is_digit(c: char) -> bool {
    '0' <= c && c <= '9'
}

pub open spec fn all_digits(s: Seq<char>) -> bool {
    forall|i: int| 0 <= i < s.len() ==> is_digit(#[trigger] s[i])
}

/// The value of a run of decimal digits.
pub open spec fn digits_value(s: Seq<char>) -> int
    decreases s.len(),
{
    if s.len() == 0 {
        0
    } else {
        digits_value(s.drop_last()) * 10 + (s.last() as int - '0' as int)
    }
}

/// The number that `s` spells: optional sign (a `-` only when `signed`),
/// then one or more decimal digits; within `[lo, hi]`. As `str::parse` of
/// a primitive integer reads it.
pub open spec fn parsed_int(s: Seq<char>, signed: bool, lo: int, hi: int) -> Option<int> {
    let negative = signed && s.len() > 0 && s[0] == '-';
    let body = if s.len() > 0 && (s[0] == '+' || negative) {
        s.drop_first()
    } else {
        s
    };
    let v = if negative {
        -digits_value(body)
    } else {
        digits_value(body)
    };
    if body.len() > 0 && all_digits(body) && lo <= v <= hi {
        Some(v)
    } else {
        None
    }
}

/// Reads the digits of `v[from..]`: their value when all are digits and the
/// value is at most `limit`, `None` otherwise.
fn read_digits(v: &Vec<char>, from: usize, limit: u64) -> (r: Option<u64>)
    requires
        from <= v@.len(),
        limit <= 0xffff_ffff,
    ensures
        ({
            let body = v@.subrange(from as int, v@.len() as int);
            match r {
                Some(n) => all_digits(body) && n == digits_value(body) && n <= limit,
                None => !all_digits(body) || digits_value(body) > limit,
            }
        }),
{
    let ghost body = v@.subrange(from as int, v@.len() as int);
    let mut acc: u64 = 0;
    let mut big = false;
    let mut i: usize = from;
    while i < v.len()
        invariant
            from <= i <= v@.len(),
            limit <= 0xffff_ffff,
            body == v@.subrange(from as int, v@.len() as int),
            all_digits(v@.subrange(from as int, i as int)),
            !big ==> acc == digits_value(v@.subrange(from as int, i as int)) && acc <= limit,
            big ==> digits_value(v@.subrange(from as int, i as int)) > limit,
        decreases v@.len() - i,
    {
        let c = v[i];
        let ghost prefix = v@.subrange(from as int, i as int);
        let ghost next = v@.subrange(from as int, i + 1);
        proof {
            assert(next.drop_last() =~= prefix);
        }
        if !('0' <= c && c <= '9') {
            assert(!is_digit(body[i - from]));
            return None;
        }
        proof {
            assert forall|k: int| 0 <= k < next.len() implies is_digit(#[trigger] next[k]) by {
                if k < prefix.len() {
                    assert(next[k] == prefix[k]);
                }
            }
        }
        let d = (c as u32 - '0' as u32) as u64;
        if !big {
            let n = acc * 10 + d;
            if n > limit {
                big = true;
            } else {
                acc = n;
            }
        } else {
            proof {
                assert(digits_value(prefix) >= 0) by {
                    lemma_digits_nonneg(prefix);
                }
            }
        }
        i = i + 1;
    }
    proof {
        assert(v@.subrange(from as int, v@.len() as int) == body);
    }
    if big {
        None
    } else {
        Some(acc)
    }
}

proof fn lemma_digits_nonneg(s: Seq<char>)
    requires
        all_digits(s),
    ensures
        digits_value(s) >= 0,
    decreases s.len(),
{
    if s.len() > 0 {
        assert forall|i: int| 0 <= i < s.drop_last().len() implies is_digit(#[trigger] s.drop_last()[i]) by {
            assert(s.drop_last()[i] == s[i]);
        }
        lemma_digits_nonneg(s.drop_last());
        assert(is_digit(s[s.len() - 1]));
    }
}

/// Reads an integer as `str::parse::<i32>` (when `signed`) or
/// `str::parse::<u32>` does: optional sign, then decimal digits only.
fn parse_number(v: &Vec<char>, signed: bool) -> (r: Option<i64>)
    ensures
        ({
            let lo: int = if signed { -0x8000_0000 } else { 0 };
            let hi: int = if signed { 0x7fff_ffff } else { 0xffff_ffff };
            match r {
                Some(n) => parsed_int(v@, signed, lo, hi) == Some(n as int),
                None => parsed_int(v@, signed, lo, hi) is None,
            }
        }),
{
    let negative = signed && v.len() > 0 && v[0] == '-';
    let skip: usize = if v.len() > 0 && (v[0] == '+' || negative) {
        1
    } else {
        0
    };
    proof {
        if skip == 1 {
            assert(v@.subrange(1, v@.len() as int) =~= v@.drop_first());
        } else {
            assert(v@.subrange(0, v@.len() as int) =~= v@);
        }
    }
    if skip == v.len() {
        return None;
    }
    let limit: u64 = if !signed {
        0xffff_ffff
    } else if negative {
        0x8000_0000
    } else {
        0x7fff_ffff
    };
    match read_digits(v, skip, limit) {
        Some(n) => {
            if negative {
                Some(-(n as i64))
            } else {
                Some(n as i64)
            }
        },
        None => {
            proof {
                let body = v@.subrange(skip as int, v@.len() as int);
                if all_digits(body) {
                    lemma_digits_nonneg(body);
                }
            }
            None
        },
    }
}

pub open spec fn first_dash(s: Seq<char>) -> Option<int>
    decreases s.len(),
{
    if s.len() == 0 {
        None
    } else if s[0] == '-' {
        Some(0)
    } else {
        match first_dash(s.drop_first()) {
            Some(k) => Some(k + 1),
            None => None,
        }
    }
}

proof fn lemma_first_dash(s: Seq<char>, k: int)
    requires
        0 <= k <= s.len(),
        forall|j: int| 0 <= j < k ==> s[j] != '-',
        k < s.len() ==> s[k] == '-',
    ensures
        first_dash(s) == if k < s.len() {
            Some(k)
        } else {
            None::<int>
        },
    decreases s.len(),
{
    if s.len() > 0 && s[0] != '-' {
        lemma_first_dash(s.drop_first(), k - 1);
    }
}

/// The year and week of an ISO week label `YYYY-Wnn` (trimmed): the year
/// before the first `-`, then `W` and the week, from 1 to 53.
pub open spec fn iso_week_spec(s: Seq<char>) -> Option<(i32, u32)> {
    let t = trim_ws(s);
    match first_dash(t) {
        Some(k) => {
            let year = parsed_int(t.subrange(0, k), true, -0x8000_0000, 0x7fff_ffff);
            let rest = t.subrange(k + 1, t.len() as int);
            if rest.len() > 0 && rest[0] == 'W' {
                let week = parsed_int(rest.drop_first(), false, 0, 0xffff_ffff);
                match (year, week) {
                    (Some(y), Some(w)) => if 1 <= w <= 53 {
                        Some((y as i32, w as u32))
                    } else {
                        None
                    },
                    _ => None,
                }
            } else {
                None
            }
        },
        None => None,
    }
}

fn copy_chars(v: &Vec<char>, from: usize, to: usize) -> (r: Vec<char>)
    requires
        from <= to <= v@.len(),
    ensures
        r@ == v@.subrange(from as int, to as int),
{
    let mut out: Vec<char> = Vec::new();
    let mut k: usize = from;
    while k < to
        invariant
            from <= k <= to <= v@.len(),
            out@ == v@.subrange(from as int, k as int),
        decreases to - k,
    {
        out.push(v[k]);
        proof {
            assert(v@.subrange(from as int, k + 1) =~= v@.subrange(from as int, k as int).push(v@[k as int]));
        }
        k = k + 1;
    }
    out
}

/// Reads an ISO week label such as `2025-W07` into `(2025, 7)`.
pub fn parse_iso_week(s: &str) -> (r: Option<(i32, u32)>)
    ensures
        r == iso_week_spec(s@),
{
    let t = trim_chars(&chars_of(s), false);
    let mut k: usize = 0;
    while k < t.len() && t[k] != '-'
        invariant
            k <= t@.len(),
            forall|j: int| 0 <= j < k ==> t@[j] != '-',
        decreases t@.len() - k,
    {
        k = k + 1;
    }
    proof {
        lemma_first_dash(t@, k as int);
    }
    if k == t.len() {
        return None;
    }
    let year_text = copy_chars(&t, 0, k);
    let rest = copy_chars(&t, k + 1, t.len());
    if rest.len() == 0 || rest[0] != 'W' {
        return None;
    }
    let week_text = copy_chars(&rest, 1, rest.len());
    proof {
        assert(week_text@ =~= rest@.drop_first());
    }
    let year = parse_number(&year_text, true);
    let week = parse_number(&week_text, false);
    match (year, week) {
        (Some(y), Some(w)) => {
            if 1 <= w && w <= 53 {
                Some((y as i32, w as u32))
            } else {
                None
            }
        },
        _ => None,
    }
}

// ---------------------------------------------------------------------------
// Visual document types
// ---------------------------------------------------------------------------

pub open spec fn document_type_spec(s: Seq<char>) -> bool {
    s == "DAILY_SCHEDULE"@ || s == "FIRST_THEN"@ || s == "CHOICE_BOARD"@ || s == "ROUTINE_STEPS"@
        || s == "EMOTION_CARDS"@ || s == "AAC_BOARD"@ || s == "REWARD_TRACKER"@
}

/// Whether a text names one of the kinds of visual document.
pub fn is_valid_document_type(value: &str) -> (r: bool)
    ensures
        r == document_type_spec(value@),
{
    let v = String::from_str(value);
    v == String::from_str("DAILY_SCHEDULE") || v == String::from_str("FIRST_THEN") || v
        == String::from_str("CHOICE_BOARD") || v == String::from_str("ROUTINE_STEPS") || v
        == String::from_str("EMOTION_CARDS") || v == String::from_str("AAC_BOARD") || v
        == String::from_str("REWARD_TRACKER")
}

} // verus!
