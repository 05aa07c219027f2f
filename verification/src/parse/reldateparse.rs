//! The relative range grammar.
//!
//! An expression is either the keyword `"now"` or a count followed by a
//! unit:
//!
//! ```text
//! "now" | COUNT UNIT
//! UNIT := d | day | days | w | wk | week | wks | weeks
//!       | m | mo | month | mos | months | y | yr | ye | year | yrs | yes | years
//! ```
//!
//! Keywords are case-insensitive; surrounding whitespace is tolerated.
//! `"now"` resolves to the start of the day after "today", so that a
//! range bounded by it covers all of today.  A count is 1-based and
//! inclusive of the current period: `"1 day"` is the start of today,
//! `"2 days"` the start of yesterday, `"1w"` the start of the current
//! week (its Monday), `"1m"` the first of the current month, `"1y"`
//! January 1 of the current year; a count of 0 is treated as 1.  The
//! resolved local midnight is turned into a UTC instant by the caller's
//! time zone, keeping the earliest instant when a clock fall-back makes
//! it ambiguous and failing when a clock jump skips it.

use vstd::prelude::*;
use crate::calendar::{
    Date,
    DAY_RANGE,
    EPOCH_DAY_INDEX,
    days_before_month,
    days_before_year,
    month_start_back,
    next_day,
    sub_days,
    utc_timestamp,
    year_start_back,
};
use crate::parse::scan::{
    advance_spaces,
    chars_of,
    digit,
    digit_value,
    digits_val,
    is_digit,
    retreat_spaces,
    rstrip_spaces,
    skip_spaces,
    word_is,
};
use crate::tz::local_to_utc_earliest;

verus! {

/// The unit of a relative range expression.
#[derive(Clone, Copy, PartialEq, Eq, Structural, Debug)]
pub enum RelUnit {
    Day,
    Week,
    Month,
    Year,
}

/// The keyword resolving to the start of the day after "today".
pub open spec fn now_word() -> Seq<char> {
    seq!['n', 'o', 'w']
}

/// The unit named by the range `[i, b)` of `s`, if any.  Every spelling
/// is a whole word, so at most one can match.
pub open spec fn unit_at(s: Seq<char>, i: int, b: int) -> Option<RelUnit> {
    if word_is(s, i, b, seq!['d']) || word_is(s, i, b, seq!['d', 'a', 'y']) || word_is(
        s,
        i,
        b,
        seq!['d', 'a', 'y', 's'],
    ) {
        Some(RelUnit::Day)
    } else if word_is(s, i, b, seq!['w']) || word_is(s, i, b, seq!['w', 'k']) || word_is(
        s,
        i,
        b,
        seq!['w', 'e', 'e', 'k'],
    ) || word_is(s, i, b, seq!['w', 'k', 's']) || word_is(s, i, b, seq!['w', 'e', 'e', 'k', 's']) {
        Some(RelUnit::Week)
    } else if word_is(s, i, b, seq!['m']) || word_is(s, i, b, seq!['m', 'o']) || word_is(
        s,
        i,
        b,
        seq!['m', 'o', 'n', 't', 'h'],
    ) || word_is(s, i, b, seq!['m', 'o', 's']) || word_is(
        s,
        i,
        b,
        seq!['m', 'o', 'n', 't', 'h', 's'],
    ) {
        Some(RelUnit::Month)
    } else if word_is(s, i, b, seq!['y']) || word_is(s, i, b, seq!['y', 'r']) || word_is(
        s,
        i,
        b,
        seq!['y', 'e'],
    ) || word_is(s, i, b, seq!['y', 'e', 'a', 'r']) || word_is(s, i, b, seq!['y', 'r', 's'])
        || word_is(s, i, b, seq!['y', 'e', 's']) || word_is(
        s,
        i,
        b,
        seq!['y', 'e', 'a', 'r', 's'],
    ) {
        Some(RelUnit::Year)
    } else {
        None
    }
}

/// The first position at or after `i`, but not past `b`, that does not
/// hold a decimal digit.
pub open spec fn digits_end(s: Seq<char>, i: int, b: int) -> int
    decreases b - i,
{
    if i < b && is_digit(s[i]) {
        digits_end(s, i + 1, b)
    } else {
        i
    }
}

/// Whether the expression is the keyword `"now"`.
pub open spec fn is_now_expr(s: Seq<char>) -> bool {
    let a = skip_spaces(s, 0, s.len() as int);
    let b = rstrip_spaces(s, a, s.len() as int);
    word_is(s, a, b, now_word())
}

/// The parsed count and unit of a relative expression, or nothing when
/// the text does not match the grammar or the count does not fit 32
/// bits.
pub open spec fn spec_rel_expr(s: Seq<char>) -> Option<(int, RelUnit)> {
    let a = skip_spaces(s, 0, s.len() as int);
    let b = rstrip_spaces(s, a, s.len() as int);
    let e = digits_end(s, a, b);
    if e == a {
        None
    } else {
        let j = skip_spaces(s, e, b);
        match unit_at(s, j, b) {
            None => None,
            Some(u) => if digits_val(s, a, e) <= u32::MAX {
                Some((digits_val(s, a, e), u))
            } else {
                None
            },
        }
    }
}

/// The day index of the start of the period `count` units back from
/// `today`, or nothing when it leaves the supported range.  A count of
/// 0 is treated as 1; counting is inclusive of the current period.
pub open spec fn spec_resolve_rel(count: int, u: RelUnit, today: Date) -> Option<int> {
    let eff: int = if count == 0 {
        0
    } else {
        count - 1
    };
    match u {
        RelUnit::Day => if eff <= today.day_index() {
            Some(today.day_index() - eff)
        } else {
            None
        },
        RelUnit::Week => if today.spec_weekday() + 7 * eff <= today.day_index() {
            Some(today.day_index() - today.spec_weekday() - 7 * eff)
        } else {
            None
        },
        RelUnit::Month => if eff <= today.months_index() {
            let mi = today.months_index() - eff;
            Some(days_before_year(mi / 12) + days_before_month(mi / 12, mi % 12 + 1))
        } else {
            None
        },
        RelUnit::Year => if eff <= today.year {
            Some(days_before_year(today.year - eff))
        } else {
            None
        },
    }
}

/// The day index of the local midnight a relative expression denotes,
/// anchored at `today`, or nothing when the expression is rejected.
pub open spec fn spec_parse_relative(s: Seq<char>, today: Date) -> Option<int> {
    if is_now_expr(s) {
        if today.day_index() + 1 < DAY_RANGE {
            Some(today.day_index() + 1)
        } else {
            None
        }
    } else {
        match spec_rel_expr(s) {
            None => None,
            Some((count, u)) => spec_resolve_rel(count, u, today),
        }
    }
}

/// The UTC timestamp of a relative expression read in UTC itself.
pub open spec fn spec_parse_relative_utc(s: Seq<char>, today: Date) -> Option<int> {
    match spec_parse_relative(s, today) {
        None => None,
        Some(idx) => Some((idx - EPOCH_DAY_INDEX) * 86400),
    }
}

/// Read the digit run starting at `i`: its end, and its value when it
/// fits 32 bits.
fn read_count(v: &Vec<char>, i: usize, b: usize) -> (r: (usize, Option<u32>))
    requires
        i <= b <= v@.len(),
    ensures
        r.0 == digits_end(v@, i as int, b as int),
        i <= r.0 <= b,
        r.1 is Some <==> digits_val(v@, i as int, r.0 as int) <= u32::MAX,
        r.1 matches Some(c) ==> c == digits_val(v@, i as int, r.0 as int),
{
    let mut j = i;
    let mut acc: u64 = 0;
    while j < b && digit(v[j])
        invariant
            i <= j <= b <= v@.len(),
            digits_end(v@, i as int, b as int) == digits_end(v@, j as int, b as int),
            acc <= 0x1_0000_0000,
            digits_val(v@, i as int, j as int) <= u32::MAX ==> acc == digits_val(
                v@,
                i as int,
                j as int,
            ),
            digits_val(v@, i as int, j as int) > u32::MAX ==> acc == 0x1_0000_0000,
        decreases b - j,
    {
        let d = digit_value(v[j]);
        let next = acc * 10 + (d as u64);
        acc = if next > 0xFFFF_FFFF {
            0x1_0000_0000
        } else {
            next
        };
        j = j + 1;
    }
    if acc > 0xFFFF_FFFF {
        (j, None)
    } else {
        (j, Some(acc as u32))
    }
}

/// Find the unit named by the range `[i, b)`.
#[verifier::rlimit(60)]
fn find_unit(v: &Vec<char>, i: usize, b: usize) -> (r: Option<RelUnit>)
    requires
        i <= b <= v@.len(),
    ensures
        r == unit_at(v@, i as int, b as int),
{
    let d1 = vec!['d'];
    let d2 = vec!['d', 'a', 'y'];
    let d3 = vec!['d', 'a', 'y', 's'];
    let w1 = vec!['w'];
    let w2 = vec!['w', 'k'];
    let w3 = vec!['w', 'e', 'e', 'k'];
    let w4 = vec!['w', 'k', 's'];
    let w5 = vec!['w', 'e', 'e', 'k', 's'];
    let m1 = vec!['m'];
    let m2 = vec!['m', 'o'];
    let m3 = vec!['m', 'o', 'n', 't', 'h'];
    let m4 = vec!['m', 'o', 's'];
    let m5 = vec!['m', 'o', 'n', 't', 'h', 's'];
    let y1 = vec!['y'];
    let y2 = vec!['y', 'r'];
    let y3 = vec!['y', 'e'];
    let y4 = vec!['y', 'e', 'a', 'r'];
    let y5 = vec!['y', 'r', 's'];
    let y6 = vec!['y', 'e', 's'];
    let y7 = vec!['y', 'e', 'a', 'r', 's'];
    proof {
        assert(d1@ =~= seq!['d']);
        assert(d2@ =~= seq!['d', 'a', 'y']);
        assert(d3@ =~= seq!['d', 'a', 'y', 's']);
        assert(w1@ =~= seq!['w']);
        assert(w2@ =~= seq!['w', 'k']);
        assert(w3@ =~= seq!['w', 'e', 'e', 'k']);
        assert(w4@ =~= seq!['w', 'k', 's']);
        assert(w5@ =~= seq!['w', 'e', 'e', 'k', 's']);
        assert(m1@ =~= seq!['m']);
        assert(m2@ =~= seq!['m', 'o']);
        assert(m3@ =~= seq!['m', 'o', 'n', 't', 'h']);
        assert(m4@ =~= seq!['m', 'o', 's']);
        assert(m5@ =~= seq!['m', 'o', 'n', 't', 'h', 's']);
        assert(y1@ =~= seq!['y']);
        assert(y2@ =~= seq!['y', 'r']);
        assert(y3@ =~= seq!['y', 'e']);
        assert(y4@ =~= seq!['y', 'e', 'a', 'r']);
        assert(y5@ =~= seq!['y', 'r', 's']);
        assert(y6@ =~= seq!['y', 'e', 's']);
        assert(y7@ =~= seq!['y', 'e', 'a', 'r', 's']);
    }
    if crate::parse::scan::check_word_is(v, i, b, &d1) || crate::parse::scan::check_word_is(
        v,
        i,
        b,
        &d2,
    ) || crate::parse::scan::check_word_is(v, i, b, &d3) {
        return Some(RelUnit::Day);
    }
    if crate::parse::scan::check_word_is(v, i, b, &w1) || crate::parse::scan::check_word_is(
        v,
        i,
        b,
        &w2,
    ) || crate::parse::scan::check_word_is(v, i, b, &w3) || crate::parse::scan::check_word_is(
        v,
        i,
        b,
        &w4,
    ) || crate::parse::scan::check_word_is(v, i, b, &w5) {
        return Some(RelUnit::Week);
    }
    if crate::parse::scan::check_word_is(v, i, b, &m1) || crate::parse::scan::check_word_is(
        v,
        i,
        b,
        &m2,
    ) || crate::parse::scan::check_word_is(v, i, b, &m3) || crate::parse::scan::check_word_is(
        v,
        i,
        b,
        &m4,
    ) || crate::parse::scan::check_word_is(v, i, b, &m5) {
        return Some(RelUnit::Month);
    }
    if crate::parse::scan::check_word_is(v, i, b, &y1) || crate::parse::scan::check_word_is(
        v,
        i,
        b,
        &y2,
    ) || crate::parse::scan::check_word_is(v, i, b, &y3) || crate::parse::scan::check_word_is(
        v,
        i,
        b,
        &y4,
    ) || crate::parse::scan::check_word_is(v, i, b, &y5) || crate::parse::scan::check_word_is(
        v,
        i,
        b,
        &y6,
    ) || crate::parse::scan::check_word_is(v, i, b, &y7) {
        return Some(RelUnit::Year);
    }
    None
}

/// Parse a relative expression and resolve it against `today` to the
/// calendar day whose local midnight it denotes.  Fails exactly when
/// the text matches neither `"now"` nor `COUNT UNIT`, the count does
/// not fit 32 bits, or the resolved day leaves the supported range.
pub fn resolve_relative(date: &str, today: Date) -> (r: Option<Date>)
    requires
        today.valid(),
    ensures
        r is Some <==> spec_parse_relative(date@, today) is Some,
        r matches Some(x) ==> (spec_parse_relative(date@, today) matches Some(idx) && x.valid()
            && x.day_index() == idx),
{
    let v = chars_of(date);
    let n = v.len();
    let a = advance_spaces(&v, 0, n);
    let b = retreat_spaces(&v, a, n);
    if crate::parse::scan::check_word_is(&v, a, b, &vec!['n', 'o', 'w']) {
        return next_day(&today);
    }
    let (e, count) = read_count(&v, a, b);
    if e == a {
        return None;
    }
    let j = advance_spaces(&v, e, b);
    let unit = match find_unit(&v, j, b) {
        None => {
            return None;
        },
        Some(u) => u,
    };
    let count = match count {
        None => {
            return None;
        },
        Some(c) => c,
    };
    let eff: u32 = if count == 0 {
        0
    } else {
        count - 1
    };
    match unit {
        RelUnit::Day => sub_days(&today, eff as u64),
        RelUnit::Week => {
            let wd = today.weekday();
            sub_days(&today, (wd as u64) + 7 * (eff as u64))
        },
        RelUnit::Month => month_start_back(&today, eff),
        RelUnit::Year => year_start_back(&today, eff),
    }
}

/// Parse a relative expression against `today` and read the resolved
/// local midnight in the time zone `timezone`, keeping the earliest UTC
/// instant when the local time is ambiguous.  Returns nothing whenever
/// the expression itself is rejected; whether an accepted midnight
/// exists in `timezone` is decided by the zone's transition table.
pub fn parse_relative_date(date: &str, timezone: &tzfile::Tz, today: Date) -> (r: Option<i64>)
    requires
        today.valid(),
    ensures
        r is Some ==> spec_parse_relative(date@, today) is Some,
{
    match resolve_relative(date, today) {
        None => None,
        Some(x) => local_to_utc_earliest(timezone, x.year, x.month, x.day, 0, 0, 0),
    }
}

/// Parse a relative expression against `today`, reading the resolved
/// local midnight in UTC itself.
pub fn parse_relative_date_utc(date: &str, today: Date) -> (r: Option<i64>)
    requires
        today.valid(),
    ensures
        r is Some <==> spec_parse_relative_utc(date@, today) is Some,
        r matches Some(ts) ==> (spec_parse_relative_utc(date@, today) matches Some(v) && ts == v),
{
    match resolve_relative(date, today) {
        None => None,
        Some(x) => Some(utc_timestamp(&x, 0, 0, 0)),
    }
}

} // verus!
