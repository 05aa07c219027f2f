//! The absolute point-in-time grammar.
//!
//! An expression is an optional date part followed by a time of day:
//!
//! ```text
//! [ DATE ] TIME
//! DATE := "yyyy-mm-dd" | "yesterday" | "today" | "monday" .. "sunday"
//! TIME := "hh:mm" | "hh:mm:ss"
//! ```
//!
//! Keywords are case-insensitive; surrounding whitespace is tolerated,
//! as is an optional literal `T` between an ISO date and the time.  A
//! missing date defaults to "today", `"yesterday"` to the day before,
//! and a weekday name to the most recent strictly prior such weekday —
//! naming today's own weekday is rejected as ambiguous.  The resolved
//! local time is turned into a UTC instant by the caller's time zone,
//! keeping the latest instant when a clock fall-back makes it
//! ambiguous and failing when a clock jump skips it.

use vstd::prelude::*;
use crate::calendar::{Date, EPOCH_DAY_INDEX, checked_date, sub_days, utc_timestamp};
use crate::parse::scan::{
    advance_spaces,
    chars_of,
    check_two_digits,
    check_word_at,
    fold,
    retreat_spaces,
    rstrip_spaces,
    skip_spaces,
    two_digit_val,
    two_digit_value,
    two_digits_at,
    word_at,
};
use crate::tz::local_to_utc_latest;

verus! {

/// A wall-clock time of day.
#[derive(Clone, Copy, PartialEq, Eq, Structural, Debug)]
pub struct TimeOfDay {
    pub hour: u8,
    pub minute: u8,
    pub second: u8,
}

/// A date keyword of the grammar.
#[derive(Clone, Copy, PartialEq, Eq, Structural, Debug)]
pub enum NamedDay {
    Today,
    Yesterday,
    /// A weekday, counted from Monday = 0 through Sunday = 6.
    Weekday(u8),
}

/// The date part of an absolute expression.
#[derive(Clone, Copy, PartialEq, Eq, Structural, Debug)]
pub enum DateRef {
    /// No date part was given: the date defaults to "today".
    Current,
    /// A keyword relative to "today".
    Named(NamedDay),
    /// A literal ISO date, not yet checked for validity.
    Iso { year: i32, month: u8, day: u8 },
}

/// A resolved local moment: a calendar date and a time of day, still
/// relative to the caller's time zone.
#[derive(Clone, Copy, PartialEq, Eq, Structural, Debug)]
pub struct LocalMoment {
    pub date: Date,
    pub time: TimeOfDay,
}

/// Whether the word `w` occurs at position `i` of `s` and ends at or
/// before `b`.
pub open spec fn word_within(s: Seq<char>, i: int, b: int, w: Seq<char>) -> bool {
    i + w.len() <= b && word_at(s, i, w)
}

/// The name of weekday `k` (Monday = 0 through Sunday = 6).
pub open spec fn weekday_word(k: int) -> Seq<char> {
    if k == 0 {
        seq!['m', 'o', 'n', 'd', 'a', 'y']
    } else if k == 1 {
        seq!['t', 'u', 'e', 's', 'd', 'a', 'y']
    } else if k == 2 {
        seq!['w', 'e', 'd', 'n', 'e', 's', 'd', 'a', 'y']
    } else if k == 3 {
        seq!['t', 'h', 'u', 'r', 's', 'd', 'a', 'y']
    } else if k == 4 {
        seq!['f', 'r', 'i', 'd', 'a', 'y']
    } else if k == 5 {
        seq!['s', 'a', 't', 'u', 'r', 'd', 'a', 'y']
    } else {
        seq!['s', 'u', 'n', 'd', 'a', 'y']
    }
}

/// The keyword for "today".
pub open spec fn today_word() -> Seq<char> {
    seq!['t', 'o', 'd', 'a', 'y']
}

/// The keyword for "yesterday".
pub open spec fn yesterday_word() -> Seq<char> {
    seq!['y', 'e', 's', 't', 'e', 'r', 'd', 'a', 'y']
}

/// The length of a date keyword.
pub open spec fn named_len(d: NamedDay) -> int {
    match d {
        NamedDay::Today => 5,
        NamedDay::Yesterday => 9,
        NamedDay::Weekday(w) => weekday_word(w as int).len() as int,
    }
}

/// The date keyword standing at position `i` of `s`, if any.  At most
/// one keyword can match, since none is a prefix of another.
pub open spec fn named_at(s: Seq<char>, i: int, b: int) -> Option<NamedDay> {
    if word_within(s, i, b, yesterday_word()) {
        Some(NamedDay::Yesterday)
    } else if word_within(s, i, b, today_word()) {
        Some(NamedDay::Today)
    } else if word_within(s, i, b, weekday_word(0)) {
        Some(NamedDay::Weekday(0))
    } else if word_within(s, i, b, weekday_word(1)) {
        Some(NamedDay::Weekday(1))
    } else if word_within(s, i, b, weekday_word(2)) {
        Some(NamedDay::Weekday(2))
    } else if word_within(s, i, b, weekday_word(3)) {
        Some(NamedDay::Weekday(3))
    } else if word_within(s, i, b, weekday_word(4)) {
        Some(NamedDay::Weekday(4))
    } else if word_within(s, i, b, weekday_word(5)) {
        Some(NamedDay::Weekday(5))
    } else if word_within(s, i, b, weekday_word(6)) {
        Some(NamedDay::Weekday(6))
    } else {
        None
    }
}

/// Whether a time of day (`hh:mm` or `hh:mm:ss`) fills the range
/// `[i, b)` of `s` exactly.
pub open spec fn time_shape(s: Seq<char>, i: int, b: int) -> bool {
    &&& 0 <= i
    &&& b <= s.len()
    &&& (b - i == 5 || b - i == 8)
    &&& two_digits_at(s, i)
    &&& s[i + 2] == ':'
    &&& two_digits_at(s, i + 3)
    &&& (b - i == 8 ==> s[i + 5] == ':' && two_digits_at(s, i + 6))
}

/// The time of day written in the range `[i, b)` of `s`; seconds
/// default to 0 when omitted.
pub open spec fn time_at(s: Seq<char>, i: int, b: int) -> TimeOfDay {
    TimeOfDay {
        hour: two_digit_val(s, i) as u8,
        minute: two_digit_val(s, i + 3) as u8,
        second: if b - i == 8 {
            two_digit_val(s, i + 6) as u8
        } else {
            0u8
        },
    }
}

/// Whether the fields of `t` denote an existing time of day.
pub open spec fn time_in_range(t: TimeOfDay) -> bool {
    t.hour <= 23 && t.minute <= 59 && t.second <= 59
}

/// Whether an ISO date (`yyyy-mm-dd`) stands at position `i` of `s`,
/// ending at or before `b`.
pub open spec fn iso_at(s: Seq<char>, i: int, b: int) -> bool {
    &&& 0 <= i
    &&& i + 10 <= b
    &&& b <= s.len()
    &&& two_digits_at(s, i)
    &&& two_digits_at(s, i + 2)
    &&& s[i + 4] == '-'
    &&& two_digits_at(s, i + 5)
    &&& s[i + 7] == '-'
    &&& two_digits_at(s, i + 8)
}

/// The ISO date written at position `i` of `s`, not yet checked for
/// validity.
pub open spec fn iso_ref(s: Seq<char>, i: int) -> DateRef {
    DateRef::Iso {
        year: (100 * two_digit_val(s, i) + two_digit_val(s, i + 2)) as i32,
        month: two_digit_val(s, i + 5) as u8,
        day: two_digit_val(s, i + 8) as u8,
    }
}

/// The position after the separator between an ISO date and the time:
/// whitespace, an optional literal `T`, and more whitespace.
pub open spec fn sep_end(s: Seq<char>, i: int, b: int) -> int {
    let j = skip_spaces(s, i, b);
    if j < b && fold(s[j]) == 't' as int {
        skip_spaces(s, j + 1, b)
    } else {
        j
    }
}

/// The parsed shape of an absolute expression: its date part and its
/// raw time fields, or nothing when the text does not match the
/// grammar.
pub open spec fn spec_abs_expr(s: Seq<char>) -> Option<(DateRef, TimeOfDay)> {
    let a = skip_spaces(s, 0, s.len() as int);
    let b = rstrip_spaces(s, a, s.len() as int);
    if iso_at(s, a, b) {
        let j = sep_end(s, a + 10, b);
        if time_shape(s, j, b) {
            Some((iso_ref(s, a), time_at(s, j, b)))
        } else {
            None
        }
    } else {
        match named_at(s, a, b) {
            Some(d) => {
                let j = skip_spaces(s, a + named_len(d), b);
                if time_shape(s, j, b) {
                    Some((DateRef::Named(d), time_at(s, j, b)))
                } else {
                    None
                }
            },
            None => if time_shape(s, a, b) {
                Some((DateRef::Current, time_at(s, a, b)))
            } else {
                None
            },
        }
    }
}

/// The day index the date part denotes, anchored at `today`, or nothing
/// when it must be rejected: an ISO date that does not exist, a
/// "yesterday" that leaves the supported range, or a weekday name on
/// that very weekday.
pub open spec fn spec_resolve_day(d: DateRef, today: Date) -> Option<int> {
    match d {
        DateRef::Current => Some(today.day_index()),
        DateRef::Iso { year, month, day } => {
            let dt = Date { year, month, day };
            if dt.valid() {
                Some(dt.day_index())
            } else {
                None
            }
        },
        DateRef::Named(NamedDay::Today) => Some(today.day_index()),
        DateRef::Named(NamedDay::Yesterday) => if today.day_index() >= 1 {
            Some(today.day_index() - 1)
        } else {
            None
        },
        DateRef::Named(NamedDay::Weekday(w)) => {
            let ds = (today.spec_weekday() + 7 - w) % 7;
            if ds == 0 {
                None
            } else if today.day_index() >= ds {
                Some(today.day_index() - ds)
            } else {
                None
            }
        },
    }
}

/// The fully resolved absolute expression: the day index of its date
/// and its time of day, or nothing when the text does not match the
/// grammar, the time does not exist, or the date is rejected.
pub open spec fn spec_parse_date(s: Seq<char>, today: Date) -> Option<(int, TimeOfDay)> {
    match spec_abs_expr(s) {
        None => None,
        Some((d, t)) => if !time_in_range(t) {
            None
        } else {
            match spec_resolve_day(d, today) {
                None => None,
                Some(idx) => Some((idx, t)),
            }
        },
    }
}

/// The UTC timestamp of an absolute expression read in UTC itself.
pub open spec fn spec_parse_date_utc(s: Seq<char>, today: Date) -> Option<int> {
    match spec_parse_date(s, today) {
        None => None,
        Some((idx, t)) => Some(
            (idx - EPOCH_DAY_INDEX) * 86400 + t.hour * 3600 + t.minute * 60 + t.second,
        ),
    }
}

/// Find the date keyword at position `i`, together with its length.
fn find_named(v: &Vec<char>, i: usize, b: usize) -> (r: Option<(NamedDay, usize)>)
    requires
        i <= b <= v@.len(),
    ensures
        r is None ==> named_at(v@, i as int, b as int) is None,
        r matches Some(p) ==> {
            &&& named_at(v@, i as int, b as int) == Some(p.0)
            &&& p.1 == named_len(p.0)
            &&& i + p.1 <= b
            &&& (p.0 matches NamedDay::Weekday(w) ==> w < 7)
        },
{
    let yesterday = vec!['y', 'e', 's', 't', 'e', 'r', 'd', 'a', 'y'];
    if 9 <= b - i && check_word_at(v, i, &yesterday) {
        return Some((NamedDay::Yesterday, 9));
    }
    let today = vec!['t', 'o', 'd', 'a', 'y'];
    if 5 <= b - i && check_word_at(v, i, &today) {
        return Some((NamedDay::Today, 5));
    }
    let monday = vec!['m', 'o', 'n', 'd', 'a', 'y'];
    if 6 <= b - i && check_word_at(v, i, &monday) {
        return Some((NamedDay::Weekday(0), 6));
    }
    let tuesday = vec!['t', 'u', 'e', 's', 'd', 'a', 'y'];
    if 7 <= b - i && check_word_at(v, i, &tuesday) {
        return Some((NamedDay::Weekday(1), 7));
    }
    let wednesday = vec!['w', 'e', 'd', 'n', 'e', 's', 'd', 'a', 'y'];
    if 9 <= b - i && check_word_at(v, i, &wednesday) {
        return Some((NamedDay::Weekday(2), 9));
    }
    let thursday = vec!['t', 'h', 'u', 'r', 's', 'd', 'a', 'y'];
    if 8 <= b - i && check_word_at(v, i, &thursday) {
        return Some((NamedDay::Weekday(3), 8));
    }
    let friday = vec!['f', 'r', 'i', 'd', 'a', 'y'];
    if 6 <= b - i && check_word_at(v, i, &friday) {
        return Some((NamedDay::Weekday(4), 6));
    }
    let saturday = vec!['s', 'a', 't', 'u', 'r', 'd', 'a', 'y'];
    if 8 <= b - i && check_word_at(v, i, &saturday) {
        return Some((NamedDay::Weekday(5), 8));
    }
    let sunday = vec!['s', 'u', 'n', 'd', 'a', 'y'];
    if 6 <= b - i && check_word_at(v, i, &sunday) {
        return Some((NamedDay::Weekday(6), 6));
    }
    None
}

/// Check whether a time of day fills the range `[i, b)` exactly.
fn check_time_shape(v: &Vec<char>, i: usize, b: usize) -> (r: bool)
    requires
        i <= b <= v@.len(),
    ensures
        r == time_shape(v@, i as int, b as int),
{
    if b - i != 5 && b - i != 8 {
        return false;
    }
    if !(check_two_digits(v, i) && v[i + 2] == ':' && check_two_digits(v, i + 3)) {
        return false;
    }
    if b - i == 8 {
        v[i + 5] == ':' && check_two_digits(v, i + 6)
    } else {
        true
    }
}

/// Read the time of day in the range `[i, b)`.
fn read_time(v: &Vec<char>, i: usize, b: usize) -> (r: TimeOfDay)
    requires
        i <= b <= v@.len(),
        time_shape(v@, i as int, b as int),
    ensures
        r == time_at(v@, i as int, b as int),
{
    TimeOfDay {
        hour: two_digit_value(v, i),
        minute: two_digit_value(v, i + 3),
        second: if b - i == 8 {
            two_digit_value(v, i + 6)
        } else {
            0
        },
    }
}

/// Check whether an ISO date stands at position `i`, ending at or
/// before `b`.
fn check_iso(v: &Vec<char>, i: usize, b: usize) -> (r: bool)
    requires
        i <= b <= v@.len(),
    ensures
        r == iso_at(v@, i as int, b as int),
{
    b - i >= 10 && check_two_digits(v, i) && check_two_digits(v, i + 2) && v[i + 4] == '-'
        && check_two_digits(v, i + 5) && v[i + 7] == '-' && check_two_digits(v, i + 8)
}

/// The position after the `\s* T? \s*` separator starting at `i`.
fn advance_sep(v: &Vec<char>, i: usize, b: usize) -> (r: usize)
    requires
        i <= b <= v@.len(),
    ensures
        r == sep_end(v@, i as int, b as int),
        i <= r <= b,
{
    let j = advance_spaces(v, i, b);
    if j < b && (v[j] == 't' || v[j] == 'T') {
        advance_spaces(v, j + 1, b)
    } else {
        j
    }
}

/// Resolve the date part against `today`.
fn resolve_day(d: DateRef, today: &Date) -> (r: Option<Date>)
    requires
        today.valid(),
        d matches DateRef::Named(NamedDay::Weekday(w)) ==> w < 7,
    ensures
        r is Some <==> spec_resolve_day(d, *today) is Some,
        r matches Some(x) ==> (spec_resolve_day(d, *today) matches Some(idx) && x.valid()
            && x.day_index() == idx),
{
    match d {
        DateRef::Current => Some(*today),
        DateRef::Iso { year, month, day } => checked_date(year, month, day),
        DateRef::Named(NamedDay::Today) => Some(*today),
        DateRef::Named(NamedDay::Yesterday) => sub_days(today, 1),
        DateRef::Named(NamedDay::Weekday(w)) => {
            let wd = today.weekday();
            let ds = (wd + 7 - w) % 7;
            if ds == 0 {
                None
            } else {
                sub_days(today, ds as u64)
            }
        },
    }
}

/// Parse an absolute expression and resolve its date against `today`,
/// leaving the local moment still to be read in a time zone.  Fails
/// exactly when the text does not match the grammar, the time of day
/// does not exist, the ISO date does not exist, or a weekday name
/// falls on `today`'s own weekday.
pub fn resolve_absolute(date: &str, today: Date) -> (r: Option<LocalMoment>)
    requires
        today.valid(),
    ensures
        r is Some <==> spec_parse_date(date@, today) is Some,
        r matches Some(lm) ==> (spec_parse_date(date@, today) matches Some(p) && lm.date.valid()
            && lm.date.day_index() == p.0 && lm.time == p.1 && time_in_range(lm.time)),
{
    let v = chars_of(date);
    let n = v.len();
    let a = advance_spaces(&v, 0, n);
    let b = retreat_spaces(&v, a, n);
    let parsed: Option<(DateRef, TimeOfDay)> = if check_iso(&v, a, b) {
        let j = advance_sep(&v, a + 10, b);
        if check_time_shape(&v, j, b) {
            let year = (100 * (two_digit_value(&v, a) as u16) + (two_digit_value(&v, a + 2)
                as u16)) as i32;
            let month = two_digit_value(&v, a + 5);
            let day = two_digit_value(&v, a + 8);
            Some((DateRef::Iso { year, month, day }, read_time(&v, j, b)))
        } else {
            None
        }
    } else if let Some((named, len)) = find_named(&v, a, b) {
        let j = advance_spaces(&v, a + len, b);
        if check_time_shape(&v, j, b) {
            Some((DateRef::Named(named), read_time(&v, j, b)))
        } else {
            None
        }
    } else if check_time_shape(&v, a, b) {
        Some((DateRef::Current, read_time(&v, a, b)))
    } else {
        None
    };
    assert(parsed == spec_abs_expr(date@));
    match parsed {
        None => None,
        Some((d, t)) => {
            if !(t.hour <= 23 && t.minute <= 59 && t.second <= 59) {
                return None;
            }
            match resolve_day(d, &today) {
                None => None,
                Some(x) => Some(LocalMoment { date: x, time: t }),
            }
        },
    }
}

/// Parse an absolute expression against `today` and read the resolved
/// local moment in the time zone `timezone`, keeping the latest UTC
/// instant when the local time is ambiguous.  Returns nothing whenever
/// the expression itself is rejected; whether an accepted moment
/// exists in `timezone` is decided by the zone's transition table.
pub fn parse_date(date: &str, timezone: &tzfile::Tz, today: Date) -> (r: Option<i64>)
    requires
        today.valid(),
    ensures
        r is Some ==> spec_parse_date(date@, today) is Some,
{
    match resolve_absolute(date, today) {
        None => None,
        Some(lm) => local_to_utc_latest(
            timezone,
            lm.date.year,
            lm.date.month,
            lm.date.day,
            lm.time.hour,
            lm.time.minute,
            lm.time.second,
        ),
    }
}

/// Parse an absolute expression against `today`, reading the resolved
/// local moment in UTC itself.
pub fn parse_date_utc(date: &str, today: Date) -> (r: Option<i64>)
    requires
        today.valid(),
    ensures
        r is Some <==> spec_parse_date_utc(date@, today) is Some,
        r matches Some(ts) ==> (spec_parse_date_utc(date@, today) matches Some(v) && ts == v),
{
    match resolve_absolute(date, today) {
        None => None,
        Some(lm) => Some(utc_timestamp(&lm.date, lm.time.hour, lm.time.minute, lm.time.second)),
    }
}

} // verus!
