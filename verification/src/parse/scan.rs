//! Character-level scanning helpers shared by the two date grammars.
//!
//! Both grammars are case-insensitive, tolerate surrounding whitespace,
//! and are made of fixed keywords, digit groups and single separators,
//! so everything here works on a `Seq<char>` view of the input and on
//! explicit index ranges into it.

use vstd::prelude::*;

verus! {

/// The whitespace characters the grammars skip: ASCII space, tab, line
/// feed, vertical tab, form feed and carriage return.
pub open spec fn is_space(c: char) -> bool {
    c == ' ' || c == '\t' || c == '\n' || c == '\u{b}' || c == '\u{c}' || c == '\r'
}

/// Whether `c` is a decimal digit.
pub open spec fn is_digit(c: char) -> bool {
    48 <= c as int <= 57
}

/// The value of the decimal digit `c`.
pub open spec fn digit_val(c: char) -> int {
    c as int - 48
}

/// The code point of `c` with an ASCII capital letter folded to its
/// lower-case form; keywords compare equal under this fold.
pub open spec fn fold(c: char) -> int {
    if 65 <= c as int <= 90 {
        c as int + 32
    } else {
        c as int
    }
}

/// Whether the word `w` occurs at position `i` of `s`, compared
/// case-insensitively.
pub open spec fn word_at(s: Seq<char>, i: int, w: Seq<char>) -> bool {
    &&& 0 <= i
    &&& i + w.len() <= s.len()
    &&& forall|j: int| 0 <= j < w.len() ==> fold(s[i + j]) == fold(w[j])
}

/// Whether the range `[i, b)` of `s` is exactly the word `w`, compared
/// case-insensitively.
pub open spec fn word_is(s: Seq<char>, i: int, b: int, w: Seq<char>) -> bool {
    b - i == w.len() && word_at(s, i, w)
}

/// The first position at or after `i`, but not past `b`, that does not
/// hold whitespace.
pub open spec fn skip_spaces(s: Seq<char>, i: int, b: int) -> int
    decreases b - i,
{
    if i < b && is_space(s[i]) {
        skip_spaces(s, i + 1, b)
    } else {
        i
    }
}

/// The position after the last non-whitespace character in `[i, b)`,
/// but not before `i`.
pub open spec fn rstrip_spaces(s: Seq<char>, i: int, b: int) -> int
    decreases b - i,
{
    if i < b && is_space(s[b - 1]) {
        rstrip_spaces(s, i, b - 1)
    } else {
        b
    }
}

/// Whether two decimal digits stand at position `i` of `s`.
pub open spec fn two_digits_at(s: Seq<char>, i: int) -> bool {
    &&& 0 <= i
    &&& i + 2 <= s.len()
    &&& is_digit(s[i])
    &&& is_digit(s[i + 1])
}

/// The value of the two digits at position `i` of `s`.
pub open spec fn two_digit_val(s: Seq<char>, i: int) -> int {
    10 * digit_val(s[i]) + digit_val(s[i + 1])
}

/// The value of the digits in the range `[i, j)` of `s`, read as a
/// decimal number.
pub open spec fn digits_val(s: Seq<char>, i: int, j: int) -> int
    decreases j - i,
{
    if i < j {
        10 * digits_val(s, i, j - 1) + digit_val(s[j - 1])
    } else {
        0
    }
}

/// The collected characters of `s`, for index-based scanning.
pub fn chars_of(s: &str) -> (r: Vec<char>)
    ensures
        r@ == s@,
{
    let n = s.unicode_len();
    let mut v: Vec<char> = Vec::new();
    let mut i: usize = 0;
    while i < n
        invariant
            i <= n,
            n == s@.len(),
            v@ == s@.take(i as int),
        decreases n - i,
    {
        v.push(s.get_char(i));
        proof {
            assert(s@.take(i + 1) =~= s@.take(i as int).push(s@[i as int]));
        }
        i = i + 1;
    }
    proof {
        assert(s@.take(n as int) =~= s@);
    }
    v
}

/// Whether `c` is whitespace.
pub fn space(c: char) -> (r: bool)
    ensures
        r == is_space(c),
{
    c == ' ' || c == '\t' || c == '\n' || c == '\u{b}' || c == '\u{c}' || c == '\r'
}

/// Whether `c` is a decimal digit.
pub fn digit(c: char) -> (r: bool)
    ensures
        r == is_digit(c),
{
    let x = c as u32;
    48 <= x && x <= 57
}

/// The value of the decimal digit `c`.
pub fn digit_value(c: char) -> (r: u8)
    requires
        is_digit(c),
    ensures
        r == digit_val(c),
{
    (c as u32 - 48) as u8
}

/// The case-folded code point of `c`.
pub fn folded(c: char) -> (r: u32)
    ensures
        r == fold(c),
{
    let x = c as u32;
    if 65 <= x && x <= 90 {
        x + 32
    } else {
        x
    }
}

/// Check whether the word `w` occurs at position `i` of `v`, compared
/// case-insensitively.
pub fn check_word_at(v: &Vec<char>, i: usize, w: &Vec<char>) -> (r: bool)
    ensures
        r == word_at(v@, i as int, w@),
{
    let n = v.len();
    if i > n || w.len() > n - i {
        return false;
    }
    let mut j: usize = 0;
    while j < w.len()
        invariant
            j <= w@.len(),
            n == v@.len(),
            i + w@.len() <= n,
            forall|k: int| 0 <= k < j ==> fold(v@[i + k]) == fold(w@[k]),
        decreases w@.len() - j,
    {
        if folded(v[i + j]) != folded(w[j]) {
            return false;
        }
        j = j + 1;
    }
    true
}

/// Check whether the range `[i, b)` of `v` is exactly the word `w`,
/// compared case-insensitively.
pub fn check_word_is(v: &Vec<char>, i: usize, b: usize, w: &Vec<char>) -> (r: bool)
    requires
        i <= b <= v@.len(),
    ensures
        r == word_is(v@, i as int, b as int, w@),
{
    b - i == w.len() && check_word_at(v, i, w)
}

/// Advance `i` past whitespace, but not past `b`.
pub fn advance_spaces(v: &Vec<char>, i: usize, b: usize) -> (r: usize)
    requires
        i <= b <= v@.len(),
    ensures
        r == skip_spaces(v@, i as int, b as int),
        i <= r <= b,
{
    let mut j = i;
    while j < b && space(v[j])
        invariant
            i <= j <= b <= v@.len(),
            skip_spaces(v@, i as int, b as int) == skip_spaces(v@, j as int, b as int),
        decreases b - j,
    {
        j = j + 1;
    }
    j
}

/// Move `b` back past trailing whitespace, but not before `i`.
pub fn retreat_spaces(v: &Vec<char>, i: usize, b: usize) -> (r: usize)
    requires
        i <= b <= v@.len(),
    ensures
        r == rstrip_spaces(v@, i as int, b as int),
        i <= r <= b,
{
    let mut j = b;
    while j > i && space(v[j - 1])
        invariant
            i <= j <= b <= v@.len(),
            rstrip_spaces(v@, i as int, b as int) == rstrip_spaces(v@, i as int, j as int),
        decreases j,
    {
        j = j - 1;
    }
    j
}

/// Check for two decimal digits at position `i` of `v`.
pub fn check_two_digits(v: &Vec<char>, i: usize) -> (r: bool)
    ensures
        r == two_digits_at(v@, i as int),
{
    i < v.len() && v.len() - i >= 2 && digit(v[i]) && digit(v[i + 1])
}

/// The value of the two digits at position `i` of `v`.
pub fn two_digit_value(v: &Vec<char>, i: usize) -> (r: u8)
    requires
        two_digits_at(v@, i as int),
    ensures
        r == two_digit_val(v@, i as int),
        r <= 99,
{
    let n = v.len();
    assert(i + 2 <= n);
    10 * digit_value(v[i]) + digit_value(v[i + 1])
}

} // verus!
