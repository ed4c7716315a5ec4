//! Durations given on the command line (`--older-than`) and their short
//! rendering in reasons.
//!
//! A duration is held as a whole number of seconds: every duration that the
//! command line accepts is one.

use vstd::prelude::*;
use crate::text::{append_decimal, decimal, str_to_chars};

verus! {

/// Unicode `White_Space`: the characters that Rust's `char::is_whitespace`
/// accepts and that `str::trim` removes.
pub open spec fn is_white_space(c: char) -> bool {
    ||| ('\u{9}' <= c && c <= '\u{d}')
    ||| c == ' '
    ||| c == '\u{85}'
    ||| c == '\u{a0}'
    ||| c == '\u{1680}'
    ||| ('\u{2000}' <= c && c <= '\u{200a}')
    ||| c == '\u{2028}'
    ||| c == '\u{2029}'
    ||| c == '\u{202f}'
    ||| c == '\u{205f}'
    ||| c == '\u{3000}'
}

pub open spec fn is_ascii_digit(c: char) -> bool {
    '0' <= c && c <= '9'
}

pub open spec fn is_ascii_upper(c: char) -> bool {
    'A' <= c && c <= 'Z'
}

/// `c` with ASCII upper case letters mapped to lower case.
pub open spec fn ascii_lower_char(c: char) -> char {
    if is_ascii_upper(c) {
        ((c as int) + 32) as char
    } else {
        c
    }
}

/// Rust's `to_ascii_lowercase` on text.
pub open spec fn ascii_lower(s: Seq<char>) -> Seq<char> {
    s.map_values(|c: char| ascii_lower_char(c))
}

/// `s` without its leading white space.
pub open spec fn trim_start(s: Seq<char>) -> Seq<char>
    decreases s.len(),
{
    if s.len() > 0 && is_white_space(s[0]) {
        trim_start(s.drop_first())
    } else {
        s
    }
}

/// `s` without its trailing white space.
pub open spec fn trim_end(s: Seq<char>) -> Seq<char>
    decreases s.len(),
{
    if s.len() > 0 && is_white_space(s.last()) {
        trim_end(s.drop_last())
    } else {
        s
    }
}

/// Rust's `str::trim`.
pub open spec fn trim(s: Seq<char>) -> Seq<char> {
    trim_end(trim_start(s))
}

/// The number of ASCII digits with which `s` starts.
pub open spec fn leading_digits(s: Seq<char>) -> nat
    decreases s.len(),
{
    if s.len() > 0 && is_ascii_digit(s[0]) {
        1 + leading_digits(s.drop_first())
    } else {
        0
    }
}

/// The value of a digit character.
pub open spec fn digit_value(c: char) -> nat {
    ((c as int) - ('0' as int)) as nat
}

/// The number that a sequence of ASCII digits writes in base ten.
pub open spec fn digits_value(d: Seq<char>) -> nat
    decreases d.len(),
{
    if d.len() == 0 {
        0
    } else {
        digits_value(d.drop_last()) * 10 + digit_value(d.last())
    }
}

pub open spec fn seconds_per_minute() -> u64 { 60 }
pub open spec fn seconds_per_hour() -> u64 { 3_600 }
pub open spec fn seconds_per_day() -> u64 { 86_400 }
pub open spec fn seconds_per_week() -> u64 { 604_800 }

/// The number of seconds that one unit of a (lower case) suffix stands for;
/// no suffix means days.
pub open spec fn suffix_seconds(s: Seq<char>) -> Option<u64> {
    if s == ""@ || s == "d"@ || s == "day"@ || s == "days"@ {
        Some(seconds_per_day())
    } else if s == "w"@ || s == "week"@ || s == "weeks"@ {
        Some(seconds_per_week())
    } else if s == "h"@ || s == "hr"@ || s == "hour"@ || s == "hours"@ {
        Some(seconds_per_hour())
    } else if s == "m"@ || s == "min"@ || s == "mins"@ || s == "minute"@ || s == "minutes"@ {
        Some(seconds_per_minute())
    } else if s == "s"@ || s == "sec"@ || s == "secs"@ || s == "second"@ || s == "seconds"@ {
        Some(1)
    } else {
        None
    }
}

/// What `parse_duration_spec` gives for `raw`: a number of seconds, or the
/// message that rejects it.
pub open spec fn spec_parse_duration(raw: Seq<char>) -> Result<u64, Seq<char>> {
    let t = trim(raw);
    if t.len() == 0 {
        Err("duration must not be empty"@)
    } else {
        let k = leading_digits(t);
        if k == 0 {
            Err("duration must start with a number"@)
        } else {
            let value = digits_value(t.take(k as int));
            if value > u64::MAX {
                Err("invalid duration number: number too large to fit in target type"@)
            } else {
                match suffix_seconds(ascii_lower(trim(t.skip(k as int)))) {
                    None => Err(
                        "duration suffix must be one of s, m, h, d, or w; bare numbers mean days"@,
                    ),
                    Some(unit) => if value * unit > u64::MAX {
                        Err("duration is too large"@)
                    } else {
                        Ok((value * unit) as u64)
                    },
                }
            }
        }
    }
}

/// The view of a result whose error is a message.
pub open spec fn message_result<T>(r: Result<T, String>) -> Result<T, Seq<char>> {
    match r {
        Ok(v) => Ok(v),
        Err(e) => Err(e@),
    }
}

proof fn lemma_trim_start_skip(s: Seq<char>, i: int)
    requires
        0 <= i <= s.len(),
        forall|j: int| 0 <= j < i ==> is_white_space(#[trigger] s[j]),
    ensures
        trim_start(s) == trim_start(s.skip(i)),
    decreases i,
{
    if i == 0 {
        assert(s.skip(0) =~= s);
    } else {
        assert(is_white_space(s[0]));
        let t = s.drop_first();
        assert forall|j: int| 0 <= j < i - 1 implies is_white_space(#[trigger] t[j]) by {
            assert(t[j] == s[j + 1]);
        }
        lemma_trim_start_skip(t, i - 1);
        assert(t.skip(i - 1) =~= s.skip(i));
    }
}

proof fn lemma_trim_end_take(s: Seq<char>, e: int)
    requires
        0 <= e <= s.len(),
        forall|j: int| e <= j < s.len() ==> is_white_space(#[trigger] s[j]),
    ensures
        trim_end(s) == trim_end(s.take(e)),
    decreases s.len() - e,
{
    if e == s.len() {
        assert(s.take(e) =~= s);
    } else {
        assert(is_white_space(s[s.len() - 1]));
        let t = s.drop_last();
        assert forall|j: int| e <= j < t.len() implies is_white_space(#[trigger] t[j]) by {
            assert(t[j] == s[j]);
        }
        lemma_trim_end_take(t, e);
        assert(t.take(e) =~= s.take(e));
    }
}

proof fn lemma_leading_digits(s: Seq<char>, i: int)
    requires
        0 <= i <= s.len(),
        forall|j: int| 0 <= j < i ==> is_ascii_digit(#[trigger] s[j]),
        i == s.len() || !is_ascii_digit(s[i]),
    ensures
        leading_digits(s) == i,
    decreases i,
{
    if i > 0 {
        let t = s.drop_first();
        assert forall|j: int| 0 <= j < i - 1 implies is_ascii_digit(#[trigger] t[j]) by {
            assert(t[j] == s[j + 1]);
        }
        assert(i - 1 == t.len() || t[i - 1] == s[i]);
        lemma_leading_digits(t, i - 1);
    }
}

proof fn lemma_digits_value_monotone(d: Seq<char>, i: int, j: int)
    requires
        0 <= i <= j <= d.len(),
    ensures
        digits_value(d.take(i)) <= digits_value(d.take(j)),
    decreases j - i,
{
    if i < j {
        lemma_digits_value_monotone(d, i, j - 1);
        assert(d.take(j).drop_last() =~= d.take(j - 1));
    }
}

fn is_white_space_exec(c: char) -> (r: bool)
    ensures
        r == is_white_space(c),
{
    ('\u{9}' <= c && c <= '\u{d}') || c == ' ' || c == '\u{85}' || c == '\u{a0}' || c
        == '\u{1680}' || ('\u{2000}' <= c && c <= '\u{200a}') || c == '\u{2028}' || c
        == '\u{2029}' || c == '\u{202f}' || c == '\u{205f}' || c == '\u{3000}'
}

/// The bounds, within `lo..hi`, of the text that trimming `c[lo..hi]` leaves.
fn trim_range(c: &Vec<char>, lo: usize, hi: usize) -> (r: (usize, usize))
    requires
        lo <= hi <= c.len(),
    ensures
        lo <= r.0 <= r.1 <= hi,
        c@.subrange(r.0 as int, r.1 as int) == trim(c@.subrange(lo as int, hi as int)),
{
    let ghost s = c@.subrange(lo as int, hi as int);
    let mut a = lo;
    while a < hi && is_white_space_exec(c[a])
        invariant
            lo <= a <= hi <= c.len(),
            s == c@.subrange(lo as int, hi as int),
            forall|j: int| lo <= j < a ==> is_white_space(#[trigger] c@[j]),
        decreases hi - a,
    {
        a = a + 1;
    }
    proof {
        assert forall|j: int| 0 <= j < a - lo implies is_white_space(#[trigger] s[j]) by {
            assert(s[j] == c@[lo + j]);
        }
        lemma_trim_start_skip(s, a - lo);
        let u = s.skip(a - lo);
        assert(u =~= c@.subrange(a as int, hi as int));
        if u.len() > 0 {
            assert(u[0] == c@[a as int]);
        }
        assert(trim_start(u) == u);
    }
    let mut b = hi;
    while b > a && is_white_space_exec(c[b - 1])
        invariant
            lo <= a <= b <= hi <= c.len(),
            forall|j: int| b <= j < hi ==> is_white_space(#[trigger] c@[j]),
        decreases b - a,
    {
        b = b - 1;
    }
    proof {
        let u = c@.subrange(a as int, hi as int);
        assert forall|j: int| b - a <= j < u.len() implies is_white_space(#[trigger] u[j]) by {
            assert(u[j] == c@[a + j]);
        }
        lemma_trim_end_take(u, b - a);
        let w = u.take(b - a);
        assert(w =~= c@.subrange(a as int, b as int));
        if w.len() > 0 {
            assert(w.last() == c@[b - 1]);
        }
        assert(trim_end(w) == w);
    }
    (a, b)
}

fn lower_char(c: char) -> (r: char)
    ensures
        r == ascii_lower_char(c),
{
    if 'A' <= c && c <= 'Z' {
        let b: u8 = (c as u8) + 32;
        b as char
    } else {
        c
    }
}

/// Whether `c[lo..hi]`, lowered to ASCII lower case, is `word`.
fn lowered_range_is(c: &Vec<char>, lo: usize, hi: usize, word: &str) -> (r: bool)
    requires
        lo <= hi <= c.len(),
    ensures
        r == (ascii_lower(c@.subrange(lo as int, hi as int)) == word@),
{
    let ghost s = ascii_lower(c@.subrange(lo as int, hi as int));
    let n = word.unicode_len();
    if hi - lo != n {
        assert(s.len() != word@.len());
        return false;
    }
    let mut i: usize = 0;
    while i < n
        invariant
            lo <= hi <= c.len(),
            hi - lo == n,
            n == word@.len(),
            s == ascii_lower(c@.subrange(lo as int, hi as int)),
            i <= n,
            forall|j: int| 0 <= j < i ==> s[j] == word@[j],
        decreases n - i,
    {
        if lower_char(c[lo + i]) != word.get_char(i) {
            assert(s[i as int] == ascii_lower_char(c@[lo + i]));
            return false;
        }
        i = i + 1;
    }
    assert(s =~= word@);
    true
}

/// The seconds per unit of the suffix `c[lo..hi]`, read case-insensitively.
fn suffix_seconds_exec(c: &Vec<char>, lo: usize, hi: usize) -> (r: Option<u64>)
    requires
        lo <= hi <= c.len(),
    ensures
        r == suffix_seconds(ascii_lower(c@.subrange(lo as int, hi as int))),
{
    if lowered_range_is(c, lo, hi, "") || lowered_range_is(c, lo, hi, "d")
        || lowered_range_is(c, lo, hi, "day") || lowered_range_is(c, lo, hi, "days") {
        Some(86_400)
    } else if lowered_range_is(c, lo, hi, "w") || lowered_range_is(c, lo, hi, "week")
        || lowered_range_is(c, lo, hi, "weeks") {
        Some(604_800)
    } else if lowered_range_is(c, lo, hi, "h") || lowered_range_is(c, lo, hi, "hr")
        || lowered_range_is(c, lo, hi, "hour") || lowered_range_is(c, lo, hi, "hours") {
        Some(3_600)
    } else if lowered_range_is(c, lo, hi, "m") || lowered_range_is(c, lo, hi, "min")
        || lowered_range_is(c, lo, hi, "mins") || lowered_range_is(c, lo, hi, "minute")
        || lowered_range_is(c, lo, hi, "minutes") {
        Some(60)
    } else if lowered_range_is(c, lo, hi, "s") || lowered_range_is(c, lo, hi, "sec")
        || lowered_range_is(c, lo, hi, "secs") || lowered_range_is(c, lo, hi, "second")
        || lowered_range_is(c, lo, hi, "seconds") {
        Some(1)
    } else {
        None
    }
}

/// Parses a duration such as `3`, `2w` or `12h` into seconds.
///
/// Surrounding white space is ignored; the number comes first, then an
/// optional suffix (`s`, `m`, `h`, `d`, `w` or their long forms, in any
/// case, possibly after white space). A bare number means days.
pub fn parse_duration_spec(raw: &str) -> (r: Result<u64, String>)
    ensures
        message_result(r) == spec_parse_duration(raw@),
{
    let c = str_to_chars(raw);
    let (start, end) = trim_range(&c, 0, c.len());
    let ghost t = c@.subrange(start as int, end as int);
    assert(c@.subrange(0, c@.len() as int) =~= raw@);
    if start == end {
        return Err(String::from_str("duration must not be empty"));
    }
    let mut k = start;
    let mut value: u64 = 0;
    while k < end && '0' <= c[k] && c[k] <= '9'
        invariant
            start <= k <= end <= c.len(),
            start < end,
            t == c@.subrange(start as int, end as int),
            t == trim(raw@),
            forall|j: int| start <= j < k ==> is_ascii_digit(#[trigger] c@[j]),
            value == digits_value(t.take(k - start)),
        decreases end - k,
    {
        let d = (c[k] as u32 - '0' as u32) as u64;
        assert(t.take(k + 1 - start).drop_last() =~= t.take(k - start));
        assert(t.take(k + 1 - start).last() == c@[k as int]);
        assert(d == digit_value(c@[k as int]));
        assert(digits_value(t.take(k + 1 - start)) == value * 10 + d);
        match value.checked_mul(10) {
            Some(v10) => match v10.checked_add(d) {
                Some(v) => {
                    value = v;
                },
                None => {
                    proof {
                        assert(is_ascii_digit(c@[k as int]));
                        lemma_leading_digits_bound(c@, start as int, end as int, k + 1 - start);
                    }
                    return Err(
                        String::from_str(
                            "invalid duration number: number too large to fit in target type",
                        ),
                    );
                },
            },
            None => {
                proof {
                    assert(is_ascii_digit(c@[k as int]));
                    lemma_leading_digits_bound(c@, start as int, end as int, k + 1 - start);
                }
                return Err(
                    String::from_str(
                        "invalid duration number: number too large to fit in target type",
                    ),
                );
            },
        }
        k = k + 1;
    }
    proof {
        assert forall|j: int| 0 <= j < k - start implies is_ascii_digit(#[trigger] t[j]) by {
            assert(t[j] == c@[start + j]);
        }
        if k < end {
            assert(t[k - start] == c@[k as int]);
        }
        lemma_leading_digits(t, k - start);
    }
    if k == start {
        return Err(String::from_str("duration must start with a number"));
    }
    let (a, b) = trim_range(&c, k, end);
    assert(t.skip(k - start) =~= c@.subrange(k as int, end as int));
    match suffix_seconds_exec(&c, a, b) {
        None => Err(
            String::from_str(
                "duration suffix must be one of s, m, h, d, or w; bare numbers mean days",
            ),
        ),
        Some(unit) => match value.checked_mul(unit) {
            Some(seconds) => Ok(seconds),
            None => Err(String::from_str("duration is too large")),
        },
    }
}

/// A digit prefix of the leading digits whose value is past `u64::MAX` makes
/// the whole number past it too.
proof fn lemma_leading_digits_bound(c: Seq<char>, start: int, end: int, i: int)
    requires
        0 <= start < end <= c.len(),
        0 < i <= end - start,
        forall|j: int| start <= j < start + i ==> is_ascii_digit(#[trigger] c[j]),
    ensures
        digits_value(c.subrange(start, end).take(i)) <= digits_value(
            c.subrange(start, end).take(leading_digits(c.subrange(start, end)) as int),
        ),
        leading_digits(c.subrange(start, end)) >= i,
{
    let t = c.subrange(start, end);
    lemma_leading_digits_at_least(t, i);
    lemma_digits_value_monotone(t, i, leading_digits(t) as int);
}

proof fn lemma_leading_digits_at_least(s: Seq<char>, i: int)
    requires
        0 <= i <= s.len(),
        forall|j: int| 0 <= j < i ==> is_ascii_digit(#[trigger] s[j]),
    ensures
        i <= leading_digits(s) <= s.len(),
    decreases s.len(),
{
    if s.len() > 0 {
        let t = s.drop_first();
        if i > 0 {
            assert forall|j: int| 0 <= j < i - 1 implies is_ascii_digit(#[trigger] t[j]) by {
                assert(t[j] == s[j + 1]);
            }
            lemma_leading_digits_at_least(t, i - 1);
        } else if is_ascii_digit(s[0]) {
            lemma_leading_digits_at_least(t, 0);
        }
    }
}

/// The text of a duration in its largest whole unit, such as `2w`, `3d`,
/// `12h`, `5m` or `42s`.
pub open spec fn spec_format_duration(seconds: u64) -> Seq<char> {
    if seconds % seconds_per_week() == 0 {
        decimal((seconds / seconds_per_week()) as nat) + "w"@
    } else if seconds % seconds_per_day() == 0 {
        decimal((seconds / seconds_per_day()) as nat) + "d"@
    } else if seconds % seconds_per_hour() == 0 {
        decimal((seconds / seconds_per_hour()) as nat) + "h"@
    } else if seconds % seconds_per_minute() == 0 {
        decimal((seconds / seconds_per_minute()) as nat) + "m"@
    } else {
        decimal(seconds as nat) + "s"@
    }
}

/// Renders a duration of `seconds` in the largest unit that divides it.
pub fn format_duration(seconds: u64) -> (r: String)
    ensures
        r@ == spec_format_duration(seconds),
{
    let mut out = String::new();
    if seconds % 604_800 == 0 {
        append_decimal(&mut out, seconds / 604_800);
        out.append("w");
    } else if seconds % 86_400 == 0 {
        append_decimal(&mut out, seconds / 86_400);
        out.append("d");
    } else if seconds % 3_600 == 0 {
        append_decimal(&mut out, seconds / 3_600);
        out.append("h");
    } else if seconds % 60 == 0 {
        append_decimal(&mut out, seconds / 60);
        out.append("m");
    } else {
        append_decimal(&mut out, seconds);
        out.append("s");
    }
    assert(out@ =~= spec_format_duration(seconds));
    out
}

proof fn lemma_decimal_digits(n: nat)
    ensures
        decimal(n).len() > 0,
        forall|i: int| 0 <= i < decimal(n).len() ==> is_ascii_digit(#[trigger] decimal(n)[i]),
        digits_value(decimal(n)) == n,
    decreases n,
{
    if n >= 10 {
        lemma_decimal_digits(n / 10);
        let d = decimal(n);
        assert(d.drop_last() =~= decimal(n / 10));
        let c = crate::text::digit_char(n % 10);
        assert(digit_value(c) == n % 10);
        assert(d.last() == c);
        assert(digits_value(d) == digits_value(decimal(n / 10)) * 10 + digit_value(c));
        assert((n / 10) * 10 + n % 10 == n);
        assert(digits_value(d) == n);
        assert forall|i: int| 0 <= i < d.len() implies is_ascii_digit(#[trigger] d[i]) by {
            if i < d.len() - 1 {
                assert(d[i] == decimal(n / 10)[i]);
            }
        }
    } else {
        assert(digit_value(crate::text::digit_char(n)) == n);
        let d = decimal(n);
        assert(d == seq![crate::text::digit_char(n)]);
        assert(d.len() == 1);
        assert(d.last() == crate::text::digit_char(n));
        assert(d.drop_last() =~= Seq::<char>::empty());
        assert(digits_value(d.drop_last()) == 0);
        assert(digits_value(d) == n);
    }
}

proof fn lemma_parse_number_with_unit(n: nat, unit_char: char, unit: Seq<char>, per_unit: u64)
    requires
        n * per_unit <= u64::MAX,
        unit == seq![unit_char],
        !is_white_space(unit_char),
        !is_ascii_digit(unit_char),
        !is_ascii_upper(unit_char),
        suffix_seconds(unit) == Some(per_unit),
        per_unit >= 1,
    ensures
        spec_parse_duration(decimal(n) + unit) == Ok::<u64, Seq<char>>((n * per_unit) as u64),
{
    let d = decimal(n);
    let t = d + unit;
    lemma_decimal_digits(n);
    assert(t[0] == d[0]);
    assert(!is_white_space(t[0]));
    assert(trim_start(t) == t);
    assert(t.last() == unit_char);
    assert(trim_end(t) == t);
    assert(trim(t) == t);
    assert forall|j: int| 0 <= j < d.len() implies is_ascii_digit(#[trigger] t[j]) by {
        assert(t[j] == d[j]);
    }
    assert(t[d.len() as int] == unit_char);
    lemma_leading_digits(t, d.len() as int);
    assert(t.take(d.len() as int) =~= d);
    let rest = t.skip(d.len() as int);
    assert(rest =~= unit);
    assert(rest[0] == unit_char);
    assert(trim_start(rest) == rest);
    assert(trim_end(rest) == rest);
    assert(ascii_lower(rest) =~= unit);
    assert(trim(rest) == rest);
    assert(leading_digits(t) == d.len());
    assert(digits_value(t.take(d.len() as int)) == n);
    assert(n <= n * per_unit) by (nonlinear_arith)
        requires
            per_unit >= 1,
    ;
    assert(suffix_seconds(ascii_lower(trim(t.skip(leading_digits(t) as int)))) == Some(per_unit));
}

/// The letter of the largest unit that divides `seconds`: `w`, `d`, `h`,
/// `m`, or `s`.
pub open spec fn largest_unit(seconds: u64) -> (char, nat) {
    if seconds % 604_800 == 0 {
        ('w', 604_800)
    } else if seconds % 86_400 == 0 {
        ('d', 86_400)
    } else if seconds % 3_600 == 0 {
        ('h', 3_600)
    } else if seconds % 60 == 0 {
        ('m', 60)
    } else {
        ('s', 1)
    }
}

/// A duration is written as decimal digits followed by the letter of the
/// largest unit that divides it (weeks, days, hours, minutes, else seconds),
/// the digits being the duration in that unit.
pub proof fn lemma_format_uses_largest_unit(seconds: u64)
    ensures
        ({
            let f = spec_format_duration(seconds);
            let (letter, unit) = largest_unit(seconds);
            &&& f.len() >= 2
            &&& f.last() == letter
            &&& forall|i: int| 0 <= i < f.len() - 1 ==> is_ascii_digit(#[trigger] f[i])
            &&& digits_value(f.drop_last()) * unit == seconds
        }),
{
    reveal_strlit("w");
    reveal_strlit("d");
    reveal_strlit("h");
    reveal_strlit("m");
    reveal_strlit("s");
    let f = spec_format_duration(seconds);
    let (letter, unit) = largest_unit(seconds);
    assert("w"@ =~= seq!['w'] && "d"@ =~= seq!['d'] && "h"@ =~= seq!['h']);
    assert("m"@ =~= seq!['m'] && "s"@ =~= seq!['s']);
    let q: nat = if seconds % 604_800 == 0 {
        (seconds / 604_800) as nat
    } else if seconds % 86_400 == 0 {
        (seconds / 86_400) as nat
    } else if seconds % 3_600 == 0 {
        (seconds / 3_600) as nat
    } else if seconds % 60 == 0 {
        (seconds / 60) as nat
    } else {
        seconds as nat
    };
    assert(q * unit == seconds);
    lemma_decimal_digits(q);
    let d = decimal(q);
    assert(f == d + seq![letter]);
    assert(f.drop_last() =~= d);
    assert forall|i: int| 0 <= i < f.len() - 1 implies is_ascii_digit(#[trigger] f[i]) by {
        assert(f[i] == d[i]);
    }
}

/// A lower case ASCII word.
pub open spec fn is_lower_word(w: Seq<char>) -> bool {
    w.len() > 0 && forall|i: int| 0 <= i < w.len() ==> 'a' <= #[trigger] w[i] <= 'z'
}

proof fn lemma_parse_number_with_word(n: nat, unit: Seq<char>, per_unit: u64)
    requires
        n * per_unit <= u64::MAX,
        is_lower_word(unit),
        suffix_seconds(unit) == Some(per_unit),
        per_unit >= 1,
    ensures
        spec_parse_duration(decimal(n) + unit) == Ok::<u64, Seq<char>>((n * per_unit) as u64),
{
    let d = decimal(n);
    let t = d + unit;
    lemma_decimal_digits(n);
    assert(t[0] == d[0]);
    assert(trim_start(t) == t);
    assert(t.last() == unit.last());
    assert(unit.last() == unit[unit.len() - 1]);
    assert(trim_end(t) == t);
    assert(trim(t) == t);
    assert forall|j: int| 0 <= j < d.len() implies is_ascii_digit(#[trigger] t[j]) by {
        assert(t[j] == d[j]);
    }
    assert(t[d.len() as int] == unit[0]);
    lemma_leading_digits(t, d.len() as int);
    assert(t.take(d.len() as int) =~= d);
    let rest = t.skip(d.len() as int);
    assert(rest =~= unit);
    assert(trim_start(rest) == rest);
    assert(trim_end(rest) == rest);
    assert(ascii_lower(rest) =~= unit);
    assert(trim(rest) == rest);
    assert(leading_digits(t) == d.len());
    assert(digits_value(t.take(d.len() as int)) == n);
    assert(n <= n * per_unit) by (nonlinear_arith)
        requires
            per_unit >= 1,
    ;
}

proof fn lemma_parse_bare_number(n: nat)
    requires
        n * 86_400 <= u64::MAX,
    ensures
        spec_parse_duration(decimal(n)) == Ok::<u64, Seq<char>>((n * 86_400) as u64),
{
    reveal_strlit("");
    let t = decimal(n);
    lemma_decimal_digits(n);
    assert(trim_start(t) == t);
    assert(trim_end(t) == t);
    assert(trim(t) == t);
    lemma_leading_digits(t, t.len() as int);
    assert(t.take(t.len() as int) =~= t);
    let rest = t.skip(t.len() as int);
    assert(rest =~= Seq::<char>::empty());
    assert(ascii_lower(trim(rest)) =~= ""@);
    assert(n <= n * 86_400) by (nonlinear_arith);
}

proof fn lemma_word_parses(n: nat, w: Seq<char>, per_unit: u64)
    requires
        suffix_seconds(w) == Some(per_unit),
        per_unit >= 1,
        w.len() > 0,
        forall|i: int| 0 <= i < w.len() ==> 'a' <= #[trigger] w[i] <= 'z',
    ensures
        n * per_unit <= u64::MAX ==> spec_parse_duration(decimal(n) + w) == Ok::<u64, Seq<char>>(
            (n * per_unit) as u64,
        ),
{
    if n * per_unit <= u64::MAX {
        lemma_parse_number_with_word(n, w, per_unit);
    }
}

/// A number followed by a unit parses to the number times the unit's length
/// in seconds, whichever spelling of the unit is used: `s`, `sec`, `secs`,
/// `second`, `seconds` are one second; `m`, `min`, `mins`, `minute`,
/// `minutes` sixty; `h`, `hr`, `hour`, `hours` an hour; `d`, `day`, `days`
/// and a bare number a day; `w`, `week`, `weeks` a week.
pub proof fn lemma_units_parse(n: nat)
    ensures
        n * 86_400 <= u64::MAX ==> spec_parse_duration(decimal(n)) == Ok::<u64, Seq<char>>(
            (n * 86_400) as u64,
        ),
        n <= u64::MAX ==> {
            &&& spec_parse_duration(decimal(n) + "s"@) == Ok::<u64, Seq<char>>(n as u64)
            &&& spec_parse_duration(decimal(n) + "sec"@) == Ok::<u64, Seq<char>>(n as u64)
            &&& spec_parse_duration(decimal(n) + "secs"@) == Ok::<u64, Seq<char>>(n as u64)
            &&& spec_parse_duration(decimal(n) + "second"@) == Ok::<u64, Seq<char>>(n as u64)
            &&& spec_parse_duration(decimal(n) + "seconds"@) == Ok::<u64, Seq<char>>(n as u64)
        },
        n * 60 <= u64::MAX ==> {
            &&& spec_parse_duration(decimal(n) + "m"@) == Ok::<u64, Seq<char>>((n * 60) as u64)
            &&& spec_parse_duration(decimal(n) + "min"@) == Ok::<u64, Seq<char>>((n * 60) as u64)
            &&& spec_parse_duration(decimal(n) + "mins"@) == Ok::<u64, Seq<char>>((n * 60) as u64)
            &&& spec_parse_duration(decimal(n) + "minute"@) == Ok::<u64, Seq<char>>(
                (n * 60) as u64,
            )
            &&& spec_parse_duration(decimal(n) + "minutes"@) == Ok::<u64, Seq<char>>(
                (n * 60) as u64,
            )
        },
        n * 3_600 <= u64::MAX ==> {
            &&& spec_parse_duration(decimal(n) + "h"@) == Ok::<u64, Seq<char>>((n * 3_600) as u64)
            &&& spec_parse_duration(decimal(n) + "hr"@) == Ok::<u64, Seq<char>>((n * 3_600) as u64)
            &&& spec_parse_duration(decimal(n) + "hour"@) == Ok::<u64, Seq<char>>(
                (n * 3_600) as u64,
            )
            &&& spec_parse_duration(decimal(n) + "hours"@) == Ok::<u64, Seq<char>>(
                (n * 3_600) as u64,
            )
        },
        n * 86_400 <= u64::MAX ==> {
            &&& spec_parse_duration(decimal(n) + "d"@) == Ok::<u64, Seq<char>>((n * 86_400) as u64)
            &&& spec_parse_duration(decimal(n) + "day"@) == Ok::<u64, Seq<char>>(
                (n * 86_400) as u64,
            )
            &&& spec_parse_duration(decimal(n) + "days"@) == Ok::<u64, Seq<char>>(
                (n * 86_400) as u64,
            )
        },
        n * 604_800 <= u64::MAX ==> {
            &&& spec_parse_duration(decimal(n) + "w"@) == Ok::<u64, Seq<char>>(
                (n * 604_800) as u64,
            )
            &&& spec_parse_duration(decimal(n) + "week"@) == Ok::<u64, Seq<char>>(
                (n * 604_800) as u64,
            )
            &&& spec_parse_duration(decimal(n) + "weeks"@) == Ok::<u64, Seq<char>>(
                (n * 604_800) as u64,
            )
        },
{
    reveal_strlit("");
    reveal_strlit("d");
    reveal_strlit("day");
    reveal_strlit("days");
    reveal_strlit("w");
    reveal_strlit("week");
    reveal_strlit("weeks");
    reveal_strlit("h");
    reveal_strlit("hr");
    reveal_strlit("hour");
    reveal_strlit("hours");
    reveal_strlit("m");
    reveal_strlit("min");
    reveal_strlit("mins");
    reveal_strlit("minute");
    reveal_strlit("minutes");
    reveal_strlit("s");
    reveal_strlit("sec");
    reveal_strlit("secs");
    reveal_strlit("second");
    reveal_strlit("seconds");
    if n * 86_400 <= u64::MAX {
        lemma_parse_bare_number(n);
    }
    assert(""@.len() == 0);
    assert("s"@.len() == 1 && "s"@[0] == 's');
    assert("sec"@.len() == 3 && "sec"@[0] == 's');
    assert("secs"@.len() == 4 && "secs"@[0] == 's');
    assert("second"@.len() == 6 && "second"@[0] == 's');
    assert("seconds"@.len() == 7 && "seconds"@[0] == 's');
    assert("m"@.len() == 1 && "m"@[0] == 'm');
    assert("min"@.len() == 3 && "min"@[0] == 'm');
    assert("mins"@.len() == 4 && "mins"@[0] == 'm');
    assert("minute"@.len() == 6 && "minute"@[0] == 'm');
    assert("minutes"@.len() == 7 && "minutes"@[0] == 'm');
    assert("h"@.len() == 1 && "h"@[0] == 'h');
    assert("hr"@.len() == 2 && "hr"@[0] == 'h');
    assert("hour"@.len() == 4 && "hour"@[0] == 'h');
    assert("hours"@.len() == 5 && "hours"@[0] == 'h');
    assert("d"@.len() == 1 && "d"@[0] == 'd');
    assert("day"@.len() == 3 && "day"@[0] == 'd');
    assert("days"@.len() == 4 && "days"@[0] == 'd');
    assert("w"@.len() == 1 && "w"@[0] == 'w');
    assert("week"@.len() == 4 && "week"@[0] == 'w');
    assert("weeks"@.len() == 5 && "weeks"@[0] == 'w');
    assert(n * 1 == n);
    lemma_word_parses(n, "s"@, 1u64);
    lemma_word_parses(n, "sec"@, 1u64);
    lemma_word_parses(n, "secs"@, 1u64);
    lemma_word_parses(n, "second"@, 1u64);
    lemma_word_parses(n, "seconds"@, 1u64);
    lemma_word_parses(n, "m"@, 60u64);
    lemma_word_parses(n, "min"@, 60u64);
    lemma_word_parses(n, "mins"@, 60u64);
    lemma_word_parses(n, "minute"@, 60u64);
    lemma_word_parses(n, "minutes"@, 60u64);
    lemma_word_parses(n, "h"@, 3600u64);
    lemma_word_parses(n, "hr"@, 3600u64);
    lemma_word_parses(n, "hour"@, 3600u64);
    lemma_word_parses(n, "hours"@, 3600u64);
    lemma_word_parses(n, "d"@, 86400u64);
    lemma_word_parses(n, "day"@, 86400u64);
    lemma_word_parses(n, "days"@, 86400u64);
    lemma_word_parses(n, "w"@, 604800u64);
    lemma_word_parses(n, "week"@, 604800u64);
    lemma_word_parses(n, "weeks"@, 604800u64);
}

proof fn lemma_unit_suffixes()
    ensures
        suffix_seconds(seq!['w']) == Some(seconds_per_week()),
        suffix_seconds(seq!['d']) == Some(seconds_per_day()),
        suffix_seconds(seq!['h']) == Some(seconds_per_hour()),
        suffix_seconds(seq!['m']) == Some(seconds_per_minute()),
        suffix_seconds(seq!['s']) == Some(1u64),
{
    reveal_strlit("");
    reveal_strlit("d");
    reveal_strlit("day");
    reveal_strlit("days");
    reveal_strlit("w");
    reveal_strlit("week");
    reveal_strlit("weeks");
    reveal_strlit("h");
    reveal_strlit("hr");
    reveal_strlit("hour");
    reveal_strlit("hours");
    reveal_strlit("m");
    reveal_strlit("min");
    reveal_strlit("mins");
    reveal_strlit("minute");
    reveal_strlit("minutes");
    reveal_strlit("s");
    reveal_strlit("sec");
    reveal_strlit("secs");
    reveal_strlit("second");
    reveal_strlit("seconds");
    assert(""@.len() == 0);
    assert("d"@.len() == 1 && "d"@[0] == 'd');
    assert("w"@.len() == 1 && "w"@[0] == 'w');
    assert("h"@.len() == 1 && "h"@[0] == 'h');
    assert("m"@.len() == 1 && "m"@[0] == 'm');
    assert("s"@.len() == 1 && "s"@[0] == 's');
    assert("day"@.len() == 3 && "days"@.len() == 4 && "week"@.len() == 4 && "weeks"@.len() == 5);
    assert("hr"@.len() == 2 && "hour"@.len() == 4 && "hours"@.len() == 5);
    assert("min"@.len() == 3 && "mins"@.len() == 4 && "minute"@.len() == 6);
    assert("minutes"@.len() == 7);
    assert(seq!['w'][0] == 'w' && seq!['d'][0] == 'd' && seq!['h'][0] == 'h');
    assert(seq!['m'][0] == 'm' && seq!['s'][0] == 's');
    assert(seq!['w'] =~= "w"@);
    assert(seq!['d'] =~= "d"@);
    assert(seq!['h'] =~= "h"@);
    assert(seq!['m'] =~= "m"@);
    assert(seq!['s'] =~= "s"@);
}

/// Rendering a number of seconds and parsing the text back gives the same
/// number of seconds.
pub proof fn lemma_format_then_parse(seconds: u64)
    ensures
        spec_parse_duration(spec_format_duration(seconds)) == Ok::<u64, Seq<char>>(seconds),
{
    reveal_strlit("w");
    reveal_strlit("d");
    reveal_strlit("h");
    reveal_strlit("m");
    reveal_strlit("s");
    lemma_unit_suffixes();
    if seconds % seconds_per_week() == 0 {
        let q = (seconds / seconds_per_week()) as nat;
        assert(q * seconds_per_week() == seconds);
        assert("w"@ =~= seq!['w']);
        lemma_parse_number_with_unit(q, 'w', "w"@, seconds_per_week());
    } else if seconds % seconds_per_day() == 0 {
        let q = (seconds / seconds_per_day()) as nat;
        assert(q * seconds_per_day() == seconds);
        assert("d"@ =~= seq!['d']);
        lemma_parse_number_with_unit(q, 'd', "d"@, seconds_per_day());
    } else if seconds % seconds_per_hour() == 0 {
        let q = (seconds / seconds_per_hour()) as nat;
        assert(q * seconds_per_hour() == seconds);
        assert("h"@ =~= seq!['h']);
        lemma_parse_number_with_unit(q, 'h', "h"@, seconds_per_hour());
    } else if seconds % seconds_per_minute() == 0 {
        let q = (seconds / seconds_per_minute()) as nat;
        assert(q * seconds_per_minute() == seconds);
        assert("m"@ =~= seq!['m']);
        lemma_parse_number_with_unit(q, 'm', "m"@, seconds_per_minute());
    } else {
        assert("s"@ =~= seq!['s']);
        lemma_parse_number_with_unit(seconds as nat, 's', "s"@, 1);
    }
}

} // verus!
