//! The order-file line vocabulary: whitespace tokenization, fixed-point
//! decimal numbers, and date-time strings (the latter through chrono).
//!
//! A number is an optional minus sign, one to fifteen integer digits, and
//! optionally a decimal point followed by at least one digit; its value is
//! taken in milli-units, truncating the fraction after three digits.

use vstd::prelude::*;
use crate::math::TIME_LIMIT;

verus! {

/// What chrono's `NaiveDateTime::parse_from_str` makes of a date token and
/// a time token joined by one space, under the `MM/DD/YYYY HH:MM:SS`
/// format: the epoch seconds they denote, or nothing when they do not
/// parse.  The result depends on the two tokens alone.
pub uninterp spec fn parsed_time(date: Seq<char>, time: Seq<char>) -> Option<i64>;

/// Relies on chrono's `NaiveDateTime::parse_from_str` with the
/// `"%m/%d/%Y %H:%M:%S"` format, and on `and_utc().timestamp()` to turn
/// the parsed civil date-time into epoch seconds.
#[verifier::external_body]
pub(crate) fn parse_datetime(date: &str, time: &str) -> (r: Option<i64>)
    ensures
        r == parsed_time(date@, time@),
{
    let joined = format!("{} {}", date, time);
    match chrono::NaiveDateTime::parse_from_str(&joined, "%m/%d/%Y %H:%M:%S") {
        Ok(dt) => Some(dt.and_utc().timestamp()),
        Err(_) => None,
    }
}

/// A date and time token pair parsed and checked against the timestamp
/// range the simulator's arithmetic is proved for.
pub open spec fn checked_time(date: Seq<char>, time: Seq<char>) -> Option<i64> {
    match parsed_time(date, time) {
        Some(t) => if crate::order::time_ok(t as int) {
            Some(t)
        } else {
            None
        },
        None => None,
    }
}

pub fn parse_time_in_range(date: &str, time: &str) -> (r: Option<i64>)
    ensures
        r == checked_time(date@, time@),
        r is Some ==> crate::order::time_ok(r.unwrap() as int),
{
    match parse_datetime(date, time) {
        Some(t) => {
            if -TIME_LIMIT <= t && t <= TIME_LIMIT {
                Some(t)
            } else {
                None
            }
        },
        None => None,
    }
}

pub open spec fn is_blank(c: char) -> bool {
    c == ' ' || c == '\t' || c == '\r' || c == '\n'
}

fn is_blank_at(c: char) -> (r: bool)
    ensures
        r == is_blank(c),
{
    c == ' ' || c == '\t' || c == '\r' || c == '\n'
}

/// The index of the first blank character at or after `i`, or the end.
pub open spec fn token_stop(s: Seq<char>, i: int) -> int
    decreases s.len() - i,
{
    if i < 0 || i >= s.len() {
        s.len() as int
    } else if is_blank(s[i]) {
        i
    } else {
        token_stop(s, i + 1)
    }
}

pub proof fn lemma_token_stop_bounds(s: Seq<char>, i: int)
    requires
        0 <= i <= s.len(),
    ensures
        i <= token_stop(s, i) <= s.len(),
        i < s.len() && !is_blank(s[i]) ==> i < token_stop(s, i),
    decreases s.len() - i,
{
    if i < s.len() && !is_blank(s[i]) {
        lemma_token_stop_bounds(s, i + 1);
    }
}

/// The tokens of `s` from index `i` on: maximal runs of non-blank
/// characters, in order.
pub open spec fn tokens_from(s: Seq<char>, i: int) -> Seq<Seq<char>>
    decreases s.len() - i,
    when 0 <= i
    via tokens_from_decreases
{
    if i >= s.len() {
        Seq::empty()
    } else if is_blank(s[i]) {
        tokens_from(s, i + 1)
    } else {
        let k = token_stop(s, i);
        seq![s.subrange(i, k)] + tokens_from(s, k)
    }
}

#[via_fn]
proof fn tokens_from_decreases(s: Seq<char>, i: int) {
    if 0 <= i < s.len() && !is_blank(s[i]) {
        lemma_token_stop_bounds(s, i);
    }
}

/// The token list of a whole line.
pub open spec fn spec_tokens(s: Seq<char>) -> Seq<Seq<char>> {
    tokens_from(s, 0)
}

fn token_stop_at(line: &str, i: usize) -> (r: usize)
    requires
        i <= line@.len(),
    ensures
        r as int == token_stop(line@, i as int),
        i <= r <= line@.len(),
    decreases line@.len() - i,
{
    let n: usize = line.unicode_len();
    if i >= n {
        return n;
    }
    if is_blank_at(line.get_char(i)) {
        return i;
    }
    token_stop_at(line, i + 1)
}

fn tokenize_from(line: &str, i: usize) -> (r: Vec<String>)
    requires
        i <= line@.len(),
    ensures
        r.deep_view() == tokens_from(line@, i as int),
    decreases line@.len() - i,
{
    let n: usize = line.unicode_len();
    if i >= n {
        let r = Vec::<String>::new();
        proof {
            assert(r.deep_view() =~= tokens_from(line@, i as int));
        }
        return r;
    }
    if is_blank_at(line.get_char(i)) {
        return tokenize_from(line, i + 1);
    }
    let k: usize = token_stop_at(line, i);
    proof {
        lemma_token_stop_bounds(line@, i as int);
    }
    let tok: String = line.substring_char(i, k).to_owned();
    let mut rest: Vec<String> = tokenize_from(line, k);
    rest.insert(0, tok);
    proof {
        assert(rest.deep_view() =~= tokens_from(line@, i as int));
    }
    rest
}

/// Split a line into whitespace-separated tokens.
pub fn tokenize(line: &str) -> (r: Vec<String>)
    ensures
        r.deep_view() == spec_tokens(line@),
{
    tokenize_from(line, 0)
}

pub open spec fn is_digit(c: char) -> bool {
    48 <= c as int <= 57
}

pub open spec fn digit_val(c: char) -> int {
    c as int - 48
}

pub open spec fn all_digits(s: Seq<char>) -> bool {
    forall|i: int| 0 <= i < s.len() ==> is_digit(#[trigger] s[i])
}

/// The value of a string of decimal digits.
pub open spec fn digits_val(s: Seq<char>) -> int
    decreases s.len(),
{
    if s.len() == 0 {
        0
    } else {
        digits_val(s.drop_last()) * 10 + digit_val(s.last())
    }
}

/// A digit string of length at most `n` is below `10^n` (stated for the
/// lengths the parser admits).
proof fn lemma_digits_val_tight(s: Seq<char>)
    requires
        all_digits(s),
    ensures
        s.len() <= 14 ==> digits_val(s) < 100_000_000_000_000,
        s.len() <= 13 ==> digits_val(s) < 10_000_000_000_000,
        s.len() <= 12 ==> digits_val(s) < 1_000_000_000_000,
        s.len() <= 11 ==> digits_val(s) < 100_000_000_000,
        s.len() <= 10 ==> digits_val(s) < 10_000_000_000,
        s.len() <= 9 ==> digits_val(s) < 1_000_000_000,
        s.len() <= 8 ==> digits_val(s) < 100_000_000,
        s.len() <= 7 ==> digits_val(s) < 10_000_000,
        s.len() <= 6 ==> digits_val(s) < 1_000_000,
        s.len() <= 5 ==> digits_val(s) < 100_000,
        s.len() <= 4 ==> digits_val(s) < 10_000,
        s.len() <= 3 ==> digits_val(s) < 1_000,
        s.len() <= 2 ==> digits_val(s) < 100,
        s.len() <= 1 ==> digits_val(s) < 10,
    decreases s.len(),
{
    if s.len() > 0 {
        assert(all_digits(s.drop_last())) by {
            assert(forall|i: int|
                0 <= i < s.len() - 1 ==> #[trigger] s.drop_last()[i] == s[i]);
        }
        lemma_digits_val_tight(s.drop_last());
        assert(digit_val(s.last()) <= 9);
    }
}

/// The index of the first '.' at or after `i`, or the end.
pub open spec fn dot_index(s: Seq<char>, i: int) -> int
    decreases s.len() - i,
{
    if i < 0 || i >= s.len() {
        s.len() as int
    } else if s[i] == '.' {
        i
    } else {
        dot_index(s, i + 1)
    }
}

proof fn lemma_dot_index_bounds(s: Seq<char>, i: int)
    requires
        0 <= i <= s.len(),
    ensures
        i <= dot_index(s, i) <= s.len(),
    decreases s.len() - i,
{
    if i < s.len() && s[i] != '.' {
        lemma_dot_index_bounds(s, i + 1);
    }
}

fn dot_index_at(tok: &str, i: usize) -> (r: usize)
    requires
        i <= tok@.len(),
    ensures
        r as int == dot_index(tok@, i as int),
        i <= r <= tok@.len(),
    decreases tok@.len() - i,
{
    let n: usize = tok.unicode_len();
    if i >= n {
        return n;
    }
    if tok.get_char(i) == '.' {
        return i;
    }
    dot_index_at(tok, i + 1)
}

/// The milli-value of the leading fraction digits: the first three digits
/// after the point, padded with zeros on the right.
pub open spec fn frac_milli(f: Seq<char>) -> int {
    if f.len() >= 3 {
        digits_val(f.subrange(0, 3))
    } else if f.len() == 2 {
        digits_val(f) * 10
    } else if f.len() == 1 {
        digits_val(f) * 100
    } else {
        0
    }
}

/// The fixed-point reading of a decimal number token, in milli-units:
/// an optional minus sign, one to fifteen integer digits, optionally a
/// decimal point and at least one fraction digit; the fraction is truncated
/// after three digits.  Anything else does not parse.
pub open spec fn parse_milli_spec(s: Seq<char>) -> Option<int> {
    let neg = s.len() > 0 && s[0] == '-';
    let body = if neg {
        s.subrange(1, s.len() as int)
    } else {
        s
    };
    let d = dot_index(body, 0);
    let ip = body.subrange(0, d);
    let has_frac = d < body.len();
    let fp = if has_frac {
        body.subrange(d + 1, body.len() as int)
    } else {
        Seq::empty()
    };
    if 1 <= ip.len() <= 15 && all_digits(ip) && (!has_frac || (fp.len() >= 1 && all_digits(fp)))
        && (has_frac || d == body.len()) {
        let v = digits_val(ip) * 1000 + frac_milli(fp);
        Some(
            if neg {
                -v
            } else {
                v
            },
        )
    } else {
        None
    }
}

/// The integer reading of a whole-number token: an optional minus sign and
/// one to fifteen digits, nothing else.
pub open spec fn parse_whole_spec(s: Seq<char>) -> Option<int> {
    let neg = s.len() > 0 && s[0] == '-';
    let body = if neg {
        s.subrange(1, s.len() as int)
    } else {
        s
    };
    if 1 <= body.len() <= 15 && all_digits(body) {
        Some(
            if neg {
                -digits_val(body)
            } else {
                digits_val(body)
            },
        )
    } else {
        None
    }
}

/// The value of the digit run `s[from..to]`, accumulated left to right.
fn digits_value_range(tok: &str, from: usize, to: usize) -> (r: Option<i64>)
    requires
        from <= to <= tok@.len(),
        to - from <= 15,
    ensures
        match r {
            Some(v) => all_digits(tok@.subrange(from as int, to as int)) && v as int == digits_val(
                tok@.subrange(from as int, to as int),
            ) && 0 <= v < 1_000_000_000_000_000,
            None => !all_digits(tok@.subrange(from as int, to as int)),
        },
{
    let mut acc: i64 = 0;
    let mut i: usize = from;
    proof {
        assert(tok@.subrange(from as int, from as int) =~= Seq::<char>::empty());
    }
    while i < to
        invariant
            from <= i <= to <= tok@.len(),
            to - from <= 15,
            all_digits(tok@.subrange(from as int, i as int)),
            acc as int == digits_val(tok@.subrange(from as int, i as int)),
            0 <= acc < 1_000_000_000_000_000,
        decreases to - i,
    {
        let c: char = tok.get_char(i);
        let cv: u32 = c as u32;
        if cv < 48 || cv > 57 {
            proof {
                assert(!is_digit(tok@.subrange(from as int, to as int)[i - from]));
            }
            return None;
        }
        proof {
            lemma_digits_val_tight(tok@.subrange(from as int, i as int));
            assert(tok@.subrange(from as int, (i + 1) as int).drop_last() =~= tok@.subrange(
                from as int,
                i as int,
            ));
            assert(tok@.subrange(from as int, (i + 1) as int).last() == tok@[i as int]);
        }
        acc = acc * 10 + ((cv - 48) as i64);
        i = i + 1;
    }
    proof {
        assert(tok@.subrange(from as int, i as int) =~= tok@.subrange(from as int, to as int));
    }
    Some(acc)
}

/// Parse a decimal number token into milli-units.  A parsed value always
/// lies within the coordinate range.
pub fn parse_milli(tok: &str) -> (r: Option<i64>)
    ensures
        match r {
            Some(v) => parse_milli_spec(tok@) == Some(v as int) && crate::order::coord_ok(
                v as int,
            ),
            None => parse_milli_spec(tok@) is None,
        },
{
    let n: usize = tok.unicode_len();
    let neg: bool = n > 0 && tok.get_char(0) == '-';
    let start: usize = if neg {
        1
    } else {
        0
    };
    let ghost body = if neg {
        tok@.subrange(1, tok@.len() as int)
    } else {
        tok@
    };
    proof {
        assert(body =~= tok@.subrange(start as int, tok@.len() as int));
        lemma_dot_index_shift(tok@, start as int);
    }
    let d: usize = dot_index_at(tok, start);
    proof {
        assert(body.subrange(0, d - start) =~= tok@.subrange(start as int, d as int));
    }
    if d - start < 1 || d - start > 15 {
        return None;
    }
    let ipv: Option<i64> = digits_value_range(tok, start, d);
    let ip: i64 = match ipv {
        Some(v) => v,
        None => {
            return None;
        },
    };
    if d == n {
        let v: i64 = ip * 1000;
        proof {
            assert(frac_milli(Seq::<char>::empty()) == 0);
        }
        if neg {
            return Some(-v);
        } else {
            return Some(v);
        }
    }
    // there is a decimal point; at least one digit must follow
    let flen: usize = n - (d + 1);
    if flen < 1 {
        return None;
    }
    let ghost fp = body.subrange(d - start + 1, body.len() as int);
    proof {
        assert(fp =~= tok@.subrange((d + 1) as int, tok@.len() as int));
    }
    // check every fraction digit, then take the first three for the value
    let fall: Option<i64> = if flen <= 15 {
        digits_value_range(tok, d + 1, n)
    } else {
        check_digits_long(tok, d + 1, n)
    };
    if fall.is_none() {
        return None;
    }
    let take: usize = if flen >= 3 {
        3
    } else {
        flen
    };
    let fv: Option<i64> = digits_value_range(tok, d + 1, d + 1 + take);
    let f: i64 = match fv {
        Some(v) => v,
        None => {
            return None;
        },
    };
    proof {
        lemma_digits_val_tight(tok@.subrange((d + 1) as int, (d + 1 + take) as int));
    }
    let fm: i64 = if flen >= 3 {
        proof {
            assert(fp.subrange(0, 3) =~= tok@.subrange((d + 1) as int, (d + 4) as int));
        }
        f
    } else if flen == 2 {
        f * 10
    } else {
        f * 100
    };
    let v: i64 = ip * 1000 + fm;
    if neg {
        Some(-v)
    } else {
        Some(v)
    }
}

/// Whether every character of `tok[from..to]` is a digit, for runs longer
/// than the value computation accepts.
fn check_digits_long(tok: &str, from: usize, to: usize) -> (r: Option<i64>)
    requires
        from <= to <= tok@.len(),
    ensures
        match r {
            Some(_) => all_digits(tok@.subrange(from as int, to as int)),
            None => !all_digits(tok@.subrange(from as int, to as int)),
        },
{
    let mut i: usize = from;
    while i < to
        invariant
            from <= i <= to <= tok@.len(),
            forall|j: int| from <= j < i ==> is_digit(#[trigger] tok@[j]),
        decreases to - i,
    {
        let c: char = tok.get_char(i);
        let cv: u32 = c as u32;
        if cv < 48 || cv > 57 {
            proof {
                assert(tok@.subrange(from as int, to as int)[i - from] == tok@[i as int]);
            }
            return None;
        }
        i = i + 1;
    }
    proof {
        assert(forall|j: int|
            0 <= j < to - from ==> #[trigger] tok@.subrange(from as int, to as int)[j] == tok@[j
                + from]);
    }
    Some(0)
}

proof fn lemma_dot_index_shift(s: Seq<char>, start: int)
    requires
        0 <= start <= s.len(),
    ensures
        dot_index(s.subrange(start, s.len() as int), 0) == dot_index(s, start) - start,
{
    lemma_dot_index_shift_from(s, start, start);
}

proof fn lemma_dot_index_shift_from(s: Seq<char>, start: int, i: int)
    requires
        0 <= start <= i <= s.len(),
    ensures
        dot_index(s.subrange(start, s.len() as int), i - start) == dot_index(s, i) - start,
    decreases s.len() - i,
{
    if i < s.len() && s[i] != '.' {
        lemma_dot_index_shift_from(s, start, i + 1);
    }
}

/// Parse a whole-number token.
pub fn parse_whole(tok: &str) -> (r: Option<i64>)
    ensures
        match r {
            Some(v) => parse_whole_spec(tok@) == Some(v as int),
            None => parse_whole_spec(tok@) is None,
        },
{
    let n: usize = tok.unicode_len();
    let neg: bool = n > 0 && tok.get_char(0) == '-';
    let start: usize = if neg {
        1
    } else {
        0
    };
    proof {
        assert((if neg {
            tok@.subrange(1, tok@.len() as int)
        } else {
            tok@
        }) =~= tok@.subrange(start as int, tok@.len() as int));
    }
    if n - start < 1 || n - start > 15 {
        return None;
    }
    match digits_value_range(tok, start, n) {
        Some(v) => if neg {
            Some(-v)
        } else {
            Some(v)
        },
        None => None,
    }
}

/// Character-for-character string equality.
pub fn str_eq(a: &str, b: &str) -> (r: bool)
    ensures
        r == (a@ == b@),
{
    let n: usize = a.unicode_len();
    if n != b.unicode_len() {
        return false;
    }
    let mut i: usize = 0;
    while i < n
        invariant
            0 <= i <= n,
            n == a@.len() == b@.len(),
            forall|j: int| 0 <= j < i ==> a@[j] == b@[j],
        decreases n - i,
    {
        if a.get_char(i) != b.get_char(i) {
            return false;
        }
        i = i + 1;
    }
    proof {
        assert(a@ =~= b@);
    }
    true
}

} // verus!
