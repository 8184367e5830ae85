//! Timestamped lyric parsing and synchronization.
//!
//! A lyric source is a text whose useful lines look like `[mm:ss.xx]words`.
//! Lines that do not match are dropped, never corrected; fractional-second
//! digits are normalized to milliseconds exactly as written (one digit counts
//! tenths of a second, two count hundredths, anything longer is taken
//! verbatim as milliseconds).  `active_lyric_index` resolves the line to
//! highlight for a playback position.

use vstd::prelude::*;
use vstd::string::StrSliceExecFns;

verus! {

/// The characters `str::trim` removes: the Unicode white-space set.
pub open spec fn is_space(c: char) -> bool {
    let u = c as u32;
    ||| u == 0x09
    ||| u == 0x0A
    ||| u == 0x0B
    ||| u == 0x0C
    ||| u == 0x0D
    ||| u == 0x20
    ||| u == 0x85
    ||| u == 0xA0
    ||| u == 0x1680
    ||| (0x2000 <= u && u <= 0x200A)
    ||| u == 0x2028
    ||| u == 0x2029
    ||| u == 0x202F
    ||| u == 0x205F
    ||| u == 0x3000
}

/// Decides `is_space`.
fn is_space_char(c: char) -> (r: bool)
    ensures
        r == is_space(c),
{
    let u = c as u32;
    u == 0x09 || u == 0x0A || u == 0x0B || u == 0x0C || u == 0x0D || u == 0x20 || u == 0x85 || u
        == 0xA0 || u == 0x1680 || (0x2000 <= u && u <= 0x200A) || u == 0x2028 || u == 0x2029 || u
        == 0x202F || u == 0x205F || u == 0x3000
}

/// The first position of `c` in `s` at or after `from`.
pub open spec fn find_from(s: Seq<char>, from: int, c: char) -> Option<int>
    decreases s.len() - from,
{
    if from < 0 || from >= s.len() {
        Option::None
    } else if s[from] == c {
        Option::Some(from)
    } else {
        find_from(s, from + 1, c)
    }
}

/// What `find_from` returns: the first hit at or after `from`, and nothing
/// exactly when `c` does not occur there.
pub proof fn lemma_find_from_props(s: Seq<char>, from: int, c: char)
    requires
        0 <= from,
    ensures
        match find_from(s, from, c) {
            Option::Some(i) => from <= i < s.len() && s[i] == c && (forall|k: int|
                from <= k < i ==> s[k] != c),
            Option::None => forall|k: int| from <= k < s.len() ==> s[k] != c,
        },
    decreases s.len() - from,
{
    if from < s.len() && s[from] != c {
        lemma_find_from_props(s, from + 1, c);
    }
}

/// `s` with its leading white space removed.
pub open spec fn drop_leading_spaces(s: Seq<char>) -> Seq<char>
    decreases s.len(),
{
    if s.len() > 0 && is_space(s[0]) {
        drop_leading_spaces(s.drop_first())
    } else {
        s
    }
}

/// `s` with its trailing white space removed.
pub open spec fn drop_trailing_spaces(s: Seq<char>) -> Seq<char>
    decreases s.len(),
{
    if s.len() > 0 && is_space(s.last()) {
        drop_trailing_spaces(s.drop_last())
    } else {
        s
    }
}

/// What `str::trim` leaves of `s`.
pub open spec fn trim_spec(s: Seq<char>) -> Seq<char> {
    drop_trailing_spaces(drop_leading_spaces(s))
}

/// `s` with every leading occurrence of `c` removed.
pub open spec fn drop_leading_matching(s: Seq<char>, c: char) -> Seq<char>
    decreases s.len(),
{
    if s.len() > 0 && s[0] == c {
        drop_leading_matching(s.drop_first(), c)
    } else {
        s
    }
}

/// An ASCII decimal digit.
pub open spec fn is_digit(c: char) -> bool {
    48 <= c as u32 <= 57
}

/// The numeric value of a digit, and zero for anything else.
pub open spec fn digit_of(c: char) -> nat {
    if is_digit(c) {
        (c as u32 - 48) as nat
    } else {
        0
    }
}

/// The base-ten value of a digit string.
pub open spec fn digits_val(s: Seq<char>) -> nat
    decreases s.len(),
{
    if s.len() == 0 {
        0
    } else {
        digits_val(s.drop_last()) * 10 + digit_of(s.last())
    }
}

/// A prefix of a digit string never exceeds the whole string's value.
pub proof fn lemma_digits_val_prefix(s: Seq<char>, k: int)
    requires
        0 <= k <= s.len(),
    ensures
        digits_val(s.take(k)) <= digits_val(s),
    decreases s.len() - k,
{
    if k < s.len() {
        lemma_digits_val_prefix(s.drop_last(), k);
        assert(s.drop_last().take(k) =~= s.take(k));
    } else {
        assert(s.take(k) =~= s);
    }
}

/// A digit string of length at most two stays below one hundred, and of
/// length at most one below ten.
pub proof fn lemma_digits_val_short(s: Seq<char>)
    ensures
        s.len() <= 1 ==> digits_val(s) <= 9,
        s.len() <= 2 ==> digits_val(s) <= 99,
{
    if s.len() == 1 {
        assert(digits_val(s.drop_last()) == 0);
    }
    if s.len() == 2 {
        assert(digits_val(s.drop_last().drop_last()) == 0);
        assert(digits_val(s.drop_last()) <= 9);
    }
}

/// A nonempty run of decimal digits.
pub open spec fn all_digits(s: Seq<char>) -> bool {
    forall|i: int| 0 <= i < s.len() ==> is_digit(#[trigger] s[i])
}

/// The digits of a number literal: everything behind an optional plus sign.
pub open spec fn number_body(s: Seq<char>) -> Seq<char> {
    if s.len() > 0 && s[0] == '+' {
        s.drop_first()
    } else {
        s
    }
}

/// What `str::parse::<u64>` accepts of `s`: an optional leading plus sign,
/// then at least one digit, all digits, with a value that fits.
pub open spec fn parse_u64_spec(s: Seq<char>) -> Option<u64> {
    let body = number_body(s);
    if body.len() > 0 && all_digits(body) && digits_val(body) <= u64::MAX {
        Option::Some(digits_val(body) as u64)
    } else {
        Option::None
    }
}

/// Clamping into the representable timestamp range.
pub open spec fn sat_u64(v: int) -> u64 {
    if v > u64::MAX {
        u64::MAX
    } else if v < 0 {
        0
    } else {
        v as u64
    }
}

/// Fractional digits normalized to milliseconds: one digit counts tenths of
/// a second, two count hundredths, longer runs are taken verbatim.
pub open spec fn scale_millis(raw: u64, digits: int) -> int {
    if digits == 1 {
        raw * 100
    } else if digits == 2 {
        raw * 10
    } else {
        raw as int
    }
}

/// A line's timestamp in milliseconds, saturating at the top of the range.
pub open spec fn lrc_timestamp(mins: u64, secs: u64, millis: int) -> u64 {
    sat_u64(mins * 60000 + secs * 1000 + millis)
}

/// Collects the characters of a string slice.
fn str_chars(s: &str) -> (r: Vec<char>)
    ensures
        r@ == s@,
{
    let len = s.unicode_len();
    let mut r: Vec<char> = Vec::new();
    let mut i: usize = 0;
    while i < len
        invariant
            i <= len,
            len == s@.len(),
            r@.len() == i,
            forall|k: int| 0 <= k < i ==> r@[k] == s@[k],
        decreases len - i,
    {
        r.push(s.get_char(i));
        i += 1;
    }
    proof {
        assert(r@ =~= s@);
    }
    r
}

/// Finds the first occurrence of `c` in `v` within `[lo, hi)`, reported as
/// an absolute position.
#[verifier::loop_isolation(false)]
fn find_in_range(v: &Vec<char>, lo: usize, hi: usize, c: char) -> (r: Option<usize>)
    requires
        lo <= hi <= v@.len(),
    ensures
        ({
            let t = v@.subrange(lo as int, hi as int);
            match r {
                Option::Some(p) => lo <= p < hi && find_from(t, 0, c) == Option::Some(
                    p - lo,
                ),
                Option::None => find_from(t, 0, c) is None,
            }
        }),
{
    let ghost t = v@.subrange(lo as int, hi as int);
    proof {
        lemma_find_from_props(t, 0, c);
    }
    let mut i = lo;
    while i < hi
        invariant
            lo <= i <= hi,
            hi <= v@.len(),
            t == v@.subrange(lo as int, hi as int),
            forall|k: int| lo <= k < i ==> v@[k] != c,
        decreases hi - i,
    {
        if v[i] == c {
            proof {
                match find_from(t, 0, c) {
                    Option::Some(j) => {
                        if j < i - lo {
                            assert(t[j] == v@[lo + j]);
                            assert(false);
                        }
                        if j > i - lo {
                            assert(t[i - lo] != c);
                            assert(t[i - lo] == v@[i as int]);
                            assert(false);
                        }
                    },
                    Option::None => {
                        assert(t[i - lo] == v@[i as int]);
                        assert(false);
                    },
                }
            }
            return Some(i);
        }
        i += 1;
    }
    proof {
        match find_from(t, 0, c) {
            Option::Some(j) => {
                assert(t[j] == v@[lo + j]);
                assert(false);
            },
            Option::None => {},
        }
    }
    None
}

/// The bounds of `trim_spec` applied to `v`'s range `[lo, hi)`.
fn trim_in_range(v: &Vec<char>, lo: usize, hi: usize) -> (r: (usize, usize))
    requires
        lo <= hi <= v@.len(),
    ensures
        lo <= r.0 <= r.1 <= hi,
        v@.subrange(r.0 as int, r.1 as int) == trim_spec(v@.subrange(lo as int, hi as int)),
{
    let mut a = lo;
    while a < hi && is_space_char(v[a])
        invariant
            lo <= a <= hi,
            hi <= v@.len(),
            drop_leading_spaces(v@.subrange(lo as int, hi as int)) == drop_leading_spaces(
                v@.subrange(a as int, hi as int),
            ),
        decreases hi - a,
    {
        proof {
            let s = v@.subrange(a as int, hi as int);
            assert(s[0] == v@[a as int]);
            assert(s.drop_first() =~= v@.subrange(a + 1, hi as int));
        }
        a += 1;
    }
    proof {
        let s = v@.subrange(a as int, hi as int);
        if s.len() > 0 {
            assert(s[0] == v@[a as int]);
        }
        assert(drop_leading_spaces(s) == s);
    }
    let mut b = hi;
    while b > a && is_space_char(v[b - 1])
        invariant
            a <= b <= hi,
            hi <= v@.len(),
            drop_trailing_spaces(v@.subrange(a as int, hi as int)) == drop_trailing_spaces(
                v@.subrange(a as int, b as int),
            ),
        decreases b,
    {
        proof {
            let s = v@.subrange(a as int, b as int);
            assert(s.last() == v@[b - 1]);
            assert(s.drop_last() =~= v@.subrange(a as int, b - 1));
        }
        b -= 1;
    }
    proof {
        let s = v@.subrange(a as int, b as int);
        if s.len() > 0 {
            assert(s.last() == v@[b - 1]);
        }
        assert(drop_trailing_spaces(s) == s);
    }
    (a, b)
}

/// The start of `drop_leading_matching` applied to `v`'s range `[lo, hi)`.
fn strip_leading_in_range(v: &Vec<char>, lo: usize, hi: usize, c: char) -> (r: usize)
    requires
        lo <= hi <= v@.len(),
    ensures
        lo <= r <= hi,
        v@.subrange(r as int, hi as int) == drop_leading_matching(
            v@.subrange(lo as int, hi as int),
            c,
        ),
{
    let mut a = lo;
    while a < hi && v[a] == c
        invariant
            lo <= a <= hi,
            hi <= v@.len(),
            drop_leading_matching(v@.subrange(lo as int, hi as int), c) == drop_leading_matching(
                v@.subrange(a as int, hi as int),
                c,
            ),
        decreases hi - a,
    {
        proof {
            let s = v@.subrange(a as int, hi as int);
            assert(s[0] == v@[a as int]);
            assert(s.drop_first() =~= v@.subrange(a + 1, hi as int));
        }
        a += 1;
    }
    proof {
        let s = v@.subrange(a as int, hi as int);
        if s.len() > 0 {
            assert(s[0] == v@[a as int]);
        }
        assert(drop_leading_matching(s, c) == s);
    }
    a
}

/// Parses `v`'s range `[lo, hi)` as `str::parse::<u64>` would, reporting
/// failure where parsing fails.
#[verifier::loop_isolation(false)]
fn parse_u64_in_range(v: &Vec<char>, lo: usize, hi: usize) -> (r: Option<u64>)
    requires
        lo <= hi <= v@.len(),
    ensures
        r == parse_u64_spec(v@.subrange(lo as int, hi as int)),
{
    let ghost s = v@.subrange(lo as int, hi as int);
    let mut start = lo;
    if lo < hi && v[lo] == '+' {
        start = lo + 1;
    }
    let ghost body = number_body(s);
    proof {
        if s.len() > 0 {
            assert(s[0] == v@[lo as int]);
        }
        assert(body =~= v@.subrange(start as int, hi as int));
    }
    if start == hi {
        return None;
    }
    let mut acc: u64 = 0;
    let mut i = start;
    while i < hi
        invariant
            start <= i <= hi,
            hi <= v@.len(),
            body == v@.subrange(start as int, hi as int),
            forall|k: int| 0 <= k < i - start ==> is_digit(#[trigger] body[k]),
            acc == digits_val(body.take(i - start)),
        decreases hi - i,
    {
        let c = v[i];
        let u = c as u32;
        proof {
            assert(body[i - start] == v@[i as int]);
        }
        if u < 48 || u > 57 {
            proof {
                assert(0 <= i - start < body.len());
                assert(!is_digit(body[i - start]));
                assert(!all_digits(body));
                assert(parse_u64_spec(s) is None);
            }
            return None;
        }
        let d = (u - 48) as u64;
        let stepped = match acc.checked_mul(10) {
            Some(x) => x.checked_add(d),
            None => None,
        };
        proof {
            let k = i - start;
            assert(body.take(k + 1).drop_last() =~= body.take(k));
            assert(body.take(k + 1).last() == body[k]);
            assert(digits_val(body.take(k + 1)) == digits_val(body.take(k)) * 10 + digit_of(
                body[k],
            ));
        }
        match stepped {
            Some(x) => {
                acc = x;
            },
            None => {
                proof {
                    lemma_digits_val_prefix(body, i - start + 1);
                    assert(digits_val(body) > u64::MAX);
                }
                return None;
            },
        }
        i += 1;
    }
    proof {
        assert(body.take(hi - start) =~= body);
        assert(all_digits(body));
        assert(parse_u64_spec(s) == Option::Some(acc));
    }
    Some(acc)
}

/// The timestamp of a bracketed time field: minutes, a colon, seconds, and
/// an optional dotted fraction.  A second colon rejects the field, and so
/// does any numeric field that fails to parse: a malformed line is dropped,
/// not corrected.
pub open spec fn parse_time_spec(time_part: Seq<char>) -> Option<u64> {
    match find_from(time_part, 0, ':') {
        Option::None => Option::None,
        Option::Some(colon) => {
            let sec_part = time_part.skip(colon + 1);
            if find_from(sec_part, 0, ':') is Some {
                Option::None
            } else {
                match parse_u64_spec(time_part.take(colon)) {
                    Option::None => Option::None,
                    Option::Some(mins) => match find_from(sec_part, 0, '.') {
                        Option::None => match parse_u64_spec(sec_part) {
                            Option::None => Option::None,
                            Option::Some(secs) => Option::Some(lrc_timestamp(mins, secs, 0)),
                        },
                        Option::Some(dot) => match parse_u64_spec(sec_part.take(dot)) {
                            Option::None => Option::None,
                            Option::Some(secs) => {
                                let rest = sec_part.skip(dot + 1);
                                let ms_str = (match find_from(rest, 0, '.') {
                                    Option::None => rest,
                                    Option::Some(dot2) => rest.take(dot2),
                                });
                                match parse_u64_spec(ms_str) {
                                    Option::None => Option::None,
                                    Option::Some(raw) => Option::Some(
                                        lrc_timestamp(
                                            mins,
                                            secs,
                                            scale_millis(raw, ms_str.len() as int),
                                        ),
                                    ),
                                }
                            },
                        },
                    },
                }
            }
        },
    }
}

/// What one source line contributes: a timestamp and the trimmed text after
/// the first closing bracket, or nothing for a line that does not match.
pub open spec fn parse_line_spec(line: Seq<char>) -> Option<(u64, Seq<char>)> {
    let t = trim_spec(line);
    if t.len() == 0 || t[0] != '[' {
        Option::None
    } else {
        match find_from(t, 0, ']') {
            Option::None => Option::None,
            Option::Some(close) => {
                let time_part = drop_leading_matching(t.take(close), '[');
                let text = trim_spec(t.skip(close + 1));
                match parse_time_spec(time_part) {
                    Option::Some(ts) => Option::Some((ts, text)),
                    Option::None => Option::None,
                }
            },
        }
    }
}

/// A line's contribution as a (possibly empty) entry sequence.
pub open spec fn parse_line_entries(line: Seq<char>) -> Seq<(u64, Seq<char>)> {
    match parse_line_spec(line) {
        Option::Some(p) => seq![p],
        Option::None => Seq::empty(),
    }
}

/// Everything the whole source parses to, line by line, in source order.
pub open spec fn parse_lrc_spec(s: Seq<char>) -> Seq<(u64, Seq<char>)>
    decreases s.len(),
    via parse_lrc_spec_dec
{
    match find_from(s, 0, '\n') {
        Option::Some(i) => parse_line_entries(s.take(i)) + parse_lrc_spec(s.skip(i + 1)),
        Option::None => parse_line_entries(s),
    }
}

#[via_fn]
proof fn parse_lrc_spec_dec(s: Seq<char>) {
    lemma_find_from_props(s, 0, '\n');
}

/// The timestamp in milliseconds, saturating instead of overflowing.
fn combine_timestamp(mins: u64, secs: u64, millis: u64) -> (r: u64)
    ensures
        r == lrc_timestamp(mins, secs, millis as int),
{
    let m = mins.checked_mul(60000);
    let s2 = secs.checked_mul(1000);
    match (m, s2) {
        (Some(a), Some(b)) => match a.checked_add(b) {
            Some(c) => match c.checked_add(millis) {
                Some(d) => d,
                None => u64::MAX,
            },
            None => u64::MAX,
        },
        _ => u64::MAX,
    }
}

/// One parsed lyric line.
pub struct LyricLine {
    /// Milliseconds from the start of the track.
    pub timestamp_ms: u64,
    pub text: String,
}

/// A parsed short field stays small: at most nine for one character, at
/// most ninety-nine for two.
proof fn lemma_parse_u64_short(s: Seq<char>)
    ensures
        s.len() <= 1 ==> (parse_u64_spec(s) matches Some(v) ==> v <= 9),
        s.len() <= 2 ==> (parse_u64_spec(s) matches Some(v) ==> v <= 99),
{
    lemma_digits_val_short(number_body(s));
}

/// Parses the line in `[ls, le)` of `cs`, the characters of `lrc`.
fn parse_line_range(cs: &Vec<char>, lrc: &str, ls: usize, le: usize) -> (r: Option<LyricLine>)
    requires
        ls <= le <= cs@.len(),
        cs@ == lrc@,
    ensures
        ({
            let spec_r = parse_line_spec(lrc@.subrange(ls as int, le as int));
            match r {
                Option::Some(l) => (spec_r matches Some(p) && l.timestamp_ms == p.0 && l.text@
                    == p.1),
                Option::None => spec_r is None,
            }
        }),
{
    let ghost line = lrc@.subrange(ls as int, le as int);
    let (a, b) = trim_in_range(cs, ls, le);
    let ghost t = cs@.subrange(a as int, b as int);
    if a == b {
        return None;
    }
    proof {
        assert(t[0] == cs@[a as int]);
    }
    if !(cs[a] == '[') {
        return None;
    }
    let close_abs = match find_in_range(cs, a, b, ']') {
        Some(p) => p,
        None => {
            return None;
        },
    };
    let ghost close = close_abs - a;
    let tp_lo = strip_leading_in_range(cs, a, close_abs, '[');
    let ghost time_part = cs@.subrange(tp_lo as int, close_abs as int);
    proof {
        assert(cs@.subrange(a as int, close_abs as int) =~= t.take(close));
    }
    let (ta, tb) = trim_in_range(cs, close_abs + 1, b);
    proof {
        assert(cs@.subrange(close_abs + 1, b as int) =~= t.skip(close + 1));
    }
    let colon_abs = match find_in_range(cs, tp_lo, close_abs, ':') {
        Some(p) => p,
        None => {
            return None;
        },
    };
    let ghost colon = colon_abs - tp_lo;
    let ghost sec_part = cs@.subrange(colon_abs + 1, close_abs as int);
    proof {
        assert(sec_part =~= time_part.skip(colon + 1));
        assert(time_part.take(colon) =~= cs@.subrange(tp_lo as int, colon_abs as int));
    }
    match find_in_range(cs, colon_abs + 1, close_abs, ':') {
        Some(_) => {
            return None;
        },
        None => {},
    }
    let mins = match parse_u64_in_range(cs, tp_lo, colon_abs) {
        Some(m) => m,
        None => {
            return None;
        },
    };
    let ts: u64;
    match find_in_range(cs, colon_abs + 1, close_abs, '.') {
        None => {
            let secs = match parse_u64_in_range(cs, colon_abs + 1, close_abs) {
                Some(v) => v,
                None => {
                    return None;
                },
            };
            ts = combine_timestamp(mins, secs, 0);
        },
        Some(dot_abs) => {
            proof {
                assert(sec_part.take(dot_abs - (colon_abs + 1)) =~= cs@.subrange(
                    colon_abs + 1,
                    dot_abs as int,
                ));
            }
            let secs = match parse_u64_in_range(cs, colon_abs + 1, dot_abs) {
                Some(v) => v,
                None => {
                    return None;
                },
            };
            let ghost rest = cs@.subrange(dot_abs + 1, close_abs as int);
            proof {
                assert(rest =~= sec_part.skip((dot_abs - (colon_abs + 1)) + 1));
            }
            let ms_hi = match find_in_range(cs, dot_abs + 1, close_abs, '.') {
                Some(d2) => d2,
                None => close_abs,
            };
            let ghost ms_str = cs@.subrange(dot_abs + 1, ms_hi as int);
            proof {
                assert(ms_str =~= rest.take(ms_hi - (dot_abs + 1)));
                assert(rest.take(rest.len() as int) =~= rest);
            }
            let raw = match parse_u64_in_range(cs, dot_abs + 1, ms_hi) {
                Some(v) => v,
                None => {
                    return None;
                },
            };
            let ms_len = ms_hi - (dot_abs + 1);
            let millis: u64;
            if ms_len == 1 {
                proof {
                    lemma_parse_u64_short(ms_str);
                }
                millis = raw * 100;
            } else if ms_len == 2 {
                proof {
                    lemma_parse_u64_short(ms_str);
                }
                millis = raw * 10;
            } else {
                millis = raw;
            }
            proof {
                assert(millis as int == scale_millis(raw, ms_str.len() as int));
            }
            ts = combine_timestamp(mins, secs, millis);
        },
    }
    let text = lrc.substring_char(ta, tb);
    let text_string = text.to_owned();
    Some(LyricLine { timestamp_ms: ts, text: text_string })
}

/// The entries a line sequence stands for.
pub open spec fn entries_of(ls: Seq<LyricLine>) -> Seq<(u64, Seq<char>)> {
    ls.map_values(|l: LyricLine| (l.timestamp_ms, l.text@))
}

/// Parses a whole lyric source into its timestamped lines, in source order,
/// dropping every line that does not match the bracketed-timestamp shape.
#[verifier::loop_isolation(false)]
pub fn parse_lrc(lrc: &str) -> (r: Vec<LyricLine>)
    ensures
        r@.len() == parse_lrc_spec(lrc@).len(),
        forall|i: int|
            0 <= i < r@.len() ==> r@[i].timestamp_ms == parse_lrc_spec(lrc@)[i].0 && r@[i].text@
                == parse_lrc_spec(lrc@)[i].1,
{
    let cs = str_chars(lrc);
    let n = cs.len();
    let mut out: Vec<LyricLine> = Vec::new();
    let mut p: usize = 0;
    let mut finished = false;
    proof {
        assert(lrc@.skip(0) =~= lrc@);
        assert(entries_of(out@) =~= Seq::<(u64, Seq<char>)>::empty());
        assert(parse_lrc_spec(lrc@) =~= entries_of(out@) + parse_lrc_spec(lrc@.skip(0)));
    }
    while !finished
        invariant
            p <= n,
            if finished {
                entries_of(out@) == parse_lrc_spec(lrc@)
            } else {
                parse_lrc_spec(lrc@) == entries_of(out@) + parse_lrc_spec(lrc@.skip(p as int))
            },
        decreases n - p, (if finished { 0int } else { 1int }),
    {
        let ghost tail = lrc@.skip(p as int);
        proof {
            assert(tail =~= cs@.subrange(p as int, n as int));
        }
        let ghost out_before = out@;
        match find_in_range(&cs, p, n, '\n') {
            Some(i) => {
                proof {
                    assert(find_from(tail, 0, '\n') == Option::Some(i - p));
                    assert(tail.take(i - p) =~= lrc@.subrange(p as int, i as int));
                    assert(tail.skip((i - p) + 1) =~= lrc@.skip(i + 1));
                    assert(parse_lrc_spec(tail) == parse_line_entries(
                        lrc@.subrange(p as int, i as int),
                    ) + parse_lrc_spec(lrc@.skip(i + 1)));
                }
                match parse_line_range(&cs, lrc, p, i) {
                    Some(l) => {
                        out.push(l);
                        proof {
                            assert(entries_of(out@) =~= entries_of(out_before) + seq![
                                (l.timestamp_ms, l.text@),
                            ]);
                            assert(parse_line_entries(lrc@.subrange(p as int, i as int)) =~= seq![
                                (l.timestamp_ms, l.text@),
                            ]);
                        }
                    },
                    None => {
                        proof {
                            assert(parse_line_entries(lrc@.subrange(p as int, i as int))
                                =~= Seq::<(u64, Seq<char>)>::empty());
                        }
                    },
                }
                proof {
                    assert(parse_lrc_spec(lrc@) =~= entries_of(out@) + parse_lrc_spec(
                        lrc@.skip(i + 1),
                    ));
                }
                p = i + 1;
            },
            None => {
                proof {
                    assert(find_from(tail, 0, '\n') is None);
                    assert(tail =~= lrc@.subrange(p as int, n as int));
                    assert(parse_lrc_spec(tail) == parse_line_entries(tail));
                }
                match parse_line_range(&cs, lrc, p, n) {
                    Some(l) => {
                        out.push(l);
                        proof {
                            assert(entries_of(out@) =~= entries_of(out_before) + seq![
                                (l.timestamp_ms, l.text@),
                            ]);
                            assert(parse_line_entries(tail) =~= seq![(l.timestamp_ms, l.text@)]);
                        }
                    },
                    None => {
                        proof {
                            assert(parse_line_entries(tail) =~= Seq::<(u64, Seq<char>)>::empty());
                        }
                    },
                }
                finished = true;
                proof {
                    assert(entries_of(out@) =~= parse_lrc_spec(lrc@));
                }
            },
        }
    }
    proof {
        assert(entries_of(out@).len() == out@.len());
    }
    out
}

/// The first line whose timestamp is strictly after `pos`.
pub open spec fn first_after(s: Seq<LyricLine>, pos: u64) -> Option<int>
    decreases s.len(),
{
    if s.len() == 0 {
        Option::None
    } else if s[0].timestamp_ms > pos {
        Option::Some(0)
    } else {
        match first_after(s.drop_first(), pos) {
            Option::Some(i) => Option::Some(i + 1),
            Option::None => Option::None,
        }
    }
}

/// What `first_after` returns: the first late line when there is one, and
/// nothing exactly when every line is at or before `pos`.
pub proof fn lemma_first_after_props(s: Seq<LyricLine>, pos: u64)
    ensures
        match first_after(s, pos) {
            Option::Some(i) => 0 <= i < s.len() && s[i].timestamp_ms > pos && (forall|k: int|
                0 <= k < i ==> s[k].timestamp_ms <= pos),
            Option::None => forall|k: int| 0 <= k < s.len() ==> s[k].timestamp_ms <= pos,
        },
    decreases s.len(),
{
    if s.len() > 0 && s[0].timestamp_ms <= pos {
        lemma_first_after_props(s.drop_first(), pos);
        match first_after(s.drop_first(), pos) {
            Option::Some(i) => {
                assert(s.drop_first()[i] == s[i + 1]);
                assert forall|k: int| 0 <= k < i + 1 implies s[k].timestamp_ms <= pos by {
                    if k > 0 {
                        assert(s.drop_first()[k - 1] == s[k]);
                    }
                }
            },
            Option::None => {
                assert forall|k: int| 0 <= k < s.len() implies s[k].timestamp_ms <= pos by {
                    if k > 0 {
                        assert(s.drop_first()[k - 1] == s[k]);
                    }
                }
            },
        }
    }
}

/// Timestamps never decrease along the sequence.
pub open spec fn sorted_timestamps(s: Seq<LyricLine>) -> bool {
    forall|i: int, j: int|
        0 <= i < j < s.len() ==> #[trigger] s[i].timestamp_ms <= #[trigger] s[j].timestamp_ms
}

/// The line to highlight at playback position `position_ms`: one before the
/// first line that is still ahead, clamped to the ends.  For timestamps in
/// ascending order that is exactly the greatest timestamp at or before the
/// position, or the first line when even it is ahead.
#[verifier::loop_isolation(false)]
pub fn active_lyric_index(lines: &Vec<LyricLine>, position_ms: u64) -> (r: usize)
    requires
        lines@.len() > 0,
    ensures
        r < lines@.len(),
        r as int == (match first_after(lines@, position_ms) {
            Option::Some(i) => if i == 0 {
                0int
            } else {
                i - 1
            },
            Option::None => lines@.len() - 1,
        }),
        sorted_timestamps(lines@) ==> (if lines@[0].timestamp_ms > position_ms {
            r == 0
        } else {
            lines@[r as int].timestamp_ms <= position_ms && (forall|j: int|
                r < j < lines@.len() ==> lines@[j].timestamp_ms > position_ms)
        }),
{
    proof {
        lemma_first_after_props(lines@, position_ms);
    }
    let n = lines.len();
    let mut i: usize = 0;
    let mut found: Option<usize> = None;
    while i < n && found.is_none()
        invariant
            i <= n,
            match found {
                Option::Some(f) => f == i && i < n && lines@[f as int].timestamp_ms > position_ms
                    && (forall|k: int| 0 <= k < f ==> lines@[k].timestamp_ms <= position_ms),
                Option::None => forall|k: int| 0 <= k < i ==> lines@[k].timestamp_ms <= position_ms,
            },
        decreases n - i, (if found is None { 1int } else { 0int }),
    {
        if lines[i].timestamp_ms > position_ms {
            found = Some(i);
        } else {
            i += 1;
        }
    }
    let r = match found {
        Some(f) => {
            proof {
                match first_after(lines@, position_ms) {
                    Option::Some(j) => {
                        if j < f as int {
                            assert(lines@[j].timestamp_ms <= position_ms);
                            assert(false);
                        }
                        if j > f as int {
                            assert(lines@[f as int].timestamp_ms <= position_ms);
                            assert(false);
                        }
                    },
                    Option::None => {
                        assert(lines@[f as int].timestamp_ms <= position_ms);
                        assert(false);
                    },
                }
            }
            if f == 0 {
                0
            } else {
                f - 1
            }
        },
        None => {
            proof {
                match first_after(lines@, position_ms) {
                    Option::Some(j) => {
                        assert(lines@[j].timestamp_ms <= position_ms);
                        assert(false);
                    },
                    Option::None => {},
                }
            }
            n - 1
        },
    };
    r
}

/// The window of lyric lines to show: `height` lines centred on the active
/// one, shifted up near the end so the last window stays full.
pub open spec fn spec_lyric_window(active: int, total: int, height: int) -> (int, int) {
    let mid = height / 2;
    let s0 = if active > mid {
        active - mid
    } else {
        0
    };
    let e = if s0 + height < total {
        s0 + height
    } else {
        total
    };
    let s = if e == total {
        if total > height {
            total - height
        } else {
            0
        }
    } else {
        s0
    };
    (s, e)
}

/// Computes the display window for the active line.
pub fn lyric_window(active: usize, total: usize, height: usize) -> (r: (usize, usize))
    requires
        active < total,
        total + height <= usize::MAX,
    ensures
        r.0 as int == spec_lyric_window(active as int, total as int, height as int).0,
        r.1 as int == spec_lyric_window(active as int, total as int, height as int).1,
        r.0 <= r.1 <= total,
{
    let mid = height / 2;
    let s0 = if active > mid {
        active - mid
    } else {
        0
    };
    let e = if s0 + height < total {
        s0 + height
    } else {
        total
    };
    let s = if e == total {
        if total > height {
            total - height
        } else {
            0
        }
    } else {
        s0
    };
    (s, e)
}

} // verus!
