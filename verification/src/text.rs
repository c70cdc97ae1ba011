//! Text the modules read and write: decimal rendering of integers, splitting
//! on whitespace, and parsing decimal integers.
//!
//! The system files these parsers meet are ASCII, so whitespace here means
//! the ASCII whitespace characters.

use vstd::prelude::*;
use vstd::string::*;

verus! {

/// The decimal digit character for a value below ten.
pub open spec fn spec_digit(d: int) -> char {
    if d == 0 {
        '0'
    } else if d == 1 {
        '1'
    } else if d == 2 {
        '2'
    } else if d == 3 {
        '3'
    } else if d == 4 {
        '4'
    } else if d == 5 {
        '5'
    } else if d == 6 {
        '6'
    } else if d == 7 {
        '7'
    } else if d == 8 {
        '8'
    } else {
        '9'
    }
}

/// The decimal rendering of a non-negative integer, most significant digit
/// first and without leading zeros (except for zero itself).
pub open spec fn spec_decimal(n: int) -> Seq<char>
    recommends
        n >= 0,
    decreases n,
{
    if n < 10 {
        seq![spec_digit(n)]
    } else {
        spec_decimal(n / 10).push(spec_digit(n % 10))
    }
}

pub(crate) fn digit_str(d: u64) -> (r: &'static str)
    requires
        d < 10,
    ensures
        r@ =~= seq![spec_digit(d as int)],
{
    proof {
        reveal_strlit("0");
        reveal_strlit("1");
        reveal_strlit("2");
        reveal_strlit("3");
        reveal_strlit("4");
        reveal_strlit("5");
        reveal_strlit("6");
        reveal_strlit("7");
        reveal_strlit("8");
        reveal_strlit("9");
    }
    match d {
        0 => "0",
        1 => "1",
        2 => "2",
        3 => "3",
        4 => "4",
        5 => "5",
        6 => "6",
        7 => "7",
        8 => "8",
        _ => "9",
    }
}

/// Renders a machine integer in decimal.
pub fn u64_to_string(n: u64) -> (s: String)
    ensures
        s@ == spec_decimal(n as int),
    decreases n,
{
    if n < 10 {
        String::from_str(digit_str(n))
    } else {
        let mut s = u64_to_string(n / 10);
        s.append(digit_str(n % 10));
        proof {
            assert(s@ =~= spec_decimal(n as int));
        }
        s
    }
}

/// ASCII whitespace.
pub open spec fn spec_is_space(c: char) -> bool {
    c == ' ' || c == '\t' || c == '\n' || c == '\r' || c == '\u{b}' || c == '\u{c}'
}

fn is_space(c: char) -> (b: bool)
    ensures
        b == spec_is_space(c),
{
    c == ' ' || c == '\t' || c == '\n' || c == '\r' || c == '\u{b}' || c == '\u{c}'
}

/// An ASCII decimal digit.
pub open spec fn spec_is_digit(c: char) -> bool {
    48 <= (c as u32) <= 57
}

/// The value of an ASCII decimal digit.
pub open spec fn spec_digit_value(c: char) -> int {
    (c as u32) - 48
}

/// Where the run of non-whitespace starting at `i` ends.
pub open spec fn spec_token_end(s: Seq<char>, i: int) -> int
    decreases s.len() - i,
    when 0 <= i <= s.len()
{
    if i >= s.len() || spec_is_space(s[i]) {
        i
    } else {
        spec_token_end(s, i + 1)
    }
}

pub proof fn lemma_token_end_bounds(s: Seq<char>, i: int)
    requires
        0 <= i <= s.len(),
    ensures
        i <= spec_token_end(s, i) <= s.len(),
    decreases s.len() - i,
{
    if i >= s.len() || spec_is_space(s[i]) {
    } else {
        lemma_token_end_bounds(s, i + 1);
    }
}

/// The maximal runs of non-whitespace at or after `i`, in order.
pub open spec fn spec_tokens_from(s: Seq<char>, i: int) -> Seq<Seq<char>>
    decreases s.len() - i,
    when 0 <= i <= s.len()
    via spec_tokens_from_decreases
{
    if i >= s.len() {
        Seq::empty()
    } else if spec_is_space(s[i]) {
        spec_tokens_from(s, i + 1)
    } else {
        seq![s.subrange(i, spec_token_end(s, i))] + spec_tokens_from(s, spec_token_end(s, i))
    }
}

#[via_fn]
proof fn spec_tokens_from_decreases(s: Seq<char>, i: int) {
    if 0 <= i < s.len() && !spec_is_space(s[i]) {
        lemma_token_end_bounds(s, i + 1);
    }
}

/// The whitespace-separated tokens of a string.
pub open spec fn spec_tokens(s: Seq<char>) -> Seq<Seq<char>> {
    spec_tokens_from(s, 0)
}

/// Splits a string into its whitespace-separated tokens.
pub fn split_whitespace_tokens(s: &str) -> (v: Vec<String>)
    ensures
        v.deep_view() == spec_tokens(s@),
{
    let len = s.unicode_len();
    let mut v: Vec<String> = Vec::new();
    let mut i: usize = 0;
    while i < len
        invariant
            i <= len,
            len == s@.len(),
            spec_tokens(s@) == v.deep_view() + spec_tokens_from(s@, i as int),
        decreases len - i,
    {
        let c = s.get_char(i);
        if is_space(c) {
            i = i + 1;
        } else {
            let mut j = i + 1;
            proof {
                assert(spec_token_end(s@, i as int) == spec_token_end(s@, i + 1 as int));
            }
            while j < len && !is_space(s.get_char(j))
                invariant
                    i < j <= len,
                    len == s@.len(),
                    spec_token_end(s@, i as int) == spec_token_end(s@, j as int),
                decreases len - j,
            {
                proof {
                    assert(spec_token_end(s@, j as int) == spec_token_end(s@, j + 1 as int));
                }
                j = j + 1;
            }
            proof {
                assert(spec_token_end(s@, j as int) == j);
                assert(spec_token_end(s@, i as int) == j);
            }
            let token = s.substring_char(i, j).to_owned();
            v.push(token);
            proof {
                let ghost_tail = spec_tokens_from(s@, i as int);
                assert(ghost_tail == seq![s@.subrange(i as int, j as int)] + spec_tokens_from(
                    s@,
                    j as int,
                ));
                assert(v.deep_view() =~= v.deep_view().subrange(
                    0,
                    v.deep_view().len() - 1,
                ).push(token@));
                assert(spec_tokens(s@) =~= v.deep_view() + spec_tokens_from(s@, j as int));
            }
            i = j;
        }
    }
    proof {
        assert(spec_tokens_from(s@, len as int) == Seq::<Seq<char>>::empty());
        assert(spec_tokens(s@) =~= v.deep_view());
    }
    v
}

/// A character that trimming removes: the Unicode white-space characters.
pub open spec fn spec_is_unicode_space(c: char) -> bool {
    let v = c as u32;
    (9 <= v && v <= 13) || v == 32 || v == 0x85 || v == 0xA0 || v == 0x1680 || (0x2000 <= v && v
        <= 0x200A) || v == 0x2028 || v == 0x2029 || v == 0x202F || v == 0x205F || v == 0x3000
}

fn is_unicode_space(c: char) -> (b: bool)
    ensures
        b == spec_is_unicode_space(c),
{
    let v = c as u32;
    (9 <= v && v <= 13) || v == 32 || v == 0x85 || v == 0xA0 || v == 0x1680 || (0x2000 <= v && v
        <= 0x200A) || v == 0x2028 || v == 0x2029 || v == 0x202F || v == 0x205F || v == 0x3000
}

/// The characters with leading white space removed.
pub open spec fn spec_trim_start(s: Seq<char>) -> Seq<char>
    decreases s.len(),
{
    if s.len() > 0 && spec_is_unicode_space(s[0]) {
        spec_trim_start(s.drop_first())
    } else {
        s
    }
}

/// The characters with trailing white space removed.
pub open spec fn spec_trim_end(s: Seq<char>) -> Seq<char>
    decreases s.len(),
{
    if s.len() > 0 && spec_is_unicode_space(s.last()) {
        spec_trim_end(s.drop_last())
    } else {
        s
    }
}

/// The characters with white space removed at both ends.
pub open spec fn spec_trimmed(s: Seq<char>) -> Seq<char> {
    spec_trim_end(spec_trim_start(s))
}

/// Removes the white space surrounding a string.
pub fn trim<'a>(s: &'a str) -> (t: &'a str)
    ensures
        t@ == spec_trimmed(s@),
{
    let len = s.unicode_len();
    let mut start: usize = 0;
    proof {
        assert(s@.subrange(0, len as int) =~= s@);
    }
    while start < len && is_unicode_space(s.get_char(start))
        invariant
            start <= len,
            len == s@.len(),
            spec_trim_start(s@) == spec_trim_start(s@.subrange(start as int, len as int)),
        decreases len - start,
    {
        proof {
            let cur = s@.subrange(start as int, len as int);
            assert(cur.drop_first() =~= s@.subrange(start + 1 as int, len as int));
        }
        start = start + 1;
    }
    proof {
        assert(spec_trim_start(s@) == s@.subrange(start as int, len as int));
    }
    let mut end: usize = len;
    while end > start && is_unicode_space(s.get_char(end - 1))
        invariant
            start <= end <= len,
            len == s@.len(),
            spec_trim_end(s@.subrange(start as int, len as int)) == spec_trim_end(
                s@.subrange(start as int, end as int),
            ),
        decreases end,
    {
        proof {
            let cur = s@.subrange(start as int, end as int);
            assert(cur.drop_last() =~= s@.subrange(start as int, end - 1 as int));
        }
        end = end - 1;
    }
    let t = s.substring_char(start, end);
    proof {
        assert(t@ == spec_trimmed(s@));
    }
    t
}

/// Where the line starting at `i` ends: the next newline, or the end.
pub open spec fn spec_line_end(s: Seq<char>, i: int) -> int
    decreases s.len() - i,
    when 0 <= i <= s.len()
{
    if i >= s.len() || s[i] == '\n' {
        i
    } else {
        spec_line_end(s, i + 1)
    }
}

pub proof fn lemma_line_end_bounds(s: Seq<char>, i: int)
    requires
        0 <= i <= s.len(),
    ensures
        i <= spec_line_end(s, i) <= s.len(),
    decreases s.len() - i,
{
    if i >= s.len() || s[i] == '\n' {
    } else {
        lemma_line_end_bounds(s, i + 1);
    }
}

/// The lines at or after `i`: what stands between the newlines, the
/// separators themselves dropped, empty lines kept.
pub open spec fn spec_lines_from(s: Seq<char>, i: int) -> Seq<Seq<char>>
    decreases s.len() - i,
    when 0 <= i <= s.len()
    via spec_lines_from_decreases
{
    let e = spec_line_end(s, i);
    seq![s.subrange(i, e)] + (if e < s.len() {
        spec_lines_from(s, e + 1)
    } else {
        Seq::empty()
    })
}

#[via_fn]
proof fn spec_lines_from_decreases(s: Seq<char>, i: int) {
    lemma_line_end_bounds(s, i);
}

/// The lines of a string.
pub open spec fn spec_lines(s: Seq<char>) -> Seq<Seq<char>> {
    spec_lines_from(s, 0)
}

/// Whether `s` begins with `p`.
pub open spec fn spec_starts_with(s: Seq<char>, p: Seq<char>) -> bool {
    s.len() >= p.len() && s.subrange(0, p.len() as int) == p
}

/// Splits a string into its lines.
pub fn split_lines(s: &str) -> (v: Vec<String>)
    ensures
        v.deep_view() == spec_lines(s@),
{
    let len = s.unicode_len();
    let mut v: Vec<String> = Vec::new();
    let mut i: usize = 0;
    loop
        invariant_except_break
            i <= len,
            len == s@.len(),
            spec_lines(s@) == v.deep_view() + spec_lines_from(s@, i as int),
        ensures
            v.deep_view() == spec_lines(s@),
        decreases len - i,
    {
        let mut j = i;
        while j < len && s.get_char(j) != '\n'
            invariant
                i <= j <= len,
                len == s@.len(),
                spec_line_end(s@, i as int) == spec_line_end(s@, j as int),
            decreases len - j,
        {
            proof {
                assert(spec_line_end(s@, j as int) == spec_line_end(s@, j + 1 as int));
            }
            j = j + 1;
        }
        proof {
            assert(spec_line_end(s@, j as int) == j);
            assert(spec_line_end(s@, i as int) == j);
        }
        let line = s.substring_char(i, j).to_owned();
        v.push(line);
        proof {
            assert(v.deep_view() =~= v.deep_view().subrange(0, v.deep_view().len() - 1).push(
                line@,
            ));
        }
        if j >= len {
            proof {
                assert(spec_lines_from(s@, i as int) =~= seq![s@.subrange(i as int, j as int)]);
                assert(spec_lines(s@) =~= v.deep_view());
            }
            break ;
        }
        proof {
            assert(spec_lines_from(s@, i as int) == seq![s@.subrange(i as int, j as int)]
                + spec_lines_from(s@, j + 1 as int));
            assert(spec_lines(s@) =~= v.deep_view() + spec_lines_from(s@, j + 1 as int));
        }
        i = j + 1;
    }
    v
}

/// Whether one string begins with another.
pub fn starts_with(s: &str, p: &str) -> (b: bool)
    ensures
        b == spec_starts_with(s@, p@),
{
    let slen = s.unicode_len();
    let plen = p.unicode_len();
    if slen < plen {
        return false;
    }
    let mut i: usize = 0;
    while i < plen
        invariant
            i <= plen,
            plen <= slen,
            slen == s@.len(),
            plen == p@.len(),
            forall|m: int| 0 <= m < i ==> s@[m] == p@[m],
        decreases plen - i,
    {
        if s.get_char(i) != p.get_char(i) {
            proof {
                assert(s@.subrange(0, plen as int)[i as int] != p@[i as int]);
            }
            return false;
        }
        i = i + 1;
    }
    proof {
        assert(s@.subrange(0, plen as int) =~= p@);
    }
    true
}

/// How parsing a decimal integer fails.
#[derive(Clone, Copy, Debug, PartialEq, Eq, Structural)]
pub enum ParseError {
    /// Nothing to parse: the input was empty (or a bare sign).
    Empty,
    /// A character that is not an ASCII decimal digit.
    InvalidDigit,
    /// The digits name a value beyond the integer's range.
    Overflow,
}

/// Scans digits left to right, accumulating onto `acc`: the first failure
/// (a non-digit, or an accumulation that leaves the range) decides.
pub open spec fn spec_parse_digits(s: Seq<char>, acc: u64) -> Result<u64, ParseError>
    decreases s.len(),
{
    if s.len() == 0 {
        Ok(acc)
    } else if !spec_is_digit(s[0]) {
        Err(ParseError::InvalidDigit)
    } else if (acc as int) * 10 + spec_digit_value(s[0]) > u64::MAX {
        Err(ParseError::Overflow)
    } else {
        spec_parse_digits(s.drop_first(), (acc * 10 + spec_digit_value(s[0])) as u64)
    }
}

/// What parsing a whole string as a decimal integer yields: an optional
/// leading plus sign, then at least one digit.
pub open spec fn spec_parse_u64(s: Seq<char>) -> Result<u64, ParseError> {
    let body = if s.len() > 0 && s[0] == '+' {
        s.drop_first()
    } else {
        s
    };
    if body.len() == 0 {
        Err(ParseError::Empty)
    } else {
        spec_parse_digits(body, 0)
    }
}

/// Parses a decimal integer, as the scanning specification says.
pub fn parse_u64(s: &str) -> (r: Result<u64, ParseError>)
    ensures
        r == spec_parse_u64(s@),
{
    let len = s.unicode_len();
    let mut i: usize = 0;
    if len > 0 && s.get_char(0) == '+' {
        i = 1;
    }
    let ghost body = if s@.len() > 0 && s@[0] == '+' {
        s@.drop_first()
    } else {
        s@
    };
    if i >= len {
        return Err(ParseError::Empty);
    }
    let mut acc: u64 = 0;
    let ghost start = i as int;
    proof {
        assert(body =~= s@.subrange(start, len as int));
    }
    while i < len
        invariant
            start <= i <= len,
            len == s@.len(),
            0 < len,
            start == (if s@[0] == '+' {
                1int
            } else {
                0int
            }),
            body == (if s@.len() > 0 && s@[0] == '+' {
                s@.drop_first()
            } else {
                s@
            }),
            body.len() > 0,
            spec_parse_digits(body, 0) == spec_parse_digits(
                s@.subrange(i as int, len as int),
                acc,
            ),
        decreases len - i,
    {
        let c = s.get_char(i);
        let ghost rest = s@.subrange(i as int, len as int);
        proof {
            assert(rest[0] == c);
            assert(rest.drop_first() =~= s@.subrange(i + 1 as int, len as int));
        }
        let v = c as u32;
        if !(48 <= v && v <= 57) {
            proof {
                assert(!spec_is_digit(c));
            }
            return Err(ParseError::InvalidDigit);
        }
        let d: u64 = (v - 48) as u64;
        let next = match acc.checked_mul(10) {
            Some(m) => m.checked_add(d),
            None => None,
        };
        match next {
            Some(n) => {
                acc = n;
            },
            None => {
                return Err(ParseError::Overflow);
            },
        }
        i = i + 1;
    }
    proof {
        assert(s@.subrange(len as int, len as int) =~= Seq::<char>::empty());
    }
    Ok(acc)
}

} // verus!
