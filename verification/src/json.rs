//! JSON rendering for the pieces an output record is made of.
//!
//! The bar consumes one JSON object per line, so the crate renders its records
//! itself: strings with the usual JSON escapes (quote, backslash, and control
//! characters below U+0020, the common ones by their short forms), arrays of
//! strings, and decimal integers.

use vstd::prelude::*;
use vstd::string::*;
use crate::text::{spec_decimal, spec_digit, u64_to_string};

verus! {

/// The hexadecimal digit character for a value below sixteen, lower case.
pub open spec fn spec_hex_digit(d: int) -> char {
    if d < 10 {
        spec_digit(d)
    } else if d == 10 {
        'a'
    } else if d == 11 {
        'b'
    } else if d == 12 {
        'c'
    } else if d == 13 {
        'd'
    } else if d == 14 {
        'e'
    } else {
        'f'
    }
}

/// How one character appears inside a JSON string literal.
pub open spec fn spec_escape_char(c: char) -> Seq<char> {
    if c == '"' {
        seq!['\\', '"']
    } else if c == '\\' {
        seq!['\\', '\\']
    } else if c == '\u{8}' {
        seq!['\\', 'b']
    } else if c == '\t' {
        seq!['\\', 't']
    } else if c == '\n' {
        seq!['\\', 'n']
    } else if c == '\u{c}' {
        seq!['\\', 'f']
    } else if c == '\r' {
        seq!['\\', 'r']
    } else if (c as u32) < 0x20 {
        seq!['\\', 'u', '0', '0', spec_hex_digit((c as u32 as int) / 16), spec_hex_digit(
            (c as u32 as int) % 16,
        )]
    } else {
        seq![c]
    }
}

/// The body of a JSON string literal: every character escaped as needed.
pub open spec fn spec_escaped(s: Seq<char>) -> Seq<char>
    decreases s.len(),
{
    if s.len() == 0 {
        Seq::empty()
    } else {
        spec_escaped(s.drop_last()) + spec_escape_char(s.last())
    }
}

/// A JSON string literal: the escaped body between double quotes.
pub open spec fn spec_json_string(s: Seq<char>) -> Seq<char> {
    seq!['"'] + spec_escaped(s) + seq!['"']
}

/// The comma-separated elements of a JSON array of strings.
pub open spec fn spec_json_string_elems(v: Seq<Seq<char>>) -> Seq<char>
    decreases v.len(),
{
    if v.len() == 0 {
        Seq::empty()
    } else if v.len() == 1 {
        spec_json_string(v[0])
    } else {
        spec_json_string_elems(v.drop_last()) + seq![','] + spec_json_string(v.last())
    }
}

/// A JSON array of strings.
pub open spec fn spec_json_string_array(v: Seq<Seq<char>>) -> Seq<char> {
    seq!['['] + spec_json_string_elems(v) + seq![']']
}

/// A JSON integer: a minus sign for negative values, then the decimal digits.
pub open spec fn spec_json_int(i: int) -> Seq<char> {
    if i < 0 {
        seq!['-'] + spec_decimal(-i)
    } else {
        spec_decimal(i)
    }
}

fn hex_digit_str(d: u32) -> (r: &'static str)
    requires
        d < 16,
    ensures
        r@ =~= seq![spec_hex_digit(d as int)],
{
    proof {
        reveal_strlit("0");
        reveal_strlit("1");
        reveal_strlit("2");
        reveal_strlit("3");
        reveal_strlit("4");
        reveal_strlit("5");
        reveal_strlit("6");
        reveal_strlit("7");
        reveal_strlit("8");
        reveal_strlit("9");
        reveal_strlit("a");
        reveal_strlit("b");
        reveal_strlit("c");
        reveal_strlit("d");
        reveal_strlit("e");
        reveal_strlit("f");
    }
    match d {
        0 => "0",
        1 => "1",
        2 => "2",
        3 => "3",
        4 => "4",
        5 => "5",
        6 => "6",
        7 => "7",
        8 => "8",
        9 => "9",
        10 => "a",
        11 => "b",
        12 => "c",
        13 => "d",
        14 => "e",
        _ => "f",
    }
}

/// Whether a character may not stand for itself inside a JSON string literal.
pub open spec fn spec_needs_escape(c: char) -> bool {
    c == '"' || c == '\\' || (c as u32) < 0x20
}

/// Appends the escape sequence of a character that may not stand for itself.
fn append_escape_seq(out: &mut String, c: char)
    requires
        spec_needs_escape(c),
    ensures
        final(out)@ == old(out)@ + spec_escape_char(c),
{
    proof {
        reveal_strlit("\\\"");
        reveal_strlit("\\\\");
        reveal_strlit("\\b");
        reveal_strlit("\\t");
        reveal_strlit("\\n");
        reveal_strlit("\\f");
        reveal_strlit("\\r");
        reveal_strlit("\\u00");
    }
    if c == '"' {
        out.append("\\\"");
        proof {
            assert(final(out)@ =~= old(out)@ + spec_escape_char(c));
        }
    } else if c == '\\' {
        out.append("\\\\");
        proof {
            assert(final(out)@ =~= old(out)@ + spec_escape_char(c));
        }
    } else if c == '\u{8}' {
        out.append("\\b");
        proof {
            assert(final(out)@ =~= old(out)@ + spec_escape_char(c));
        }
    } else if c == '\t' {
        out.append("\\t");
        proof {
            assert(final(out)@ =~= old(out)@ + spec_escape_char(c));
        }
    } else if c == '\n' {
        out.append("\\n");
        proof {
            assert(final(out)@ =~= old(out)@ + spec_escape_char(c));
        }
    } else if c == '\u{c}' {
        out.append("\\f");
        proof {
            assert(final(out)@ =~= old(out)@ + spec_escape_char(c));
        }
    } else if c == '\r' {
        out.append("\\r");
        proof {
            assert(final(out)@ =~= old(out)@ + spec_escape_char(c));
        }
    } else {
        let v = c as u32;
        out.append("\\u00");
        out.append(hex_digit_str(v / 16));
        out.append(hex_digit_str(v % 16));
        proof {
            assert(final(out)@ =~= old(out)@ + spec_escape_char(c));
        }
    }
}

/// Appends the escaped body of a string.
fn append_escaped(out: &mut String, s: &str)
    ensures
        final(out)@ == old(out)@ + spec_escaped(s@),
{
    let ghost orig = out@;
    let len = s.unicode_len();
    let mut i: usize = 0;
    while i < len
        invariant
            i <= len,
            len == s@.len(),
            out@ == orig + spec_escaped(s@.subrange(0, i as int)),
        decreases len - i,
    {
        let c = s.get_char(i);
        if c == '"' || c == '\\' || (c as u32) < 0x20 {
            append_escape_seq(out, c);
        } else {
            let piece = s.substring_char(i, i + 1);
            out.append(piece);
            proof {
                assert(piece@ =~= seq![c]);
                assert(spec_escape_char(c) == seq![c]);
            }
        }
        proof {
            let pre = s@.subrange(0, i as int);
            let post = s@.subrange(0, i + 1 as int);
            assert(post.drop_last() =~= pre);
            assert(post.last() == c);
            assert(out@ =~= orig + spec_escaped(post));
        }
        i = i + 1;
    }
    proof {
        assert(s@.subrange(0, len as int) =~= s@);
    }
}

/// Appends a whole JSON string literal.
pub fn append_json_string(out: &mut String, s: &str)
    ensures
        final(out)@ == old(out)@ + spec_json_string(s@),
{
    proof {
        reveal_strlit("\"");
    }
    out.append("\"");
    append_escaped(out, s);
    out.append("\"");
    proof {
        assert(final(out)@ =~= old(out)@ + spec_json_string(s@));
    }
}

/// Appends a JSON array holding every string of the vector, in order.
pub fn append_json_string_array(out: &mut String, v: &Vec<String>)
    ensures
        final(out)@ == old(out)@ + spec_json_string_array(v.deep_view()),
{
    let ghost orig = out@;
    proof {
        reveal_strlit("[");
        reveal_strlit("]");
        reveal_strlit(",");
    }
    out.append("[");
    let mut i: usize = 0;
    while i < v.len()
        invariant
            i <= v.len(),
            out@ == orig + seq!['['] + spec_json_string_elems(v.deep_view().subrange(0, i as int)),
        decreases v.len() - i,
    {
        if i > 0 {
            out.append(",");
        }
        append_json_string(out, v[i].as_str());
        proof {
            reveal_strlit(",");
            let all = v.deep_view();
            let pre = all.subrange(0, i as int);
            let post = all.subrange(0, i + 1 as int);
            assert(post.drop_last() =~= pre);
            assert(post.last() == all[i as int]);
            assert(all[i as int] == v@[i as int]@);
            assert(out@ =~= orig + seq!['['] + spec_json_string_elems(post));
        }
        i = i + 1;
    }
    out.append("]");
    proof {
        assert(v.deep_view().subrange(0, v.len() as int) =~= v.deep_view());
        assert(final(out)@ =~= orig + spec_json_string_array(v.deep_view()));
    }
}

/// Appends a JSON integer.
pub fn append_json_int(out: &mut String, i: i32)
    ensures
        final(out)@ == old(out)@ + spec_json_int(i as int),
{
    proof {
        reveal_strlit("-");
    }
    let wide: i64 = i as i64;
    if wide < 0 {
        out.append("-");
        let digits = u64_to_string((-wide) as u64);
        out.append(digits.as_str());
        proof {
            assert(final(out)@ =~= old(out)@ + spec_json_int(i as int));
        }
    } else {
        let digits = u64_to_string(wide as u64);
        out.append(digits.as_str());
    }
}

} // verus!
