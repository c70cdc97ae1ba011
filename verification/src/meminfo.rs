//! Reading the memory totals out of the kernel's memory-information file.
//!
//! The file carries one field per line, a label with a colon followed by a
//! value.  The module scans for the total and available amounts, stopping as
//! soon as both have been seen.

use vstd::prelude::*;
use vstd::string::*;
use crate::text::{parse_u64, spec_lines, spec_parse_u64, spec_starts_with, spec_tokens,
    split_lines, split_whitespace_tokens, starts_with, ParseError};

verus! {

/// The two amounts the memory module shows, in the file's unit.
#[derive(Debug, Clone, Copy, PartialEq, Eq, Structural)]
pub struct MemInfo {
    pub available: u64,
    pub total: u64,
}

/// How reading the memory information fails.
#[derive(Debug, Clone, Copy, PartialEq, Eq, Structural)]
pub enum Error {
    /// The file ended before both fields were seen.
    MissingField,
    /// A matching line carried no value token.
    MissingValue,
    /// A value token was not a decimal integer.
    InvalidValue(ParseError),
}

/// The value of a field line: its second whitespace-separated token, read as
/// a decimal integer.
pub open spec fn spec_field_value(line: Seq<char>) -> Result<u64, Error> {
    let toks = spec_tokens(line);
    if toks.len() < 2 {
        Err(Error::MissingValue)
    } else {
        match spec_parse_u64(toks[1]) {
            Ok(v) => Ok(v),
            Err(e) => Err(Error::InvalidValue(e)),
        }
    }
}

/// Scans lines in order, picking up the total and available fields, until
/// both are present or the lines run out.
pub open spec fn spec_scan(
    lines: Seq<Seq<char>>,
    available: Option<u64>,
    total: Option<u64>,
) -> Result<(Option<u64>, Option<u64>), Error>
    decreases lines.len(),
{
    if available is Some && total is Some {
        Ok((available, total))
    } else if lines.len() == 0 {
        Ok((available, total))
    } else if spec_starts_with(lines[0], "MemTotal:"@) {
        match spec_field_value(lines[0]) {
            Ok(v) => spec_scan(lines.drop_first(), available, Some(v)),
            Err(e) => Err(e),
        }
    } else if spec_starts_with(lines[0], "MemAvailable:"@) {
        match spec_field_value(lines[0]) {
            Ok(v) => spec_scan(lines.drop_first(), Some(v), total),
            Err(e) => Err(e),
        }
    } else {
        spec_scan(lines.drop_first(), available, total)
    }
}

/// What reading the whole file yields.
pub open spec fn spec_meminfo(raw: Seq<char>) -> Result<MemInfo, Error> {
    match spec_scan(spec_lines(raw), None, None) {
        Ok((Some(available), Some(total))) => Ok(MemInfo { available, total }),
        Ok(_) => Err(Error::MissingField),
        Err(e) => Err(e),
    }
}

fn field_value(line: &str) -> (r: Result<u64, Error>)
    ensures
        r == spec_field_value(line@),
{
    let toks = split_whitespace_tokens(line);
    if toks.len() < 2 {
        return Err(Error::MissingValue);
    }
    match parse_u64(toks[1].as_str()) {
        Ok(v) => Ok(v),
        Err(e) => Err(Error::InvalidValue(e)),
    }
}

/// Reads the two amounts from the file's text.
pub fn parse_meminfo(raw: &str) -> (r: Result<MemInfo, Error>)
    ensures
        r == spec_meminfo(raw@),
{
    let lines = split_lines(raw);
    let mut available: Option<u64> = None;
    let mut total: Option<u64> = None;
    let mut k: usize = 0;
    proof {
        assert(lines.deep_view().subrange(0, lines.deep_view().len() as int) =~= lines.deep_view());
    }
    while k < lines.len() && !(available.is_some() && total.is_some())
        invariant
            k <= lines.len(),
            lines.deep_view() == spec_lines(raw@),
            spec_scan(spec_lines(raw@), None, None) == spec_scan(
                lines.deep_view().subrange(k as int, lines.deep_view().len() as int),
                available,
                total,
            ),
        decreases lines.len() - k,
    {
        let ghost suffix = lines.deep_view().subrange(k as int, lines.deep_view().len() as int);
        proof {
            assert(suffix[0] == lines.deep_view()[k as int]);
            assert(suffix.drop_first() =~= lines.deep_view().subrange(
                k + 1 as int,
                lines.deep_view().len() as int,
            ));
        }
        let line = &lines[k];
        if starts_with(line.as_str(), "MemTotal:") {
            match field_value(line.as_str()) {
                Ok(v) => {
                    total = Some(v);
                },
                Err(e) => {
                    return Err(e);
                },
            }
        } else if starts_with(line.as_str(), "MemAvailable:") {
            match field_value(line.as_str()) {
                Ok(v) => {
                    available = Some(v);
                },
                Err(e) => {
                    return Err(e);
                },
            }
        }
        k = k + 1;
    }
    proof {
        let rest = lines.deep_view().subrange(k as int, lines.deep_view().len() as int);
        if available is Some && total is Some {
            assert(spec_scan(rest, available, total) == Ok::<(Option<u64>, Option<u64>), Error>(
                (available, total),
            ));
        } else {
            assert(rest.len() == 0);
        }
    }
    match (available, total) {
        (Some(a), Some(t)) => Ok(MemInfo { available: a, total: t }),
        _ => Err(Error::MissingField),
    }
}

} // verus!
