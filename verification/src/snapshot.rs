//! One reading of the processor activity counters.
//!
//! The kernel's stat file carries, per processor line, a label followed by
//! counters of ticks spent in each state.  A snapshot keeps the counters of
//! one such line; usage over an interval is the difference of two snapshots.

use vstd::prelude::*;
use vstd::string::*;
use crate::text::{parse_u64, spec_lines, spec_parse_u64, spec_starts_with, spec_tokens,
    split_lines, split_whitespace_tokens, starts_with, ParseError};

verus! {

/// The sum of a sequence of counters, as an unbounded integer.
pub open spec fn spec_sum(s: Seq<u64>) -> int
    decreases s.len(),
{
    if s.len() == 0 {
        0
    } else {
        spec_sum(s.drop_last()) + s.last()
    }
}

pub proof fn lemma_sum_bounds_element(s: Seq<u64>, i: int)
    requires
        0 <= i < s.len(),
    ensures
        s[i] <= spec_sum(s),
    decreases s.len(),
{
    if i == s.len() - 1 {
        lemma_sum_nonneg(s.drop_last());
    } else {
        lemma_sum_bounds_element(s.drop_last(), i);
    }
}

pub proof fn lemma_sum_nonneg(s: Seq<u64>)
    ensures
        spec_sum(s) >= 0,
    decreases s.len(),
{
    if s.len() > 0 {
        lemma_sum_nonneg(s.drop_last());
    }
}

/// The counters of one processor line, in file order.
#[derive(Debug, PartialEq, Eq)]
pub struct Snapshot {
    states: Vec<u64>,
}

impl Snapshot {
    /// The parsed counters.
    pub closed spec fn states(&self) -> Seq<u64> {
        self.states@
    }

    /// Parses a processor line: every whitespace-separated token after the
    /// leading label, read as a decimal counter.  The first token that does
    /// not parse decides the error.
    pub fn parse(raw: &str) -> (r: Result<Snapshot, ParseError>)
        ensures
            ({
                let toks = spec_tokens(raw@);
                match r {
                    Ok(snap) => snap.states().len() == (if toks.len() == 0 {
                        0int
                    } else {
                        toks.len() - 1
                    }) && (forall|k: int|
                        0 <= k < snap.states().len() ==> spec_parse_u64(toks[k + 1]) == Result::<
                            u64,
                            ParseError,
                        >::Ok(#[trigger] snap.states()[k])),
                    Err(e) => exists|j: int|
                        1 <= j < toks.len() && spec_parse_u64(#[trigger] toks[j]) == Result::<
                            u64,
                            ParseError,
                        >::Err(e) && (forall|k: int|
                            1 <= k < j ==> (#[trigger] spec_parse_u64(toks[k])) is Ok),
                }
            }),
    {
        let tokens = split_whitespace_tokens(raw);
        let mut states: Vec<u64> = Vec::new();
        let mut k: usize = 1;
        while k < tokens.len()
            invariant
                1 <= k,
                tokens.len() > 0 ==> k <= tokens.len(),
                tokens.len() == 0 ==> k == 1,
                tokens.deep_view() == spec_tokens(raw@),
                states@.len() == (if k > tokens.len() {
                    0int
                } else {
                    k - 1
                }),
                forall|m: int|
                    0 <= m < states@.len() ==> spec_parse_u64(tokens.deep_view()[m + 1])
                        == Result::<u64, ParseError>::Ok(#[trigger] states@[m]),
            decreases tokens.len() - k,
        {
            match parse_u64(tokens[k].as_str()) {
                Ok(n) => {
                    states.push(n);
                },
                Err(e) => {
                    proof {
                        let toks = spec_tokens(raw@);
                        assert(spec_parse_u64(toks[k as int]) == Result::<u64, ParseError>::Err(
                            e,
                        ));
                        assert forall|m: int| 1 <= m < k implies (#[trigger] spec_parse_u64(
                            toks[m],
                        )) is Ok by {
                            assert(spec_parse_u64(toks[m]) == Result::<u64, ParseError>::Ok(
                                states@[m - 1],
                            ));
                        }
                    }
                    return Err(e);
                },
            }
            k = k + 1;
        }
        Ok(Snapshot { states })
    }

    /// How many counters the line carried.
    pub fn state_count(&self) -> (n: usize)
        ensures
            n == self.states().len(),
    {
        self.states.len()
    }

    /// Whether the counters can be summed without leaving the integer range.
    pub fn total_in_range(&self) -> (b: bool)
        ensures
            b == (spec_sum(self.states()) <= u64::MAX),
    {
        let mut acc: u64 = 0;
        let mut i: usize = 0;
        while i < self.states.len()
            invariant
                i <= self.states.len(),
                spec_sum(self.states@.subrange(0, i as int)) == acc,
            decreases self.states.len() - i,
        {
            proof {
                let pre = self.states@.subrange(0, i as int);
                let post = self.states@.subrange(0, i + 1 as int);
                assert(post.drop_last() =~= pre);
                assert(post.last() == self.states@[i as int]);
            }
            match acc.checked_add(self.states[i]) {
                Some(n) => {
                    acc = n;
                },
                None => {
                    proof {
                        lemma_sum_prefix_le(self.states@, i + 1 as int);
                    }
                    return false;
                },
            }
            i = i + 1;
        }
        proof {
            assert(self.states@.subrange(0, self.states@.len() as int) =~= self.states@);
        }
        true
    }

    /// The ticks spent idle: the fourth counter of the line.
    pub fn idle(&self) -> (n: u64)
        requires
            self.states().len() > 3,
        ensures
            n == self.states()[3],
    {
        self.states[3]
    }

    /// The ticks spent doing anything but idling.
    pub fn used(&self) -> (n: u64)
        requires
            self.states().len() > 3,
            spec_sum(self.states()) <= u64::MAX,
        ensures
            n == spec_sum(self.states()) - self.states()[3],
    {
        proof {
            lemma_sum_bounds_element(self.states(), 3);
        }
        self.total() - self.idle()
    }

    /// The ticks spent in any state: the sum of all counters.
    pub fn total(&self) -> (n: u64)
        requires
            spec_sum(self.states()) <= u64::MAX,
        ensures
            n == spec_sum(self.states()),
    {
        let mut acc: u64 = 0;
        let mut i: usize = 0;
        while i < self.states.len()
            invariant
                i <= self.states.len(),
                spec_sum(self.states@.subrange(0, i as int)) == acc,
                spec_sum(self.states@) <= u64::MAX,
            decreases self.states.len() - i,
        {
            proof {
                let pre = self.states@.subrange(0, i as int);
                let post = self.states@.subrange(0, i + 1 as int);
                assert(post.drop_last() =~= pre);
                assert(post.last() == self.states@[i as int]);
                lemma_sum_prefix_le(self.states@, i + 1 as int);
                lemma_sum_nonneg(self.states@.subrange(0, i + 1 as int));
            }
            acc = acc + self.states[i];
            i = i + 1;
        }
        proof {
            assert(self.states@.subrange(0, self.states@.len() as int) =~= self.states@);
        }
        acc
    }
}

/// The first of a sequence of lines to begin with the given prefix.
pub open spec fn spec_first_with_prefix(lines: Seq<Seq<char>>, p: Seq<char>) -> Option<Seq<char>>
    decreases lines.len(),
{
    if lines.len() == 0 {
        None
    } else if spec_starts_with(lines[0], p) {
        Some(lines[0])
    } else {
        spec_first_with_prefix(lines.drop_first(), p)
    }
}

/// The summary line of the processor activity file: the first line whose
/// label is the bare processor label, covering all processors.
pub fn cpu_summary_line(raw: &str) -> (r: Option<String>)
    ensures
        match spec_first_with_prefix(spec_lines(raw@), "cpu "@) {
            Some(l) => r matches Some(s) && s@ == l,
            None => r is None,
        },
{
    let lines = split_lines(raw);
    let mut k: usize = 0;
    proof {
        assert(lines.deep_view().subrange(0, lines.deep_view().len() as int) =~= lines.deep_view());
    }
    while k < lines.len()
        invariant
            k <= lines.len(),
            lines.deep_view() == spec_lines(raw@),
            spec_first_with_prefix(spec_lines(raw@), "cpu "@) == spec_first_with_prefix(
                lines.deep_view().subrange(k as int, lines.deep_view().len() as int),
                "cpu "@,
            ),
        decreases lines.len() - k,
    {
        let ghost suffix = lines.deep_view().subrange(k as int, lines.deep_view().len() as int);
        proof {
            assert(suffix[0] == lines.deep_view()[k as int]);
            assert(suffix.drop_first() =~= lines.deep_view().subrange(
                k + 1 as int,
                lines.deep_view().len() as int,
            ));
        }
        let line = &lines[k];
        if starts_with(line.as_str(), "cpu ") {
            return Some(line.clone());
        }
        k = k + 1;
    }
    proof {
        let rest = lines.deep_view().subrange(k as int, lines.deep_view().len() as int);
        assert(rest.len() == 0);
    }
    None
}

proof fn lemma_sum_prefix_le(s: Seq<u64>, i: int)
    requires
        0 <= i <= s.len(),
    ensures
        spec_sum(s.subrange(0, i)) <= spec_sum(s),
    decreases s.len() - i,
{
    if i == s.len() {
        assert(s.subrange(0, i) =~= s);
    } else {
        lemma_sum_prefix_le(s, i + 1);
        let pre = s.subrange(0, i);
        let post = s.subrange(0, i + 1);
        assert(post.drop_last() =~= pre);
        assert(post.last() == s[i]);
    }
}

} // verus!
