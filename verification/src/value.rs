//! A bounded history of recent percentages, rendered as a sparkline text.

use std::collections::vec_deque::VecDeque;
use vstd::prelude::*;
use vstd::string::*;
use crate::percentage::Percentage;
use crate::text::{spec_decimal, u64_to_string};

verus! {

/// A queue that never grows beyond its capacity: pushing onto a full queue
/// evicts the oldest value.
struct BoundedDeque {
    queue: VecDeque<Percentage>,
    capacity: usize,
}

impl BoundedDeque {
    spec fn wf(&self) -> bool {
        self.queue@.len() <= self.capacity
    }

    fn new(capacity: usize) -> (b: BoundedDeque)
        ensures
            b.wf(),
            b.capacity == capacity,
            b.queue@ == Seq::<Percentage>::empty(),
    {
        BoundedDeque { queue: VecDeque::with_capacity(capacity), capacity }
    }

    fn push(&mut self, value: Percentage) -> (evicted: Option<Percentage>)
        requires
            old(self).wf(),
            old(self).capacity >= 1,
        ensures
            final(self).wf(),
            final(self).capacity == old(self).capacity,
            if old(self).queue@.len() >= old(self).capacity {
                final(self).queue@ == old(self).queue@.drop_first().push(value) && evicted
                    == Some(old(self).queue@[0])
            } else {
                final(self).queue@ == old(self).queue@.push(value) && evicted
                    == Option::<Percentage>::None
            },
    {
        if self.queue.len() >= self.capacity {
            let removed = self.queue.pop_front();
            self.queue.push_back(value);
            removed
        } else {
            self.queue.push_back(value);
            None
        }
    }
}

enum HistoryType {
    Single(Percentage),
    Multiple(BoundedDeque),
}

/// The values a status module has produced lately: either only the latest
/// one (for a capacity below two) or up to a fixed number of recent ones.
pub struct History(HistoryType);

/// A value as the sparkline shows it: capped at one hundred.
pub open spec fn spec_capped(p: Percentage) -> int {
    if p.spec_as_u8() > 100 {
        100int
    } else {
        p.spec_as_u8() as int
    }
}

/// The comma-separated renderings of a sequence of values.
pub open spec fn spec_sparkline_body(entries: Seq<Percentage>) -> Seq<char>
    decreases entries.len(),
{
    if entries.len() == 0 {
        Seq::empty()
    } else if entries.len() == 1 {
        spec_decimal(spec_capped(entries[0]))
    } else {
        spec_sparkline_body(entries.drop_last()) + seq![','] + spec_decimal(
            spec_capped(entries.last()),
        )
    }
}

impl History {
    /// Whether the history keeps only the latest value.
    pub closed spec fn is_single(&self) -> bool {
        self.0 is Single
    }

    /// The retained values, oldest first.
    pub closed spec fn entries(&self) -> Seq<Percentage> {
        match self.0 {
            HistoryType::Single(v) => seq![v],
            HistoryType::Multiple(b) => b.queue@,
        }
    }

    /// How many values the history can hold.
    pub closed spec fn capacity(&self) -> int {
        match self.0 {
            HistoryType::Single(_) => 1int,
            HistoryType::Multiple(b) => b.capacity as int,
        }
    }

    /// The history never holds more than its capacity.
    pub closed spec fn wf(&self) -> bool {
        match self.0 {
            HistoryType::Single(_) => true,
            HistoryType::Multiple(b) => b.wf() && b.capacity >= 2,
        }
    }

    /// A history for the given capacity.  Below two, only the latest value
    /// is kept and the history starts at zero percent; otherwise it starts
    /// empty and will hold up to `capacity` values.
    pub fn new(capacity: usize) -> (h: History)
        ensures
            h.wf(),
            capacity <= 1 ==> h.is_single() && h.capacity() == 1 && h.entries().len() == 1
                && h.entries()[0].spec_as_u8() == 0,
            capacity >= 2 ==> !h.is_single() && h.entries() == Seq::<Percentage>::empty()
                && h.capacity() == capacity,
    {
        match capacity {
            0 | 1 => History(HistoryType::Single(Percentage::default())),
            _ => History(HistoryType::Multiple(BoundedDeque::new(capacity))),
        }
    }

    /// Records a value.  The single-value history hands back the value it
    /// replaced; the bounded one hands back the evicted oldest value once it
    /// is full, and keeps every value until then.
    pub fn push(&mut self, value: Percentage) -> (evicted: Option<Percentage>)
        requires
            old(self).wf(),
        ensures
            final(self).wf(),
            final(self).is_single() == old(self).is_single(),
            final(self).capacity() == old(self).capacity(),
            if old(self).entries().len() >= old(self).capacity() {
                final(self).entries() == old(self).entries().drop_first().push(value) && evicted
                    == Some(old(self).entries()[0])
            } else {
                final(self).entries() == old(self).entries().push(value) && evicted
                    == Option::<Percentage>::None
            },
    {
        match &mut self.0 {
            HistoryType::Single(v) => {
                let old_value = *v;
                *v = value;
                proof {
                    assert(self.entries() =~= old(self).entries().drop_first().push(value));
                }
                Some(old_value)
            },
            HistoryType::Multiple(history) => history.push(value),
        }
    }

    /// The text for the bar: a single value with its percent sign, or the
    /// recent values capped at one hundred, between braces and separated by
    /// commas.
    pub fn to_string(&self) -> (s: String)
        requires
            self.wf(),
        ensures
            self.is_single() ==> s@ == spec_decimal(self.entries()[0].spec_as_u8() as int) + "%"@,
            !self.is_single() ==> s@ == seq!['{'] + spec_sparkline_body(self.entries())
                + seq!['}'],
    {
        match &self.0 {
            HistoryType::Single(v) => v.to_string(),
            HistoryType::Multiple(history) => {
                let ghost entries = history.queue@;
                let mut s = String::new();
                proof {
                    reveal_strlit("{");
                    reveal_strlit("}");
                }
                s.append("{");
                let mut i: usize = 0;
                while i < history.queue.len()
                    invariant
                        i <= history.queue.len(),
                        entries == history.queue@,
                        s@ == seq!['{'] + spec_sparkline_body(entries.subrange(0, i as int)),
                    decreases history.queue.len() - i,
                {
                    if i > 0 {
                        proof {
                            reveal_strlit(",");
                        }
                        s.append(",");
                    }
                    let p = history.queue[i];
                    let capped = if p.as_u8() > 100 {
                        100u8
                    } else {
                        p.as_u8()
                    };
                    let rendered = u64_to_string(capped as u64);
                    s.append(rendered.as_str());
                    proof {
                        let pre = entries.subrange(0, i as int);
                        let post = entries.subrange(0, i + 1 as int);
                        assert(post.drop_last() =~= pre);
                        assert(post.last() == entries[i as int]);
                        assert(s@ =~= seq!['{'] + spec_sparkline_body(post));
                    }
                    i = i + 1;
                }
                proof {
                    assert(entries.subrange(0, entries.len() as int) =~= entries);
                }
                s.append("}");
                proof {
                    assert(s@ =~= seq!['{'] + spec_sparkline_body(entries) + seq!['}']);
                }
                s
            },
        }
    }
}

} // verus!
