//! Coalescing of raw device events into single update notifications.
//!
//! The debouncing task races each receive on the raw channel against a fresh
//! timer of one debounce window.  The state is a single `pending` flag: has a
//! raw event arrived since the last emitted update?  A window that elapses
//! with the flag set emits exactly one update and clears the flag; further raw
//! events inside a window only keep the flag set.  The race itself (channel
//! versus timer) is run by the binary; this module holds the state machine it
//! drives, the model of which inputs such a race observes for a given event
//! timeline, and the proofs that bursts coalesce the way the design promises.
//!
//! Of the two defensible coalescing policies — a fixed window from the first
//! pending event, or a window that restarts at each event — this machine uses
//! the restarting one: every wait arms a fresh timer, so the update follows
//! one quiet window after the *last* event of a burst.

use vstd::prelude::*;

verus! {

/// What one round of the race between the raw-channel receive and the window
/// timer produced.
#[derive(Clone, Copy, Debug, PartialEq, Eq, Structural)]
pub enum DebounceInput {
    /// A raw event arrived before the window timer fired.
    Received,
    /// The raw channel is closed: no producer can ever send again.
    Closed,
    /// The window timer fired before any raw event arrived.
    TimedOut,
}

/// What the debouncing task must do after one round.
#[derive(Clone, Copy, Debug, PartialEq, Eq, Structural)]
pub enum DebounceAction {
    /// Send one update notification downstream, then wait again.
    Emit,
    /// Wait for the next round without sending anything.
    Continue,
    /// Terminate cleanly.
    Stop,
}

/// One transition of the debounce state machine: the new `pending` flag and
/// how many updates the round emits (zero or one).
pub open spec fn spec_step(pending: bool, input: DebounceInput) -> (bool, int) {
    match input {
        DebounceInput::Received => (true, 0),
        DebounceInput::Closed => (pending, 0),
        DebounceInput::TimedOut => (false, if pending { 1int } else { 0int }),
    }
}

/// Runs the machine over a whole input sequence: the final `pending` flag and
/// the total number of updates emitted.
pub open spec fn spec_run(pending: bool, inputs: Seq<DebounceInput>) -> (bool, int)
    decreases inputs.len(),
{
    if inputs.len() == 0 {
        (pending, 0)
    } else {
        let prev = spec_run(pending, inputs.drop_last());
        let last = spec_step(prev.0, inputs.last());
        (last.0, prev.1 + last.1)
    }
}

/// The debounce state machine.
pub struct Debouncer {
    pending: bool,
}

impl Debouncer {
    /// Whether an unflushed raw event has been seen since the last update.
    pub closed spec fn pending(&self) -> bool {
        self.pending
    }

    /// A fresh debouncer: nothing pending.
    pub fn new() -> (d: Debouncer)
        ensures
            !d.pending(),
    {
        Debouncer { pending: false }
    }

    /// Reads the `pending` flag.
    pub fn is_pending(&self) -> (b: bool)
        ensures
            b == self.pending(),
    {
        self.pending
    }

    /// Feeds the outcome of one race round into the machine.
    ///
    /// A raw event only marks work pending; a closed channel asks the caller
    /// to stop; an elapsed window asks for exactly one update when and only
    /// when work was pending, and always clears the flag.
    pub fn step(&mut self, input: DebounceInput) -> (action: DebounceAction)
        ensures
            final(self).pending() == spec_step(old(self).pending(), input).0,
            (action == DebounceAction::Emit) == (spec_step(old(self).pending(), input).1 == 1),
            (action == DebounceAction::Stop) == (input == DebounceInput::Closed),
    {
        match input {
            DebounceInput::Received => {
                self.pending = true;
                DebounceAction::Continue
            },
            DebounceInput::Closed => DebounceAction::Stop,
            DebounceInput::TimedOut => {
                let was_pending = self.pending;
                self.pending = false;
                if was_pending {
                    DebounceAction::Emit
                } else {
                    DebounceAction::Continue
                }
            },
        }
    }
}

/// The inputs the race observes for a given timeline of raw-event arrivals.
///
/// A wait that begins at `now` races the next arrival against a fresh timer
/// of `window` ticks: an arrival strictly inside the window is received and
/// the next wait begins at its arrival time; otherwise the timer fires and
/// the next wait begins a window later.  The model follows the timeline up to
/// and including the first timer expiry after the last arrival, the point at
/// which the burst is flushed.
pub open spec fn spec_observed(now: int, arrivals: Seq<int>, window: int) -> Seq<DebounceInput>
    decreases arrivals.len(), (if arrivals.len() > 0 { arrivals[0] - now } else { 0int }),
        when window >= 1 && (arrivals.len() > 0 ==> now <= arrivals[0])
{
    if arrivals.len() == 0 {
        seq![DebounceInput::TimedOut]
    } else if arrivals[0] < now + window {
        seq![DebounceInput::Received] + spec_observed(arrivals[0], arrivals.drop_first(), window)
    } else {
        seq![DebounceInput::TimedOut] + spec_observed(now + window, arrivals, window)
    }
}

/// Arrival times in order, each of the later ones less than one window after
/// the one before it: a single burst.
pub open spec fn spec_tight(arrivals: Seq<int>, window: int) -> bool {
    forall|i: int|
        0 <= i < arrivals.len() - 1 ==> #[trigger] arrivals[i] <= arrivals[i + 1] && arrivals[i
            + 1] - arrivals[i] < window
}

/// Splitting a run: the machine over a concatenation is the machine over the
/// first part, continued over the second.
pub proof fn lemma_run_concat(pending: bool, a: Seq<DebounceInput>, b: Seq<DebounceInput>)
    ensures
        spec_run(pending, a + b) == {
            let first = spec_run(pending, a);
            let second = spec_run(first.0, b);
            (second.0, first.1 + second.1)
        },
    decreases b.len(),
{
    if b.len() == 0 {
        assert(a + b =~= a);
    } else {
        lemma_run_concat(pending, a, b.drop_last());
        assert((a + b).drop_last() =~= a + b.drop_last());
        assert((a + b).last() == b.last());
    }
}

proof fn lemma_run_one(pending: bool, input: DebounceInput)
    ensures
        spec_run(pending, seq![input]) == spec_step(pending, input),
{
    let inputs = seq![input];
    assert(inputs.drop_last() =~= Seq::<DebounceInput>::empty());
    assert(spec_run(pending, inputs.drop_last()) == (pending, 0int));
}

/// Arrival times in order.
pub open spec fn spec_sorted(arrivals: Seq<int>) -> bool {
    forall|i: int| 0 <= i < arrivals.len() - 1 ==> #[trigger] arrivals[i] <= arrivals[i + 1]
}

proof fn lemma_sorted_drop_first(arrivals: Seq<int>)
    requires
        spec_sorted(arrivals),
        arrivals.len() >= 1,
    ensures
        spec_sorted(arrivals.drop_first()),
{
    let rest = arrivals.drop_first();
    assert forall|i: int| 0 <= i < rest.len() - 1 implies #[trigger] rest[i] <= rest[i + 1] by {
        assert(arrivals[i + 1] <= arrivals[i + 2]);
    }
}

proof fn lemma_observed_len(now: int, arrivals: Seq<int>, window: int)
    requires
        window >= 1,
        spec_sorted(arrivals),
        arrivals.len() > 0 ==> now <= arrivals[0],
    ensures
        spec_observed(now, arrivals, window).len() >= 1,
    decreases arrivals.len(), (if arrivals.len() > 0 { arrivals[0] - now } else { 0int }),
{
    if arrivals.len() == 0 {
    } else if arrivals[0] < now + window {
        lemma_sorted_drop_first(arrivals);
        lemma_observed_len(arrivals[0], arrivals.drop_first(), window);
    } else {
        lemma_observed_len(now + window, arrivals, window);
    }
}

proof fn lemma_tight_burst(now: int, arrivals: Seq<int>, window: int, pending: bool)
    requires
        window >= 1,
        arrivals.len() >= 1,
        now <= arrivals[0] < now + window,
        spec_tight(arrivals, window),
    ensures
        ({
            let inputs = spec_observed(now, arrivals, window);
            spec_run(pending, inputs) == (false, 1int) && spec_run(
                pending,
                inputs.drop_last(),
            ).1 == 0 && inputs.last() == DebounceInput::TimedOut
        }),
    decreases arrivals.len(),
{
    let head = seq![DebounceInput::Received];
    let rest = arrivals.drop_first();
    let tail = spec_observed(arrivals[0], rest, window);
    let inputs = spec_observed(now, arrivals, window);
    assert(inputs == head + tail);
    lemma_run_one(pending, DebounceInput::Received);
    if rest.len() == 0 {
        assert(tail == seq![DebounceInput::TimedOut]);
        assert(inputs =~= seq![DebounceInput::Received, DebounceInput::TimedOut]);
        assert(inputs.drop_last() =~= head);
        assert(spec_run(pending, inputs) == (false, 1int));
    } else {
        assert(arrivals[1] - arrivals[0] < window && arrivals[0] <= arrivals[1]);
        assert(rest[0] == arrivals[1]);
        assert forall|i: int| 0 <= i < rest.len() - 1 implies #[trigger] rest[i] <= rest[i + 1]
            && rest[i + 1] - rest[i] < window by {
            assert(arrivals[i + 1] <= arrivals[i + 2] && arrivals[i + 2] - arrivals[i + 1]
                < window);
        }
        lemma_tight_burst(arrivals[0], rest, window, true);
        assert(spec_run(pending, head) == (true, 0int));
        lemma_run_concat(pending, head, tail);
        assert(spec_run(pending, inputs) == (false, 1int));
        assert(spec_sorted(rest));
        lemma_observed_len(arrivals[0], rest, window);
        assert(inputs.drop_last() =~= head + tail.drop_last());
        lemma_run_concat(pending, head, tail.drop_last());
        assert(spec_run(pending, inputs.drop_last()).1 == 0);
        assert(inputs.last() == tail.last());
    }
}

/// A burst collapses to one update, after the burst settles.
///
/// Any number of raw events whose inter-arrival gaps are all under one
/// debounce window make the machine emit exactly one update; it comes at the
/// very last observed input, the timer expiry one window after the final
/// event, and nothing is emitted before it.
pub proof fn lemma_burst_emits_once(now: int, arrivals: Seq<int>, window: int)
    requires
        window >= 1,
        arrivals.len() >= 1,
        now <= arrivals[0],
        spec_tight(arrivals, window),
    ensures
        ({
            let inputs = spec_observed(now, arrivals, window);
            spec_run(false, inputs) == (false, 1int) && spec_run(false, inputs.drop_last()).1 == 0
                && inputs.last() == DebounceInput::TimedOut
        }),
    decreases arrivals[0] - now,
{
    let inputs = spec_observed(now, arrivals, window);
    if arrivals[0] < now + window {
        lemma_tight_burst(now, arrivals, window, false);
    } else {
        let head = seq![DebounceInput::TimedOut];
        let tail = spec_observed(now + window, arrivals, window);
        assert(inputs == head + tail);
        lemma_burst_emits_once(now + window, arrivals, window);
        lemma_run_one(false, DebounceInput::TimedOut);
        assert(spec_run(false, head) == (false, 0int));
        lemma_run_concat(false, head, tail);
        assert(spec_sorted(arrivals));
        lemma_observed_len(now + window, arrivals, window);
        assert(inputs.drop_last() =~= head + tail.drop_last());
        lemma_run_concat(false, head, tail.drop_last());
        assert(inputs.last() == tail.last());
    }
}

/// Two raw events separated by at least one full window produce two updates:
/// each gets its own completed quiet window.
pub proof fn lemma_separated_pair_emits_twice(now: int, first: int, second: int, window: int)
    requires
        window >= 1,
        now <= first,
        first + window <= second,
    ensures
        spec_run(false, spec_observed(now, seq![first, second], window)).1 == 2,
    decreases first - now,
{
    let arrivals = seq![first, second];
    let inputs = spec_observed(now, arrivals, window);
    if first < now + window {
        let head = seq![DebounceInput::Received];
        let rest = arrivals.drop_first();
        assert(rest =~= seq![second]);
        let tail = spec_observed(first, rest, window);
        assert(inputs == head + tail);
        // from `first`, the window closes before the second event arrives
        let quiet = seq![DebounceInput::TimedOut];
        let after = spec_observed(first + window, rest, window);
        assert(tail == quiet + after);
        lemma_burst_emits_once(first + window, rest, window);
        lemma_run_one(false, DebounceInput::Received);
        assert(spec_run(false, head) == (true, 0int));
        lemma_run_concat(false, head, quiet + after);
        lemma_run_concat(true, quiet, after);
        lemma_run_one(true, DebounceInput::TimedOut);
        assert(spec_run(true, quiet) == (false, 1int));
        assert(spec_run(false, inputs).1 == 2);
    } else {
        let head = seq![DebounceInput::TimedOut];
        let tail = spec_observed(now + window, arrivals, window);
        assert(inputs == head + tail);
        lemma_separated_pair_emits_twice(now + window, first, second, window);
        lemma_run_one(false, DebounceInput::TimedOut);
        assert(spec_run(false, head) == (false, 0int));
        lemma_run_concat(false, head, tail);
    }
}

} // verus!
