//! The composed device-presence pipeline, and the errors that stop it.
//!
//! Raw kernel events flow through the debouncer into an update channel; an
//! interrupt signal feeds the same channel directly; the consumer takes one
//! update at a time, has the presence re-checked, and formats the result.
//! The channels, timers and threads live in the binary; this module is the
//! state the binary drives and the decisions it must follow, with counters
//! for the updates produced and the checks performed so that the promised
//! counts are part of the contracts.

use vstd::prelude::*;
use crate::debounce::{spec_step, DebounceAction, DebounceInput, Debouncer};
use crate::formatter::Formatter;
use crate::output::Output;

verus! {

/// Why the pipeline stops.  Every error is fatal: nothing is retried.
#[derive(Clone, Copy, Debug, PartialEq, Eq, Structural)]
pub enum Error {
    /// The kernel notification channel could not be opened or waited on.
    OsResource,
    /// The device enumeration could not be constructed or scanned.
    DeviceQuery,
    /// A send found no receiver left.
    ChannelClosed,
}

/// One producer-side event of the update channel: a round of the debouncer's
/// race, or a delivery of the force-refresh signal.
pub enum ProducerEvent {
    Debounce(DebounceInput),
    Signal,
}

/// Runs the two producers over a whole event timeline: the debouncer's final
/// `pending` flag and how many updates entered the update channel.
pub open spec fn spec_producers_run(pending: bool, events: Seq<ProducerEvent>) -> (bool, int)
    decreases events.len(),
{
    if events.len() == 0 {
        (pending, 0)
    } else {
        let prev = spec_producers_run(pending, events.drop_last());
        match events.last() {
            ProducerEvent::Debounce(input) => {
                let s = spec_step(prev.0, input);
                (s.0, prev.1 + s.1)
            },
            ProducerEvent::Signal => (prev.0, prev.1 + 1),
        }
    }
}

/// A signal delivery always produces exactly one update, regardless of any
/// in-flight debounce state, and neither resets nor cancels a pending
/// window: inserting a delivery anywhere in a producer timeline adds exactly
/// one update and leaves the debouncer's course — including the updates its
/// own windows emit on their own schedule — unchanged.
pub proof fn lemma_signal_adds_one_update(pending: bool, events: Seq<ProducerEvent>, k: int)
    requires
        0 <= k <= events.len(),
    ensures
        ({
            let with = spec_producers_run(pending, events.insert(k, ProducerEvent::Signal));
            let without = spec_producers_run(pending, events);
            with.0 == without.0 && with.1 == without.1 + 1
        }),
    decreases events.len(),
{
    let with_signal = events.insert(k, ProducerEvent::Signal);
    if k == events.len() {
        assert(with_signal.drop_last() =~= events);
        assert(with_signal.last() == ProducerEvent::Signal);
    } else {
        assert(with_signal.drop_last() =~= events.drop_last().insert(k, ProducerEvent::Signal));
        assert(with_signal.last() == events.last());
        lemma_signal_adds_one_update(pending, events.drop_last(), k);
    }
}

/// The pipeline state: the debouncer, how many updates have been sent into
/// the update channel, and how many presence checks have been performed.
pub struct Pipeline {
    debouncer: Debouncer,
    updates: u64,
    checks: u64,
}

impl Pipeline {
    /// Updates sent into the update channel so far, by any producer.
    pub closed spec fn updates(&self) -> u64 {
        self.updates
    }

    /// Presence checks performed by the consumer so far.
    pub closed spec fn checks(&self) -> u64 {
        self.checks
    }

    /// Whether the debouncer holds an unflushed raw event.
    pub closed spec fn pending(&self) -> bool {
        self.debouncer.pending()
    }

    /// Reads how many updates have been sent so far.
    pub fn updates_sent(&self) -> (n: u64)
        ensures
            n == self.updates(),
    {
        self.updates
    }

    /// Reads how many checks have been performed so far.
    pub fn checks_done(&self) -> (n: u64)
        ensures
            n == self.checks(),
    {
        self.checks
    }

    /// Reads whether the debouncer holds an unflushed raw event.
    pub fn is_pending(&self) -> (b: bool)
        ensures
            b == self.pending(),
    {
        self.debouncer.is_pending()
    }

    /// The state right after startup: one update is injected synthetically
    /// before any external event, so the first check happens without waiting;
    /// nothing is pending and nothing has been checked yet.
    pub fn startup() -> (p: Pipeline)
        ensures
            p.updates() == 1,
            p.checks() == 0,
            !p.pending(),
    {
        Pipeline { debouncer: Debouncer::new(), updates: 1, checks: 0 }
    }

    /// One round of the debouncer race: the input is fed to the state
    /// machine, and an emitted update is counted against the update channel.
    pub fn on_debounce_round(&mut self, input: DebounceInput) -> (action: DebounceAction)
        requires
            old(self).updates() < u64::MAX,
        ensures
            ({
                let s = spec_step(old(self).pending(), input);
                final(self).pending() == s.0 && final(self).updates() == old(self).updates() + s.1
                    && final(self).checks() == old(self).checks() && (action
                    == DebounceAction::Stop) == (input == DebounceInput::Closed)
            }),
    {
        let action = self.debouncer.step(input);
        if let DebounceAction::Emit = action {
            self.updates = self.updates + 1;
        }
        action
    }

    /// A signal delivery: exactly one update goes into the update channel,
    /// whatever the debouncer is doing, and an in-flight debounce window is
    /// neither reset nor cancelled.  The counter bound is the machine's; the
    /// law itself, free of any bound, is [`lemma_signal_adds_one_update`].
    pub fn on_signal(&mut self)
        requires
            old(self).updates() < u64::MAX,
        ensures
            final(self).updates() == old(self).updates() + 1,
            final(self).pending() == old(self).pending(),
            final(self).checks() == old(self).checks(),
    {
        self.updates = self.updates + 1;
    }

    /// The consumer loop body for one received update: the presence result of
    /// the freshly run check comes in, the check is counted, and the display
    /// record goes out.  A failed check is fatal and is handed back unchanged.
    pub fn on_update(&mut self, formatter: &Formatter, presence: Result<bool, Error>) -> (r: Result<
        Output,
        Error,
    >)
        requires
            old(self).checks() < u64::MAX,
        ensures
            final(self).checks() == old(self).checks() + 1,
            final(self).updates() == old(self).updates(),
            final(self).pending() == old(self).pending(),
            match presence {
                Ok(found) => r is Ok && ({
                    let o = r->Ok_0;
                    if found {
                        o.text@ == formatter.found@ && o.tooltip@ == "Camera connected"@
                            && o.class.deep_view() == seq!["found"@] && o.percentage == 100
                    } else {
                        o.text@ == formatter.not_found@ && o.tooltip@ == "Camera not connected"@
                            && o.class.deep_view() == seq!["not-found"@] && o.percentage == 0
                    }
                }),
                Err(e) => r == Result::<Output, Error>::Err(e),
            },
    {
        self.checks = self.checks + 1;
        match presence {
            Ok(found) => Ok(formatter.format(found)),
            Err(e) => Err(e),
        }
    }
}

} // verus!
