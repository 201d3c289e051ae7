//! The debounce state machine of the filesystem watcher: a burst of
//! change events is coalesced into a single rebuild signal. An event
//! moves the machine to pending and sets a deadline one window ahead;
//! a later event extends the deadline; a poll at or past the deadline
//! fires and returns the machine to idle. Time is injected by the
//! caller, so the machine can be driven by a test clock.

use vstd::prelude::*;

verus! {

/// The debouncer's state: idle, or waiting for the window to elapse.
#[derive(Clone, Copy, Debug, PartialEq, Eq, Structural)]
pub enum DebounceState {
    Idle,
    Pending { deadline: u64 },
}

/// What an event at time `now` does: starts or extends the pending
/// window, whose deadline is one window after the event.
pub open spec fn event_step(window: u64, now: u64) -> DebounceState {
    DebounceState::Pending { deadline: (now + window) as u64 }
}

/// What a poll at time `now` does: fires exactly when the machine is
/// pending and the deadline has been reached.
pub open spec fn poll_step(s: DebounceState, now: u64) -> (DebounceState, bool) {
    match s {
        DebounceState::Idle => (DebounceState::Idle, false),
        DebounceState::Pending { deadline } => if now >= deadline {
            (DebounceState::Idle, true)
        } else {
            (s, false)
        },
    }
}

/// The state after a sequence of events.
pub open spec fn run_events(s: DebounceState, window: u64, events: Seq<u64>) -> DebounceState
    decreases events.len(),
{
    if events.len() == 0 {
        s
    } else {
        run_events(event_step(window, events[0]), window, events.skip(1))
    }
}

/// After at least one event, only the last event matters: the machine is
/// pending with a deadline one window after it.
pub proof fn lemma_run_events(s: DebounceState, window: u64, events: Seq<u64>)
    requires
        events.len() > 0,
    ensures
        run_events(s, window, events) == event_step(window, events.last()),
    decreases events.len(),
{
    if events.len() == 1 {
        assert(events.skip(1).len() == 0);
    } else {
        lemma_run_events(event_step(window, events[0]), window, events.skip(1));
        assert(events.skip(1).last() == events.last());
    }
}

/// Debounce coalescing: any burst of events followed by one poll at or
/// past the last event's deadline produces exactly one signal, and
/// returns the machine to idle — so a later poll without further events
/// produces none.
pub proof fn lemma_debounce_coalesce(window: u64, events: Seq<u64>, t: u64)
    requires
        events.len() > 0,
        events.last() + window <= u64::MAX,
        t >= events.last() + window,
    ensures
        poll_step(run_events(DebounceState::Idle, window, events), t) == (
            DebounceState::Idle,
            true,
        ),
        poll_step(poll_step(run_events(DebounceState::Idle, window, events), t).0, t).1 == false,
{
    lemma_run_events(DebounceState::Idle, window, events);
}

/// A poll strictly before the deadline never fires and leaves the window
/// pending: an event arriving while pending extends the window rather
/// than firing.
pub proof fn lemma_debounce_pending(window: u64, events: Seq<u64>, t: u64)
    requires
        events.len() > 0,
        events.last() + window <= u64::MAX,
        t < events.last() + window,
    ensures
        poll_step(run_events(DebounceState::Idle, window, events), t) == (
            run_events(DebounceState::Idle, window, events),
            false,
        ),
{
    lemma_run_events(DebounceState::Idle, window, events);
}

/// Two events separated by more than the window, each followed by a poll
/// at its own deadline, produce two signals.
pub proof fn lemma_debounce_two_bursts(window: u64, e1: u64, e2: u64, t1: u64, t2: u64)
    requires
        e1 + window <= u64::MAX,
        e2 + window <= u64::MAX,
        e1 + window <= t1,
        t1 <= e2,
        e2 + window <= t2,
    ensures
        ({
            let (s1, fired1) = poll_step(event_step(window, e1), t1);
            let (s2, fired2) = poll_step(run_events(s1, window, seq![e2]), t2);
            fired1 && fired2
        }),
{
    lemma_run_events(DebounceState::Idle, window, seq![e2]);
    assert(seq![e2].last() == e2);
}

/// The debouncer: an explicit state machine driven by an injected clock.
#[derive(Clone, Copy, Debug)]
pub struct Debouncer {
    window: u64,
    state: DebounceState,
}

impl Debouncer {
    /// The debounce window, in the caller's time units.
    pub closed spec fn spec_window(self) -> u64 {
        self.window
    }

    /// The current state.
    pub closed spec fn spec_state(self) -> DebounceState {
        self.state
    }

    /// A new, idle debouncer with the given window.
    pub fn new(window: u64) -> (r: Debouncer)
        ensures
            r.spec_window() == window,
            r.spec_state() == DebounceState::Idle,
    {
        Debouncer { window, state: DebounceState::Idle }
    }

    /// Notes a change event at time `now`: the machine becomes pending
    /// with a deadline one window ahead, extending any earlier window.
    pub fn note_event(&mut self, now: u64)
        requires
            now + old(self).spec_window() <= u64::MAX,
        ensures
            final(self).spec_window() == old(self).spec_window(),
            final(self).spec_state() == event_step(old(self).spec_window(), now),
    {
        self.state = DebounceState::Pending { deadline: now + self.window };
    }

    /// Polls at time `now`: returns whether a rebuild signal fires, as
    /// `poll_step` describes.
    pub fn poll(&mut self, now: u64) -> (fired: bool)
        ensures
            final(self).spec_window() == old(self).spec_window(),
            (final(self).spec_state(), fired) == poll_step(old(self).spec_state(), now),
    {
        match self.state {
            DebounceState::Idle => false,
            DebounceState::Pending { deadline } => {
                if now >= deadline {
                    self.state = DebounceState::Idle;
                    true
                } else {
                    false
                }
            },
        }
    }
}

} // verus!
