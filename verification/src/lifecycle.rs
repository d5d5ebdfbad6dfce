//! The life of a listener's source: a socket that is connected to and read
//! line by line, or a subprocess that is spawned and read line by line.
//!
//! The listener's loop performs the action that belongs to the current state
//! and reports what came of it as an event; the next state follows from the
//! state, the event and the listener's way of recovering. A socket is retried
//! after a fixed delay for as long as the listener runs; a subprocess that
//! cannot be spawned, or that ends, is given up.

use crate::timing::RETRY_DELAY_MS;
use vstd::prelude::*;

verus! {

/// What a listener does when its source cannot be opened or comes to an end.
#[derive(Debug, Clone, Copy, PartialEq, Eq, Structural)]
pub enum Recovery {
    /// Open the source again after the retry delay.
    Retry,
    /// Produce no further updates.
    GiveUp,
}

/// The state of a listener with respect to its source.
#[derive(Debug, Clone, Copy, PartialEq, Eq, Structural)]
pub enum ConnState {
    /// The source is not open; it is opened again once the delay is over.
    Disconnected,
    /// The source is being opened.
    Connecting,
    /// The source is open and its lines are read.
    Connected,
    /// The listener has ended.
    Stopped,
}

/// What the listener's loop reports.
#[derive(Debug, Clone, Copy, PartialEq, Eq, Structural)]
pub enum ConnEvent {
    /// The source was opened.
    Opened,
    /// The source could not be opened.
    OpenFailed,
    /// A line was read.
    Line,
    /// The source was closed or could not be read.
    Closed,
    /// The retry delay is over.
    DelayElapsed,
    /// The listener was asked to end.
    Cancelled,
}

/// What the listener's loop is to do next.
#[derive(Debug, Clone, Copy, PartialEq, Eq, Structural)]
pub enum ConnAction {
    /// Open the source.
    Open,
    /// Read the next line.
    ReadLine,
    /// Sleep for the given number of milliseconds.
    Wait(u64),
    /// End the loop.
    Stop,
}

/// The state after a failure: a pause before the next attempt, or the end.
pub open spec fn state_after_failure(recovery: Recovery) -> ConnState {
    match recovery {
        Recovery::Retry => ConnState::Disconnected,
        Recovery::GiveUp => ConnState::Stopped,
    }
}

/// The state that follows `state` on `event`. An event that cannot occur in
/// a state leaves the state as it is.
pub open spec fn next_state(recovery: Recovery, state: ConnState, event: ConnEvent) -> ConnState {
    match (state, event) {
        (ConnState::Stopped, _) => ConnState::Stopped,
        (_, ConnEvent::Cancelled) => ConnState::Stopped,
        (ConnState::Connecting, ConnEvent::Opened) => ConnState::Connected,
        (ConnState::Connecting, ConnEvent::OpenFailed) => state_after_failure(recovery),
        (ConnState::Connected, ConnEvent::Line) => ConnState::Connected,
        (ConnState::Connected, ConnEvent::Closed) => state_after_failure(recovery),
        (ConnState::Disconnected, ConnEvent::DelayElapsed) => ConnState::Connecting,
        _ => state,
    }
}

/// What the loop does in `state`.
pub open spec fn action_in(state: ConnState) -> ConnAction {
    match state {
        ConnState::Disconnected => ConnAction::Wait(RETRY_DELAY_MS),
        ConnState::Connecting => ConnAction::Open,
        ConnState::Connected => ConnAction::ReadLine,
        ConnState::Stopped => ConnAction::Stop,
    }
}

/// The state after a run of events.
pub open spec fn state_after(recovery: Recovery, state: ConnState, events: Seq<ConnEvent>)
    -> ConnState
    decreases events.len(),
{
    if events.len() == 0 {
        state
    } else {
        next_state(recovery, state_after(recovery, state, events.drop_last()), events.last())
    }
}

impl ConnState {
    /// The state in which a listener starts: it opens its source at once.
    pub fn initial() -> (s: ConnState)
        ensures
            s == ConnState::Connecting,
    {
        ConnState::Connecting
    }

    /// The state that follows on `event`.
    pub fn on_event(self, recovery: Recovery, event: ConnEvent) -> (next: ConnState)
        ensures
            next == next_state(recovery, self, event),
    {
        match (self, event) {
            (ConnState::Stopped, _) => ConnState::Stopped,
            (_, ConnEvent::Cancelled) => ConnState::Stopped,
            (ConnState::Connecting, ConnEvent::Opened) => ConnState::Connected,
            (ConnState::Connecting, ConnEvent::OpenFailed) => ConnState::after_failure(recovery),
            (ConnState::Connected, ConnEvent::Line) => ConnState::Connected,
            (ConnState::Connected, ConnEvent::Closed) => ConnState::after_failure(recovery),
            (ConnState::Disconnected, ConnEvent::DelayElapsed) => ConnState::Connecting,
            _ => self,
        }
    }

    /// What the loop is to do in this state.
    pub fn action(self) -> (a: ConnAction)
        ensures
            a == action_in(self),
    {
        match self {
            ConnState::Disconnected => ConnAction::Wait(RETRY_DELAY_MS),
            ConnState::Connecting => ConnAction::Open,
            ConnState::Connected => ConnAction::ReadLine,
            ConnState::Stopped => ConnAction::Stop,
        }
    }

    fn after_failure(recovery: Recovery) -> (next: ConnState)
        ensures
            next == state_after_failure(recovery),
    {
        match recovery {
            Recovery::Retry => ConnState::Disconnected,
            Recovery::GiveUp => ConnState::Stopped,
        }
    }
}

/// A listener that retries has no last state: unless it is asked to end, no
/// run of events stops it.
pub proof fn lemma_retry_never_stops(state: ConnState, events: Seq<ConnEvent>)
    requires
        state != ConnState::Stopped,
        forall|i: int| 0 <= i < events.len() ==> events[i] != ConnEvent::Cancelled,
    ensures
        state_after(Recovery::Retry, state, events) != ConnState::Stopped,
    decreases events.len(),
{
    if events.len() > 0 {
        let before = events.drop_last();
        assert forall|i: int| 0 <= i < before.len() implies before[i] != ConnEvent::Cancelled by {
            assert(before[i] == events[i]);
        }
        lemma_retry_never_stops(state, before);
    }
}

/// A listener that retries pauses for the retry delay after every failed
/// attempt and every closed connection, and then opens its source again.
pub proof fn lemma_retry_after_delay(state: ConnState, event: ConnEvent)
    requires
        (state == ConnState::Connecting && event == ConnEvent::OpenFailed) || (state
            == ConnState::Connected && event == ConnEvent::Closed),
    ensures
        action_in(next_state(Recovery::Retry, state, event)) == ConnAction::Wait(RETRY_DELAY_MS),
        action_in(
            next_state(
                Recovery::Retry,
                next_state(Recovery::Retry, state, event),
                ConnEvent::DelayElapsed,
            ),
        ) == ConnAction::Open,
{
}

/// A listener that gives up stays stopped, whatever is reported to it.
pub proof fn lemma_stopped_stays(recovery: Recovery, events: Seq<ConnEvent>)
    ensures
        state_after(recovery, ConnState::Stopped, events) == ConnState::Stopped,
    decreases events.len(),
{
    if events.len() > 0 {
        lemma_stopped_stays(recovery, events.drop_last());
    }
}

} // verus!
