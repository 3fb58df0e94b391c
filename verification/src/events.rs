//! Display-object events, propagated in capturing, target, and bubbling
//! stages.  An event here is a plain value: its targets are stable object
//! identifiers, and its propagation state is an ordinary field, so every
//! transition is stated in the methods' contracts.

use vstd::prelude::*;

verus! {

/// Propagation state of an event: still propagating, propagating and not
/// cancellable, or cancelled.
#[derive(Clone, Copy, Debug, PartialEq, Eq, Structural)]
pub enum State {
    Running,
    RunningNonCancellable,
    Cancelled,
}

/// The parts of an [`Event`]: its payload, the object it was dispatched onto,
/// the object whose handler is currently running, and the propagation state.
#[derive(Debug)]
pub struct EventData<T> {
    pub payload: T,
    pub target: Option<u64>,
    pub current_target: Option<u64>,
    pub state: State,
}

/// An event dispatched into a display-object hierarchy, objects named by
/// stable identifiers.
#[derive(Debug)]
pub struct Event<T> {
    pub data: EventData<T>,
}

impl<T> Event<T> {
    /// A fresh event onto `target`, still propagating, its current target
    /// the dispatch target itself.
    pub fn new(target: Option<u64>, payload: T) -> (r: Event<T>)
        ensures
            r.data.payload == payload,
            r.data.target == target,
            r.data.current_target == target,
            r.data.state == State::Running,
    {
        Event { data: EventData { payload, target, current_target: target, state: State::Running } }
    }

    /// Prevents further propagation: the event becomes cancelled, unless its
    /// propagation cannot be cancelled, in which case nothing changes.
    pub fn stop_propagation(&mut self)
        ensures
            old(self).data.state == State::RunningNonCancellable ==> final(self).data.state == (
            old(self).data.state),
            old(self).data.state != State::RunningNonCancellable ==> final(self).data.state == (
            State::Cancelled),
            final(self).data.payload == old(self).data.payload,
            final(self).data.target == old(self).data.target,
            final(self).data.current_target == old(self).data.current_target,
    {
        if !matches!(self.data.state, State::RunningNonCancellable) {
            self.data.state = State::Cancelled;
        }
    }

    /// The object onto which the event was dispatched, if it still exists.
    pub fn target(&self) -> (r: Option<u64>)
        ensures
            r == self.data.target,
    {
        self.data.target
    }

    /// The object whose handler is currently running; only meaningful while
    /// the event is being handled.
    pub fn current_target(&self) -> (r: Option<u64>)
        ensures
            r == self.data.current_target,
    {
        self.data.current_target
    }
}

/// Fires when an element has received focus; does not bubble and cannot be
/// cancelled.
#[derive(Clone, Copy, Debug, PartialEq, Eq, Structural)]
pub struct Focus;

/// Fires when an element has lost focus; does not bubble and cannot be
/// cancelled.
#[derive(Clone, Copy, Debug, PartialEq, Eq, Structural)]
pub struct Blur;

/// Fires after [`Focus`]; bubbles, cannot be cancelled.
#[derive(Clone, Copy, Debug, PartialEq, Eq, Structural)]
pub struct FocusIn;

/// Fires after [`Blur`]; bubbles, cannot be cancelled.
#[derive(Clone, Copy, Debug, PartialEq, Eq, Structural)]
pub struct FocusOut;

} // verus!
