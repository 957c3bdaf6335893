//! Events and the script values that carry them.

use vstd::prelude::*;

verus! {

/// The stage of propagation an event is in while dispatch runs.
/// `Idle` is the neutral value an event holds outside of any dispatch.
#[derive(Clone, Copy, PartialEq, Eq, Structural, Debug)]
pub enum EventPhase {
    Idle,
    Capturing,
    AtTarget,
    Bubbling,
}

/// Errors of the listener-management and dispatch entry points.
#[derive(Clone, Copy, PartialEq, Eq, Structural, Debug)]
pub enum EventError {
    /// Dispatch was handed a value that is not an event.
    InvalidEvent,
    /// Registration or removal was handed a listener that is not callable.
    InvalidListener,
}

/// An event instance.  The type name and the `bubbles` / `cancelable`
/// flags are fixed at construction; the remaining fields are
/// dispatch-time state written by the dispatch algorithm and by the
/// stop / prevent methods that listeners call.
pub struct Event {
    pub event_type: String,
    pub bubbles: bool,
    pub cancelable: bool,
    /// The object the current dispatch was invoked on.
    pub target: Option<usize>,
    /// The object whose listeners are currently firing.
    pub current_target: Option<usize>,
    pub phase: EventPhase,
    /// Set by `stop_propagation`: no node past the current one fires.
    pub propagation_stopped: bool,
    /// Set by `stop_immediate_propagation`: the current node's
    /// remaining listeners are skipped as well.
    pub immediate_propagation_stopped: bool,
    /// Set by `prevent_default` on a cancelable event.
    pub default_prevented: bool,
}

impl Event {
    pub fn new(event_type: String, bubbles: bool, cancelable: bool) -> (e: Event)
        ensures
            e == (Event {
                event_type,
                bubbles,
                cancelable,
                target: None,
                current_target: None,
                phase: EventPhase::Idle,
                propagation_stopped: false,
                immediate_propagation_stopped: false,
                default_prevented: false,
            }),
    {
        Event {
            event_type,
            bubbles,
            cancelable,
            target: None,
            current_target: None,
            phase: EventPhase::Idle,
            propagation_stopped: false,
            immediate_propagation_stopped: false,
            default_prevented: false,
        }
    }

    /// Keep the current node's remaining listeners, but let no node
    /// past it fire.
    pub fn stop_propagation(&mut self)
        ensures
            *final(self) == (Event { propagation_stopped: true, ..*old(self) }),
    {
        self.propagation_stopped = true;
    }

    /// Skip the current node's remaining listeners too.  This also
    /// stops propagation to further nodes.
    pub fn stop_immediate_propagation(&mut self)
        ensures
            *final(self) == (Event {
                propagation_stopped: true,
                immediate_propagation_stopped: true,
                ..*old(self)
            }),
    {
        self.propagation_stopped = true;
        self.immediate_propagation_stopped = true;
    }

    /// Cancel the default behaviour.  A no-op on an event that is not
    /// cancelable.
    pub fn prevent_default(&mut self)
        ensures
            *final(self) == (Event {
                default_prevented: old(self).default_prevented || old(self).cancelable,
                ..*old(self)
            }),
    {
        if self.cancelable {
            self.default_prevented = true;
        }
    }
}

/// A script value as the entry points receive it.  Callbacks are held
/// by handle; the interpreter that owns them invokes them.
pub enum Value {
    Undefined,
    Null,
    Bool(bool),
    Integer(i32),
    /// A tree node, by identity.
    Object(usize),
    /// A callable, by the handle the interpreter knows it under.
    Callable(u64),
    Event(Event),
}

} // verus!
