//! Event subscriptions: whether subscribing starts a listener, and whether
//! the listener goes on after an event.

use vstd::prelude::*;
use crate::error::Error;

verus! {

/// What became of an event a subscriber waited for: it was digested, with
/// the listener's answer (whether to keep listening) or its error, or
/// receiving it failed.
pub enum Received {
    Digested(Result<bool, Error>),
    RecvFailed,
}

/// Whether a subscriber keeps listening after an event: it stops only when
/// its listener digested the event and asked to stop; errors are reported
/// and listening goes on.
pub open spec fn keeps_listening(r: Received) -> bool {
    !(r matches Received::Digested(Ok(false)))
}

/// Whether a subscriber keeps listening after an event.
pub fn after_event(r: &Received) -> (res: bool)
    ensures
        res == keeps_listening(*r),
{
    match r {
        Received::Digested(Ok(keep)) => *keep,
        _ => true,
    }
}

/// Whether a subscriber is listening.
pub struct Subscriber {
    active: bool,
}

impl View for Subscriber {
    type V = bool;

    closed spec fn view(&self) -> bool {
        self.active
    }
}

impl Subscriber {
    /// A subscriber that is not listening.
    pub fn new() -> (res: Self)
        ensures
            !res@,
    {
        Subscriber { active: false }
    }

    /// Whether the subscriber is listening.
    pub fn is_active(&self) -> (res: bool)
        ensures
            res == self@,
    {
        self.active
    }

    /// Subscribes: tells whether a listener must be started, which it must
    /// unless one is listening already; the subscriber then listens.
    pub fn subscribe(&mut self) -> (res: bool)
        ensures
            res == !old(self)@,
            final(self)@,
    {
        if self.active {
            return false;
        }
        self.active = true;
        true
    }

    /// The listener has stopped.
    pub fn finished(&mut self)
        ensures
            !final(self)@,
    {
        self.active = false;
    }
}

} // verus!
