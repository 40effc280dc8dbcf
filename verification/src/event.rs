//! What a session is told and what it asks for in return.

use vstd::prelude::*;
use crate::sample::Sample;

verus! {

/// An event delivered to a session. Events of one session are handled one at
/// a time, in the order of their delivery.
#[derive(Clone, Copy, Debug, PartialEq, Eq)]
pub enum Event {
    /// The client asked for the stream of samples to begin.
    Start,
    /// The push loop ticked. On the wire the message has no fields; here it
    /// carries the value that the session's sample cursor yielded for it.
    PushData(Sample),
}

/// What the caller of a handler has to do once the handler has returned.
#[derive(Debug, PartialEq, Eq)]
pub enum Action<H> {
    /// Nothing beyond rendering the session again.
    Idle,
    /// Spawn the push loop and give it this handle, which the session has
    /// given up: no second task can be handed it.
    SpawnPushLoop(H),
}

} // verus!
