//! The background task of a started session, as a state machine.
//!
//! The task itself sleeps and sends; what it does next is decided here.

use vstd::prelude::*;

verus! {

/// Time between two deliveries, in milliseconds.
pub const TICK_MILLIS: u64 = 10;

/// What the task does next.
#[derive(Clone, Copy, Debug, PartialEq, Eq, Structural)]
pub enum LoopAction {
    /// Sleep for `millis` milliseconds, then deliver one `PushData` event and
    /// report whether the delivery succeeded.
    Tick { millis: u64 },
    /// Leave the loop. Nothing is sent any more.
    Exit,
}

/// The push loop of one session.
#[derive(Debug)]
pub struct PushLoop {
    stopped: bool,
}

/// Whether one of the deliveries failed.
pub open spec fn has_failure(outcomes: Seq<bool>) -> bool {
    exists|i: int| 0 <= i < outcomes.len() && !#[trigger] outcomes[i]
}

/// Whether a loop is stopped after it has been told the outcome of one
/// delivery: a failure stops it, and nothing starts it again.
pub open spec fn stopped_next(stopped: bool, delivered: bool) -> bool {
    stopped || !delivered
}

/// Whether a loop is stopped after it has been told the outcomes of a
/// sequence of deliveries, in order.
pub open spec fn stopped_after(stopped: bool, outcomes: Seq<bool>) -> bool
    decreases outcomes.len(),
{
    if outcomes.len() == 0 {
        stopped
    } else {
        stopped_next(stopped_after(stopped, outcomes.drop_last()), outcomes.last())
    }
}

/// A loop is stopped exactly if it was stopped before or one of the
/// deliveries since has failed: it stops at the first failure, and nothing
/// that is reported afterwards starts it again.
pub proof fn lemma_stops_for_good(stopped: bool, outcomes: Seq<bool>)
    ensures
        stopped_after(stopped, outcomes) == (stopped || has_failure(outcomes)),
        PushLoop::action_when(stopped_after(stopped, outcomes)) is Exit <==> stopped
            || has_failure(outcomes),
    decreases outcomes.len(),
{
    if outcomes.len() > 0 {
        let earlier = outcomes.drop_last();
        lemma_stops_for_good(stopped, earlier);
        if has_failure(outcomes) {
            let i = choose|i: int| 0 <= i < outcomes.len() && !#[trigger] outcomes[i];
            if i < earlier.len() {
                assert(!earlier[i]);
            }
        }
        if has_failure(earlier) {
            let i = choose|i: int| 0 <= i < earlier.len() && !#[trigger] earlier[i];
            assert(!outcomes[i]);
        }
        if !outcomes.last() {
            assert(!outcomes[outcomes.len() - 1]);
        }
    }
}

impl PushLoop {
    /// Whether the loop has observed a failed delivery.
    pub closed spec fn is_stopped(&self) -> bool {
        self.stopped
    }

    /// The action that belongs to a state: a running loop ticks, a stopped one exits.
    pub open spec fn action_when(stopped: bool) -> LoopAction {
        if stopped {
            LoopAction::Exit
        } else {
            LoopAction::Tick { millis: TICK_MILLIS }
        }
    }

    /// A freshly spawned loop, which is running.
    pub fn new() -> (task: PushLoop)
        ensures
            !task.is_stopped(),
    {
        PushLoop { stopped: false }
    }

    /// What to do next.
    pub fn next_action(&self) -> (action: LoopAction)
        ensures
            action == Self::action_when(self.is_stopped()),
    {
        if self.stopped {
            LoopAction::Exit
        } else {
            LoopAction::Tick { millis: TICK_MILLIS }
        }
    }

    /// Records the outcome of one delivery. A failed delivery stops the loop
    /// for good; a stopped loop stays stopped whatever is reported.
    pub fn on_delivery(&mut self, delivered: bool)
        ensures
            final(self).is_stopped() == stopped_next(old(self).is_stopped(), delivered),
    {
        if !delivered {
            self.stopped = true;
        }
    }
}

} // verus!
