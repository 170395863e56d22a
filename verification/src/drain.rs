//! Decisions of the callback drain over the event ring.
//!
//! One drain call delivers the staged and ring-resident events and reports a
//! [`PollOutcome`]; the drain loops keep polling until the outcome is
//! terminal. A session whose I/O thread faulted ends in
//! [`PollOutcome::Failed`], never in a clean [`PollOutcome::Shutdown`].

use vstd::prelude::*;

verus! {

/// Outcome of one drain call.
#[derive(Debug, Clone, Copy, PartialEq, Eq, Structural)]
pub enum PollOutcome {
    /// The available batch was delivered: this many events (may be `0`).
    Drained(usize),
    /// Terminal: clean stop, ring fully drained.
    Shutdown,
    /// Terminal: the I/O thread ended abnormally, ring fully drained.
    Failed,
    /// Another drain holds the staging state; nothing was delivered.
    Busy,
}

/// What polling the ring reported.
#[derive(Debug, Clone, Copy, PartialEq, Eq, Structural)]
pub enum RingPoll {
    /// A batch of events was handed over.
    Batch,
    /// The ring is live but momentarily empty.
    NoEvents,
    /// The producer is gone and the ring is empty.
    Shutdown,
}

/// Terminal outcome of a session: `Failed` when the I/O thread faulted.
pub open spec fn spec_terminal(io_faulted: bool) -> PollOutcome {
    if io_faulted {
        PollOutcome::Failed
    } else {
        PollOutcome::Shutdown
    }
}

/// The terminal outcome a drain reports once the session is over.
pub fn terminal_poll_outcome(io_faulted: bool) -> (r: PollOutcome)
    ensures
        r == spec_terminal(io_faulted),
{
    if io_faulted {
        PollOutcome::Failed
    } else {
        PollOutcome::Shutdown
    }
}

/// Outcome of a drain call that delivered `delivered` events and then saw
/// `ring`: a drain that delivered something reports it even when the ring
/// has shut down; only an empty drain of a shut-down ring is terminal.
pub fn batch_outcome(delivered: usize, ring: RingPoll, io_faulted: bool) -> (r: PollOutcome)
    ensures
        ring == RingPoll::Shutdown && delivered == 0 ==> r == spec_terminal(io_faulted),
        !(ring == RingPoll::Shutdown && delivered == 0) ==> r == PollOutcome::Drained(delivered),
{
    match ring {
        RingPoll::Shutdown => if delivered == 0 {
            terminal_poll_outcome(io_faulted)
        } else {
            PollOutcome::Drained(delivered)
        },
        _ => PollOutcome::Drained(delivered),
    }
}

/// What a drain loop does after one drain call.
#[derive(Debug, Clone, Copy, PartialEq, Eq, Structural)]
pub enum DrainStep {
    /// Return this terminal outcome.
    Finish(PollOutcome),
    /// Nothing was delivered: wait, then drain again.
    WaitThenDrain,
    /// Events were delivered: drain again at once.
    DrainAgain,
}

/// The drain loop's decision: stop on a terminal outcome, wait on an empty
/// or contended drain, otherwise keep draining.
pub fn drain_step(outcome: PollOutcome) -> (r: DrainStep)
    ensures
        (outcome is Shutdown || outcome is Failed) <==> r == DrainStep::Finish(outcome),
        (outcome == PollOutcome::Drained(0) || outcome is Busy) <==> r == DrainStep::WaitThenDrain,
        (outcome matches PollOutcome::Drained(n) && n > 0) <==> r == DrainStep::DrainAgain,
{
    match outcome {
        PollOutcome::Shutdown | PollOutcome::Failed => DrainStep::Finish(outcome),
        PollOutcome::Drained(0) | PollOutcome::Busy => DrainStep::WaitThenDrain,
        PollOutcome::Drained(_) => DrainStep::DrainAgain,
    }
}

} // verus!
