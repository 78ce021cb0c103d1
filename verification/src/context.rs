//! Envelopes and the per-worker decisions of the receive loop.
//!
//! Every kind of work a worker can receive travels through the shared queue
//! as one `Envelope` variant. The two `Delayed` variants are a one-shot
//! transformation: after their delay they become exactly one instant
//! envelope, or are discarded at shutdown when draining is off. The small
//! decision functions here are the exact branch conditions of the worker
//! loop: whether a loop that ended restarts, and whether a cancelled delayed
//! task still delivers its payload.

use vstd::prelude::*;

use crate::actor::Handler;

verus! {

/// One unit of work flowing through the shared queue.
///
/// Reply channels are single-use and owned by the caller; the model keeps
/// only what the worker's decisions depend on: whether a reply is wanted
/// (`want_reply`), and for a manual shutdown whether the requesting caller
/// still listens (`listening`).
pub enum Envelope<M, O> {
    /// Ask the receiving worker to end its loop; honoured only if the caller
    /// still holds the reply side.
    ManualShutDown { listening: bool },
    /// Deliver a message now; reply with the dispatch result if wanted.
    Instant { want_reply: bool, msg: M },
    /// Run an ad-hoc operation now; reply with its erased result if wanted.
    /// `tag` is the type tag the caller will present to recover the result.
    InstantDynamic { want_reply: bool, tag: u64, op: O },
    /// Become `Instant` (without reply) after the delay.
    Delayed { msg: M, delay_ms: u64 },
    /// Become `InstantDynamic` (without reply) after the delay.
    DelayedDynamic { op: O, delay_ms: u64 },
    /// Store a recurring operation; reply with its cancellation handle.
    IntervalFutureRegister { op: O, period_ms: u64 },
    /// Execute the stored recurring operation with this registration index.
    IntervalFutureRun { index: usize },
    /// Deregister and drop the stored recurring operation.
    IntervalFutureRemove { index: usize },
}

impl<M, O> Envelope<M, O> {
    /// The one-shot transformation a delayed envelope undergoes once its
    /// delay has elapsed: it becomes the matching instant envelope, with no
    /// reply channel.
    pub fn into_instant(self) -> (r: Envelope<M, O>)
        requires
            self is Delayed || self is DelayedDynamic,
        ensures
            match self {
                Envelope::Delayed { msg, .. } => r == (Envelope::<M, O>::Instant {
                    want_reply: false,
                    msg,
                }),
                Envelope::DelayedDynamic { op, .. } => r == (Envelope::<M, O>::InstantDynamic {
                    want_reply: false,
                    tag: 0,
                    op,
                }),
                _ => false,
            },
    {
        match self {
            Envelope::Delayed { msg, .. } => Envelope::Instant { want_reply: false, msg },
            Envelope::DelayedDynamic { op, .. } => Envelope::InstantDynamic {
                want_reply: false,
                tag: 0,
                op,
            },
            _ => unreached(),
        }
    }
}

/// One worker of a pool: the actor it exclusively owns and the phase of its
/// receive loop.
pub struct Worker<A: Handler> {
    /// The actor instance this worker alone may touch.
    pub actor: A,
    /// Whether the worker's receive loop is alive.
    pub running: bool,
    /// Whether the loop was ended by an acknowledged manual shutdown.
    pub manual_shutdown: bool,
}

/// The exact restart decision of a worker whose receive loop has ended:
/// restart only if the pool was not already shut down, the restart policy is
/// on, and the exit was not an acknowledged manual shutdown.
pub fn should_restart(still_open: bool, restart_on_err: bool, manual_shutdown: bool) -> (r: bool)
    ensures
        r == (still_open && restart_on_err && !manual_shutdown),
{
    still_open && restart_on_err && !manual_shutdown
}

/// The exact delivery decision of a delayed task whose wait ended: deliver if
/// the delay elapsed normally, or — when it was cancelled by shutdown — only
/// if the pool drains delayed work on shutdown.
pub fn should_deliver_delayed(cancelled: bool, handle_delayed_on_shutdown: bool) -> (r: bool)
    ensures
        r == (!cancelled || handle_delayed_on_shutdown),
{
    !cancelled || handle_delayed_on_shutdown
}

} // verus!
