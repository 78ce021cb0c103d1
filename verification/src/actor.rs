//! The contract between the pool and the user's actor type.
//!
//! An actor is a mutable state object owned by exactly one worker. The glue
//! around a concrete actor supplies a closed message union (`Message`), the
//! matching result union (`Result`), and a dispatch function `handle` that
//! turns one message into one result. Ad-hoc operations are values of `Op`
//! executed against the actor by `run_op`. Each exec method is pinned to a
//! spec function of the implementing type, so everything the pool proves
//! about message flow speaks of exactly what the actor's dispatch produces.

use vstd::prelude::*;

verus! {

/// What an actor type must supply to be driven by a pool of workers.
pub trait Handler: Sized {
    /// The closed union of every message the actor accepts.
    type Message;

    /// The union of return values, one variant per message variant.
    type Result;

    /// An ad-hoc operation that may read and mutate the actor.
    type Op;

    /// What an ad-hoc operation evaluates to.
    type OpResult;

    /// The meaning of `handle`: the successor state and the produced result.
    spec fn handle_spec(self, msg: Self::Message) -> (Self, Self::Result);

    /// The meaning of `run_op`: the successor state and the produced value.
    spec fn run_op_spec(self, op: Self::Op) -> (Self, Self::OpResult);

    /// The meaning of the `on_start` hook.
    spec fn on_start_spec(self) -> Self;

    /// The meaning of the `on_stop` hook.
    spec fn on_stop_spec(self) -> Self;

    /// Dispatches one message against the actor.
    fn handle(&mut self, msg: Self::Message) -> (r: Self::Result)
        ensures
            (*final(self), r) == (*old(self)).handle_spec(msg),
    ;

    /// Executes one ad-hoc operation against the actor. Interval operations
    /// are stored and executed repeatedly, so the operation is borrowed.
    fn run_op(&mut self, op: &Self::Op) -> (r: Self::OpResult)
        ensures
            (*final(self), r) == (*old(self)).run_op_spec(*op),
    ;

    /// Runs when the owning worker loop comes alive, including on a restart.
    fn on_start(&mut self)
        ensures
            *final(self) == (*old(self)).on_start_spec(),
    ;

    /// Runs when the owning worker loop exits permanently.
    fn on_stop(&mut self)
        ensures
            *final(self) == (*old(self)).on_stop_spec(),
    ;
}

} // verus!
