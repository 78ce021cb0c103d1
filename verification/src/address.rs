//! The caller-side mapping of replies.
//!
//! A caller that sends a concrete message statically knows which variant of
//! the actor's result union answers it. `MapResult` is the contract the glue
//! around an actor type implements for each message type: it maps the tagged
//! result union back to the caller's expected output, and reports `TypeCast`
//! when the variant does not match — a contract violation between the glue
//! and the runtime, not a user error.

use vstd::prelude::*;

use crate::error::ActixSendError;

verus! {

/// Maps the actor's result union back to the output type the sender of one
/// concrete message type expects.
pub trait MapResult<M>: Sized {
    /// The output the sending caller receives.
    type Output;

    /// Recovers the expected output from the result union; `TypeCast` when
    /// the union holds another variant.
    fn map(msg: M) -> Result<Self::Output, ActixSendError>;
}

} // verus!
