//! The error model of the `send` / `run` family.
//!
//! Every failure a caller can observe is one of four kinds: the reply channel
//! was dropped before a value arrived (`Canceled`), the queue has no live
//! receivers (`Closed`), the enqueue itself timed out (`Blocking`), or an
//! ad-hoc operation's erased result could not be recovered under the expected
//! type tag (`TypeCast`).

use vstd::prelude::*;

verus! {

/// Declares `futures_channel::oneshot::Canceled`, the error a oneshot
/// receiver reports when its sender was dropped without sending.
#[verifier::external_type_specification]
#[verifier::external_body]
pub struct ExCanceled(futures_channel::oneshot::Canceled);

/// Declares `async_channel::SendError`, the error `Sender::send` reports when
/// the channel is closed; it carries the message that could not be sent.
#[verifier::external_type_specification]
#[verifier::external_body]
#[verifier::reject_recursive_types(T)]
pub struct ExSendError<T>(async_channel::SendError<T>);

/// A failure reported to the task that called into the pool.
#[derive(Clone, Copy, Debug, PartialEq, Eq, Structural)]
pub enum ActixSendError {
    /// The reply channel was dropped before the worker produced a value.
    Canceled,
    /// The shared queue's send side has no live receivers.
    Closed,
    /// The send timeout elapsed before the enqueue completed.
    Blocking,
    /// An erased ad-hoc result did not match the statically expected type.
    TypeCast,
}

impl ActixSendError {
    /// A short human-readable name for the error kind.
    pub fn as_str(&self) -> (r: &'static str)
        ensures
            self is Canceled ==> r@ == "canceled"@,
            self is Closed ==> r@ == "closed"@,
            self is Blocking ==> r@ == "blocking"@,
            self is TypeCast ==> r@ == "type cast"@,
    {
        match self {
            ActixSendError::Canceled => "canceled",
            ActixSendError::Closed => "closed",
            ActixSendError::Blocking => "blocking",
            ActixSendError::TypeCast => "type cast",
        }
    }
}

impl From<futures_channel::oneshot::Canceled> for ActixSendError {
    /// A dropped reply channel surfaces as `Canceled`.
    fn from(err: futures_channel::oneshot::Canceled) -> (r: Self) {
        ActixSendError::Canceled
    }
}

impl vstd::std_specs::convert::FromSpecImpl<futures_channel::oneshot::Canceled> for ActixSendError {
    open spec fn obeys_from_spec() -> bool {
        true
    }

    open spec fn from_spec(err: futures_channel::oneshot::Canceled) -> Self {
        ActixSendError::Canceled
    }
}

impl<T> From<async_channel::SendError<T>> for ActixSendError {
    /// A failed enqueue on a closed queue surfaces as `Closed`.
    fn from(err: async_channel::SendError<T>) -> (r: Self) {
        ActixSendError::Closed
    }
}

impl<T> vstd::std_specs::convert::FromSpecImpl<async_channel::SendError<T>> for ActixSendError {
    open spec fn obeys_from_spec() -> bool {
        true
    }

    open spec fn from_spec(err: async_channel::SendError<T>) -> Self {
        ActixSendError::Closed
    }
}

/// Maps what a caller got back from its single-use reply channel: a value
/// passes through unchanged, a dropped channel becomes `Canceled`.
pub fn recv_outcome<T>(r: Result<T, futures_channel::oneshot::Canceled>) -> (out: Result<
    T,
    ActixSendError,
>)
    ensures
        match r {
            Ok(v) => out == Ok::<T, ActixSendError>(v),
            Err(_) => out == Err::<T, ActixSendError>(ActixSendError::Canceled),
        },
{
    match r {
        Ok(v) => Ok(v),
        Err(e) => Err(ActixSendError::from(e)),
    }
}

/// Maps the outcome of an enqueue attempt with a send timeout around it.
/// `None` means the timeout elapsed before the enqueue completed.
pub fn timed_enqueue_outcome<T>(r: Option<Result<(), async_channel::SendError<T>>>) -> (out: Result<
    (),
    ActixSendError,
>)
    ensures
        match r {
            None => out == Err::<(), ActixSendError>(ActixSendError::Blocking),
            Some(Ok(_)) => out == Ok::<(), ActixSendError>(()),
            Some(Err(_)) => out == Err::<(), ActixSendError>(ActixSendError::Closed),
        },
{
    match r {
        None => Err(ActixSendError::Blocking),
        Some(Ok(())) => Ok(()),
        Some(Err(e)) => Err(ActixSendError::from(e)),
    }
}

} // verus!
