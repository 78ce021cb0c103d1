//! The type-erasure container for ad-hoc operation results.
//!
//! An ad-hoc operation produces a value whose concrete type only the original
//! caller knows. The worker packs the value together with a type tag; the
//! caller recovers it by presenting the tag it statically expects. A mismatch
//! is a contract violation between caller and runtime and surfaces as
//! `TypeCast`, never as a silent wrong value.

use vstd::prelude::*;

use crate::error::ActixSendError;

verus! {

/// A value hidden behind a numeric type tag until its caller reclaims it.
pub struct ErasedResult<V> {
    tag: u64,
    value: V,
}

impl<V> ErasedResult<V> {
    /// The tag this container was packed with.
    pub closed spec fn tag_spec(self) -> u64 {
        self.tag
    }

    /// The value this container was packed with.
    pub closed spec fn value_spec(self) -> V {
        self.value
    }

    /// Erases `value` behind `tag`.
    pub fn pack(tag: u64, value: V) -> (r: Self)
        ensures
            r.tag_spec() == tag,
            r.value_spec() == value,
    {
        ErasedResult { tag, value }
    }

    /// Recovers the value if and only if the caller's expected tag is the tag
    /// the container was packed with.
    pub fn unpack(self, expected: u64) -> (r: Option<V>)
        ensures
            self.tag_spec() == expected ==> r == Some(self.value_spec()),
            self.tag_spec() != expected ==> r is None,
    {
        if self.tag == expected {
            Some(self.value)
        } else {
            None
        }
    }

    /// `unpack`, with a mismatch reported as the `TypeCast` error.
    pub fn recover(self, expected: u64) -> (r: Result<V, ActixSendError>)
        ensures
            self.tag_spec() == expected ==> r == Ok::<V, ActixSendError>(self.value_spec()),
            self.tag_spec() != expected ==> r == Err::<V, ActixSendError>(ActixSendError::TypeCast),
    {
        match self.unpack(expected) {
            Some(v) => Ok(v),
            None => Err(ActixSendError::TypeCast),
        }
    }
}

} // verus!
