//! Universal-class tags: a transparent wrapper that fixes the class to
//! Universal and takes its tag number from the payload type.

use vstd::prelude::*;

verus! {

/// The universal tag numbers this layer distinguishes.
#[derive(Clone, Copy, Debug, PartialEq, Eq, Structural)]
pub enum UniversalNr {
    INTEGER,
}

/// A payload that knows which universal tag number identifies it.
pub trait UniversalPayload: Sized {
    /// The universal tag number of this payload type.
    fn id(&self) -> UniversalNr;
}

/// A payload wrapped under its universal tag.
#[derive(Clone, Debug, PartialEq)]
pub struct UniversalTag<T> {
    pub inner: T,
}

impl<T: UniversalPayload> UniversalTag<T> {
    /// Wraps a payload under its universal tag.
    pub fn wrap(inner: T) -> (r: Self)
        ensures
            r.inner == inner,
    {
        UniversalTag { inner }
    }
}

} // verus!
