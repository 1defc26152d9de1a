//! Specific tags: a payload wrapped under an explicitly chosen class,
//! tag number and form.

use vstd::prelude::*;
use crate::common::{ClassT, PCT};

verus! {

/// A payload under an explicitly chosen class, tag number and form.
#[derive(Clone, Debug, PartialEq)]
pub struct SpecificTag<T> {
    pub class: ClassT,
    pub id: u64,
    pub structure: PCT,
    pub inner: T,
}

impl<T> SpecificTag<T> {
    /// Wraps a payload under the given class, tag number and form.
    pub fn wrap(class: ClassT, id: u64, structure: PCT, inner: T) -> (r: Self)
        ensures
            r.class == class,
            r.id == id,
            r.structure == structure,
            r.inner == inner,
    {
        SpecificTag { class, id, structure, inner }
    }
}

} // verus!
