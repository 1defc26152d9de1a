//! The OCTET STRING value: a primitive node holding its bytes verbatim.

use vstd::prelude::*;
use crate::common::{ClassT, TagV};
use crate::structure::{StructureTag, PL};
use crate::structures::ASNTag;

verus! {

/// An OCTET STRING value under a class and tag number.
#[derive(Clone, Debug, PartialEq)]
pub struct OctetString {
    pub id: u64,
    pub class: ClassT,
    pub inner: Vec<u8>,
}

impl ASNTag for OctetString {
    open spec fn structure_model(self) -> TagV {
        TagV::Primitive { class: self.class, tag_number: self.id, content: self.inner@ }
    }

    fn into_structure(self) -> (r: StructureTag) {
        StructureTag { class: self.class, id: self.id, payload: PL::P(self.inner) }
    }
}

impl Default for OctetString {
    /// A universal OCTET STRING (tag number 4) holding no bytes.
    fn default() -> (r: Self)
        ensures
            r.id == 4,
            r.class == ClassT::Universal,
            r.inner@ == Seq::<u8>::empty(),
    {
        OctetString { id: 4, class: ClassT::Universal, inner: Vec::new() }
    }
}

} // verus!
