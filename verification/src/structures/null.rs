//! The NULL value: a primitive node with empty content.

use vstd::prelude::*;
use crate::common::{ClassT, TagV};
use crate::structure::{StructureTag, PL};
use crate::structures::ASNTag;

verus! {

/// A NULL value under a class and tag number; it carries no content.
#[derive(Clone, Debug, PartialEq)]
pub struct Null {
    pub id: u64,
    pub class: ClassT,
}

impl ASNTag for Null {
    open spec fn structure_model(self) -> TagV {
        TagV::Primitive { class: self.class, tag_number: self.id, content: Seq::empty() }
    }

    fn into_structure(self) -> (r: StructureTag) {
        let r = StructureTag { class: self.class, id: self.id, payload: PL::P(Vec::new()) };
        proof {
            assert(r@ == self.structure_model());
        }
        r
    }
}

impl Default for Null {
    /// A universal NULL (tag number 5).
    fn default() -> (r: Self)
        ensures
            r.id == 5,
            r.class == ClassT::Universal,
    {
        Null { id: 5, class: ClassT::Universal }
    }
}

} // verus!
