//! The capability interface for values that encode themselves as a TLV
//! node: "projectable to a TLV node" under a caller-chosen class and tag
//! number.

use vstd::prelude::*;
use crate::common::{ClassT, Tag, TagPrimitive, TagV};
use crate::model::{be_bytes, be_len};
use crate::write::{push_be, be_len_of};

verus! {

/// A value that can project itself into a TLV node under a given class
/// and tag number.
pub trait IntoBER: Sized {
    /// The model of the node the value projects to.
    spec fn ber_model(self, class: ClassT, tagnr: u64) -> TagV;

    /// Projects the value into a TLV node.
    fn into_ber(self, class: ClassT, tagnr: u64) -> (r: Tag)
        ensures
            r@ == self.ber_model(class, tagnr),
    ;
}

impl IntoBER for u32 {
    /// A primitive node holding the value's minimal big-endian bytes.
    open spec fn ber_model(self, class: ClassT, tagnr: u64) -> TagV {
        TagV::Primitive {
            class,
            tag_number: tagnr,
            content: be_bytes(self as nat, be_len(self as nat)),
        }
    }

    fn into_ber(self, class: ClassT, tagnr: u64) -> (r: Tag) {
        let k = be_len_of(self as u64);
        let mut out: Vec<u8> = Vec::new();
        push_be(&mut out, self as u64, k);
        Tag::Primitive(TagPrimitive { class, tag_number: tagnr, inner: out })
    }
}

} // verus!
