//! A small typed layer over the TLV core: concrete ASN.1 value shapes
//! that project into `StructureTag` trees for the writer.  The core only
//! consumes this projection; mapping parsed TLV nodes back into typed
//! values is the surrounding system's concern.

use vstd::prelude::*;
use crate::common::{ClassT, TagV};
use crate::model::{be_bytes, be_len};
use crate::structure::{StructureTag, PL};
use crate::write::{push_be, be_len_of};

pub mod null;
pub mod octetstring;
pub mod sequence;

use crate::structures::null::Null;
use crate::structures::octetstring::OctetString;
use crate::structures::sequence::Sequence;

verus! {

/// A value that projects into a TLV node tree: the seam between the
/// typed layer and the core writer.
pub trait ASNTag: Sized {
    /// The model of the node this value projects to.
    spec fn structure_model(self) -> TagV;

    /// Projects the value into the node the writer consumes.
    fn into_structure(self) -> (r: StructureTag)
        ensures
            r@ == self.structure_model(),
    ;
}

/// The magnitude of a signed 64-bit value.
pub open spec fn abs64(v: i64) -> nat {
    if v >= 0 {
        v as nat
    } else {
        (-(v as int)) as nat
    }
}

/// The content bytes of an integer value: its two's-complement bits,
/// truncated to the count of bytes its magnitude takes, big-endian.
pub open spec fn int_content(v: i64) -> Seq<u8> {
    be_bytes((v as u64) as nat, be_len(abs64(v)))
}

/// An INTEGER value under a class and tag number.
#[derive(Clone, Debug, PartialEq)]
pub struct Integer {
    pub id: u64,
    pub class: ClassT,
    pub inner: i64,
}

impl ASNTag for Integer {
    open spec fn structure_model(self) -> TagV {
        TagV::Primitive { class: self.class, tag_number: self.id, content: int_content(self.inner) }
    }

    fn into_structure(self) -> (r: StructureTag) {
        let m: u64 = if self.inner >= 0 {
            self.inner as u64
        } else {
            ((-1i64 - self.inner) as u64) + 1
        };
        let k = be_len_of(m);
        let mut bytes: Vec<u8> = Vec::new();
        push_be(&mut bytes, self.inner as u64, k);
        StructureTag { class: self.class, id: self.id, payload: PL::P(bytes) }
    }
}

impl Default for Integer {
    /// A universal INTEGER (tag number 2) holding zero.
    fn default() -> (r: Self)
        ensures
            r.id == 2,
            r.class == ClassT::Universal,
            r.inner == 0,
    {
        Integer { id: 2, class: ClassT::Universal, inner: 0 }
    }
}

/// A typed ASN.1 value: one of the concrete shapes the typed layer
/// builds, each able to project into a TLV node.
#[derive(Debug, PartialEq)]
pub enum Tag {
    Integer(Integer),
    OctetString(OctetString),
    Null(Null),
    Sequence(Sequence),
}

/// The model of the node a typed value projects to.
pub open spec fn typed_tag_model(t: Tag) -> TagV
    decreases t, 0int,
{
    match t {
        Tag::Integer(i) => TagV::Primitive {
            class: i.class,
            tag_number: i.id,
            content: int_content(i.inner),
        },
        Tag::OctetString(o) => TagV::Primitive {
            class: o.class,
            tag_number: o.id,
            content: o.inner@,
        },
        Tag::Null(n) => TagV::Primitive {
            class: n.class,
            tag_number: n.id,
            content: Seq::empty(),
        },
        Tag::Sequence(s) => TagV::Constructed {
            class: s.class,
            tag_number: s.id,
            children: typed_tags_model(s.inner@),
        },
    }
}

/// The models of a sequence of typed values, in order.
pub open spec fn typed_tags_model(ts: Seq<Tag>) -> Seq<TagV>
    decreases ts, 1int,
{
    if ts.len() == 0 {
        Seq::empty()
    } else {
        seq![typed_tag_model(ts[0])] + typed_tags_model(ts.subrange(1, ts.len() as int))
    }
}

/// Appending a typed value appends its model.
pub proof fn lemma_typed_tags_model_push(ts: Seq<Tag>, t: Tag)
    ensures
        typed_tags_model(ts.push(t)) == typed_tags_model(ts) + seq![typed_tag_model(t)],
    decreases ts.len(),
{
    if ts.len() == 0 {
        reveal_with_fuel(typed_tags_model, 2);
        assert(ts.push(t).subrange(1, 1) =~= Seq::<Tag>::empty());
        assert(typed_tags_model(ts.push(t)) =~= typed_tags_model(ts) + seq![typed_tag_model(t)]);
    } else {
        let sub = ts.subrange(1, ts.len() as int);
        lemma_typed_tags_model_push(sub, t);
        assert(ts.push(t).subrange(1, ts.len() as int + 1) =~= sub.push(t));
        assert(typed_tags_model(ts.push(t)) == seq![typed_tag_model(ts[0])] + (typed_tags_model(sub)
            + seq![typed_tag_model(t)]));
        assert(seq![typed_tag_model(ts[0])] + (typed_tags_model(sub) + seq![typed_tag_model(t)])
            =~= (seq![typed_tag_model(ts[0])] + typed_tags_model(sub)) + seq![typed_tag_model(t)]);
    }
}

impl ASNTag for Tag {
    open spec fn structure_model(self) -> TagV {
        typed_tag_model(self)
    }

    fn into_structure(self) -> (r: StructureTag)
        decreases self,
    {
        match self {
            Tag::Integer(i) => i.into_structure(),
            Tag::OctetString(o) => o.into_structure(),
            Tag::Null(n) => n.into_structure(),
            Tag::Sequence(s) => s.into_structure(),
        }
    }
}

} // verus!
