//! The writer-side node shape: a tag with its class, tag number and
//! payload, the form the typed layer projects its values into.

use vstd::prelude::*;
use crate::common::{ClassT, TagV};

verus! {

/// A TLV node as the writer consumes it: class, tag number, and either
/// raw bytes or child nodes.
#[derive(Debug, PartialEq)]
pub struct StructureTag {
    pub class: ClassT,
    pub id: u64,
    pub payload: PL,
}

/// A node's payload: opaque bytes (primitive) or an ordered sequence of
/// child nodes (constructed).
#[derive(Debug, PartialEq)]
pub enum PL {
    P(Vec<u8>),
    C(Vec<StructureTag>),
}

/// The model of a `StructureTag`, recursively.
pub open spec fn st_view(t: StructureTag) -> TagV
    decreases t, 0int,
{
    match t.payload {
        PL::P(v) => TagV::Primitive { class: t.class, tag_number: t.id, content: v@ },
        PL::C(ts) => TagV::Constructed {
            class: t.class,
            tag_number: t.id,
            children: sts_view(ts@),
        },
    }
}

/// The models of a sequence of `StructureTag`s, in order.
pub open spec fn sts_view(ts: Seq<StructureTag>) -> Seq<TagV>
    decreases ts, 1int,
{
    if ts.len() == 0 {
        Seq::empty()
    } else {
        seq![st_view(ts[0])] + sts_view(ts.subrange(1, ts.len() as int))
    }
}

/// `sts_view` maps `st_view` over the sequence, element by element.
pub proof fn lemma_sts_view(ts: Seq<StructureTag>)
    ensures
        sts_view(ts).len() == ts.len(),
        forall|j: int| 0 <= j < ts.len() ==> sts_view(ts)[j] == st_view(ts[j]),
    decreases ts.len(),
{
    if ts.len() > 0 {
        lemma_sts_view(ts.subrange(1, ts.len() as int));
    }
}

/// Appending a node appends its model.
pub proof fn lemma_sts_view_push(ts: Seq<StructureTag>, t: StructureTag)
    ensures
        sts_view(ts.push(t)) == sts_view(ts) + seq![st_view(t)],
    decreases ts.len(),
{
    if ts.len() == 0 {
        reveal_with_fuel(sts_view, 2);
        assert(ts.push(t).subrange(1, 1) =~= Seq::<StructureTag>::empty());
        assert(sts_view(ts.push(t)) =~= sts_view(ts) + seq![st_view(t)]);
    } else {
        let sub = ts.subrange(1, ts.len() as int);
        lemma_sts_view_push(sub, t);
        assert(ts.push(t).subrange(1, ts.len() as int + 1) =~= sub.push(t));
        assert(sts_view(ts.push(t)) == seq![st_view(ts[0])] + (sts_view(sub) + seq![st_view(t)]));
        assert(seq![st_view(ts[0])] + (sts_view(sub) + seq![st_view(t)]) =~= (seq![
            st_view(ts[0]),
        ] + sts_view(sub)) + seq![st_view(t)]);
    }
}

impl View for StructureTag {
    type V = TagV;

    open spec fn view(&self) -> TagV {
        st_view(*self)
    }
}

} // verus!
