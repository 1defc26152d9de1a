//! The SEQUENCE, SEQUENCE OF and SET OF values: constructed nodes whose
//! children are the projections of their elements, in order.

use vstd::prelude::*;
use crate::common::{ClassT, TagV};
use crate::structure::{StructureTag, PL, sts_view, lemma_sts_view_push};
use crate::structures::{ASNTag, Tag, typed_tags_model, lemma_typed_tags_model_push};

verus! {

/// A SEQUENCE of typed values under a class and tag number.
#[derive(Debug, PartialEq)]
pub struct Sequence {
    pub id: u64,
    pub class: ClassT,
    pub inner: Vec<Tag>,
}

impl ASNTag for Sequence {
    open spec fn structure_model(self) -> TagV {
        TagV::Constructed {
            class: self.class,
            tag_number: self.id,
            children: typed_tags_model(self.inner@),
        }
    }

    #[verifier::loop_isolation(false)]
    fn into_structure(self) -> (r: StructureTag)
        decreases self,
    {
        let ghost orig = self.inner@;
        let id = self.id;
        let class = self.class;
        let mut v = self.inner;
        let mut children: Vec<StructureTag> = Vec::new();
        proof {
            assert(v@ =~= orig.subrange(0, orig.len() as int));
            assert(orig.subrange(0, 0) =~= Seq::<Tag>::empty());
        }
        while v.len() > 0
            invariant
                v@.len() <= orig.len(),
                v@ == orig.subrange(orig.len() - v@.len(), orig.len() as int),
                sts_view(children@) == typed_tags_model(
                    orig.subrange(0, orig.len() - v@.len()),
                ),
            decreases v@.len(),
        {
            let ghost j = orig.len() - v@.len();
            let ghost prev = children@;
            let x = v.remove(0);
            proof {
                assert(x == orig[j]);
                assert(v@ =~= orig.subrange(j + 1, orig.len() as int));
                assert(decreases_to!(self => x));
            }
            let st = x.into_structure();
            children.push(st);
            proof {
                lemma_sts_view_push(prev, st);
                lemma_typed_tags_model_push(orig.subrange(0, j), orig[j]);
                assert(orig.subrange(0, j + 1) =~= orig.subrange(0, j).push(orig[j]));
                assert(sts_view(children@) =~= typed_tags_model(orig.subrange(0, j + 1)));
            }
        }
        proof {
            assert(orig.subrange(0, orig.len() as int) =~= orig);
        }
        StructureTag { class, id, payload: PL::C(children) }
    }
}

impl Default for Sequence {
    /// A universal SEQUENCE (tag number 16) with no elements.
    fn default() -> (r: Self)
        ensures
            r.id == 16,
            r.class == ClassT::Universal,
            r.inner@ == Seq::<Tag>::empty(),
    {
        Sequence { id: 16, class: ClassT::Universal, inner: Vec::new() }
    }
}

/// A homogeneous SEQUENCE OF values under a class and tag number.
#[derive(Debug, PartialEq)]
pub struct SequenceOf<T> {
    pub id: u64,
    pub class: ClassT,
    pub inner: Vec<T>,
}

impl<T: ASNTag> SequenceOf<T> {
    /// Projects the sequence into a constructed node whose children are
    /// the projections of its elements, in order.
    #[verifier::loop_isolation(false)]
    pub fn into_structure(self) -> (r: StructureTag)
        ensures
            r@ == (TagV::Constructed {
                class: self.class,
                tag_number: self.id,
                children: self.inner@.map_values(|x: T| x.structure_model()),
            }),
    {
        let ghost orig = self.inner@;
        let id = self.id;
        let class = self.class;
        let mut v = self.inner;
        let mut children: Vec<StructureTag> = Vec::new();
        proof {
            assert(v@ =~= orig.subrange(0, orig.len() as int));
            assert(sts_view(children@) =~= orig.subrange(0, 0).map_values(
                |x: T| x.structure_model(),
            ));
        }
        while v.len() > 0
            invariant
                v@.len() <= orig.len(),
                v@ == orig.subrange(orig.len() - v@.len(), orig.len() as int),
                sts_view(children@) == (orig.subrange(0, orig.len() - v@.len()).map_values(
                    |x: T| x.structure_model(),
                )),
            decreases v@.len(),
        {
            let ghost j = orig.len() - v@.len();
            let ghost prev = children@;
            let x = v.remove(0);
            proof {
                assert(x == orig[j]);
                assert(v@ =~= orig.subrange(j + 1, orig.len() as int));
            }
            let st = x.into_structure();
            children.push(st);
            proof {
                lemma_sts_view_push(prev, st);
                assert(sts_view(children@) =~= orig.subrange(0, j + 1).map_values(
                    |x: T| x.structure_model(),
                ));
            }
        }
        proof {
            assert(orig.subrange(0, orig.len() as int) =~= orig);
        }
        StructureTag { class, id, payload: PL::C(children) }
    }
}

impl<T> Default for SequenceOf<T> {
    /// A universal SEQUENCE (tag number 16) with no elements.
    fn default() -> (r: Self)
        ensures
            r.id == 16,
            r.class == ClassT::Universal,
            r.inner@ == Seq::<T>::empty(),
    {
        SequenceOf { id: 16, class: ClassT::Universal, inner: Vec::new() }
    }
}

/// A homogeneous SET OF values under a class and tag number; its
/// elements are kept in the order given, as for a SEQUENCE OF.
#[derive(Debug, PartialEq)]
pub struct SetOf<T> {
    pub id: u64,
    pub class: ClassT,
    pub inner: Vec<T>,
}

impl<T: ASNTag> SetOf<T> {
    /// Projects the set into a constructed node whose children are the
    /// projections of its elements, in the order given.
    #[verifier::loop_isolation(false)]
    pub fn into_structure(self) -> (r: StructureTag)
        ensures
            r@ == (TagV::Constructed {
                class: self.class,
                tag_number: self.id,
                children: self.inner@.map_values(|x: T| x.structure_model()),
            }),
    {
        let ghost orig = self.inner@;
        let id = self.id;
        let class = self.class;
        let mut v = self.inner;
        let mut children: Vec<StructureTag> = Vec::new();
        proof {
            assert(v@ =~= orig.subrange(0, orig.len() as int));
            assert(sts_view(children@) =~= orig.subrange(0, 0).map_values(
                |x: T| x.structure_model(),
            ));
        }
        while v.len() > 0
            invariant
                v@.len() <= orig.len(),
                v@ == orig.subrange(orig.len() - v@.len(), orig.len() as int),
                sts_view(children@) == (orig.subrange(0, orig.len() - v@.len()).map_values(
                    |x: T| x.structure_model(),
                )),
            decreases v@.len(),
        {
            let ghost j = orig.len() - v@.len();
            let ghost prev = children@;
            let x = v.remove(0);
            proof {
                assert(x == orig[j]);
                assert(v@ =~= orig.subrange(j + 1, orig.len() as int));
            }
            let st = x.into_structure();
            children.push(st);
            proof {
                lemma_sts_view_push(prev, st);
                assert(sts_view(children@) =~= orig.subrange(0, j + 1).map_values(
                    |x: T| x.structure_model(),
                ));
            }
        }
        proof {
            assert(orig.subrange(0, orig.len() as int) =~= orig);
        }
        StructureTag { class, id, payload: PL::C(children) }
    }
}

impl<T> Default for SetOf<T> {
    /// A universal SET (tag number 17) with no elements.
    fn default() -> (r: Self)
        ensures
            r.id == 17,
            r.class == ClassT::Universal,
            r.inner@ == Seq::<T>::empty(),
    {
        SetOf { id: 17, class: ClassT::Universal, inner: Vec::new() }
    }
}

} // verus!
