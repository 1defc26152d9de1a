//! The header model: tag classes, the primitive/constructed flag, type
//! headers, and the two TLV node shapes, together with their mathematical
//! view (`TagV`).

use vstd::prelude::*;

verus! {

/// One of the four tag namespaces; two bits on the wire.
#[derive(Clone, Copy, Debug, PartialEq, Eq, Structural)]
pub enum ClassT {
    Universal,
    Application,
    ContextSpecific,
    Private,
}

/// Whether a node's content is opaque bytes or nested TLV nodes; one bit
/// on the wire.
#[derive(Clone, Copy, Debug, PartialEq, Eq, Structural)]
pub enum PCT {
    Primitive,
    Constructed,
}

/// The decoded identity of a TLV node, independent of its content.
#[derive(Clone, Copy, Debug, PartialEq, Eq, Structural)]
pub struct TypeHeader {
    pub class: ClassT,
    pub pc: PCT,
    pub tagnr: u64,
}

/// A leaf node: opaque content bytes under a class and tag number.
#[derive(Clone, Debug, PartialEq)]
pub struct TagPrimitive {
    pub class: ClassT,
    pub tag_number: u64,
    pub inner: Vec<u8>,
}

/// A constructed node: an ordered sequence of child nodes under a class
/// and tag number.
#[derive(Debug, PartialEq)]
pub struct TagConstructed {
    pub class: ClassT,
    pub tag_number: u64,
    pub inner: Vec<Tag>,
}

/// A TLV node: either a leaf holding raw bytes or a node holding child
/// TLV nodes.
#[derive(Debug, PartialEq)]
pub enum Tag {
    Primitive(TagPrimitive),
    Constructed(TagConstructed),
}

/// The ways a byte stream can fail to decode.
#[derive(Clone, Copy, Debug, PartialEq, Eq, Structural)]
pub enum ParseError {
    /// The input was exhausted in the middle of a tag-number continuation,
    /// or the continuation does not fit the 64-bit tag-number model.
    MalformedHeader,
    /// A leading length byte of exactly `0x80`: the indefinite form, which
    /// this codec does not support.
    IndefiniteLengthUnsupported,
    /// A long-form length declares more bytes than the length integer
    /// type can hold.
    LengthOverflow,
    /// A declared length exceeds the remaining input.
    TruncatedInput,
    /// A constructed node's declared length is not exactly consumed by
    /// its children.
    MalformedLength,
}

/// The mathematical model of a TLV node: content as a byte sequence,
/// children as a sequence of models.
pub enum TagV {
    Primitive { class: ClassT, tag_number: u64, content: Seq<u8> },
    Constructed { class: ClassT, tag_number: u64, children: Seq<TagV> },
}

/// The model of a `Tag`, recursively.
pub open spec fn tag_view(t: Tag) -> TagV
    decreases t, 0int,
{
    match t {
        Tag::Primitive(p) => TagV::Primitive {
            class: p.class,
            tag_number: p.tag_number,
            content: p.inner@,
        },
        Tag::Constructed(c) => TagV::Constructed {
            class: c.class,
            tag_number: c.tag_number,
            children: tags_view(c.inner@),
        },
    }
}

/// The models of a sequence of `Tag`s, in order.
pub open spec fn tags_view(ts: Seq<Tag>) -> Seq<TagV>
    decreases ts, 1int,
{
    if ts.len() == 0 {
        Seq::empty()
    } else {
        seq![tag_view(ts[0])] + tags_view(ts.subrange(1, ts.len() as int))
    }
}

/// Appending a tag appends its model.
pub proof fn lemma_tags_view_push(ts: Seq<Tag>, t: Tag)
    ensures
        tags_view(ts.push(t)) == tags_view(ts) + seq![tag_view(t)],
    decreases ts.len(),
{
    if ts.len() == 0 {
        reveal_with_fuel(tags_view, 2);
        assert(ts.push(t).subrange(1, 1) =~= Seq::<Tag>::empty());
        assert(tags_view(ts.push(t)) =~= tags_view(ts) + seq![tag_view(t)]);
    } else {
        let sub = ts.subrange(1, ts.len() as int);
        lemma_tags_view_push(sub, t);
        assert(ts.push(t).subrange(1, ts.len() as int + 1) =~= sub.push(t));
        assert(tags_view(ts.push(t)) == seq![tag_view(ts[0])] + (tags_view(sub) + seq![
            tag_view(t),
        ]));
        assert(seq![tag_view(ts[0])] + (tags_view(sub) + seq![tag_view(t)]) =~= (seq![
            tag_view(ts[0]),
        ] + tags_view(sub)) + seq![tag_view(t)]);
    }
}

impl View for Tag {
    type V = TagV;

    open spec fn view(&self) -> TagV {
        tag_view(*self)
    }
}

/// The two class bits a class occupies on the wire.
pub open spec fn class_to_u8_spec(c: ClassT) -> u8 {
    match c {
        ClassT::Universal => 0,
        ClassT::Application => 1,
        ClassT::ContextSpecific => 2,
        ClassT::Private => 3,
    }
}

/// The class a two-bit pattern denotes; every pattern is valid.
pub open spec fn class_of_bits(b: u8) -> ClassT {
    if b == 0 {
        ClassT::Universal
    } else if b == 1 {
        ClassT::Application
    } else if b == 2 {
        ClassT::ContextSpecific
    } else {
        ClassT::Private
    }
}

/// The form bit a form occupies on the wire.
pub open spec fn pct_to_u8_spec(s: PCT) -> u8 {
    match s {
        PCT::Primitive => 0,
        PCT::Constructed => 1,
    }
}

impl ClassT {
    /// The class a numeric code denotes, if any.
    pub fn from_u8(n: u8) -> (r: Option<ClassT>)
        ensures
            n <= 3 ==> r == Some(class_of_bits(n)),
            n > 3 ==> r is None,
    {
        match n {
            0 => Some(ClassT::Universal),
            1 => Some(ClassT::Application),
            2 => Some(ClassT::ContextSpecific),
            3 => Some(ClassT::Private),
            _ => None,
        }
    }

    /// The numeric code of a class.
    pub fn to_u8(c: ClassT) -> (r: u8)
        ensures
            r == class_to_u8_spec(c),
    {
        match c {
            ClassT::Universal => 0,
            ClassT::Application => 1,
            ClassT::ContextSpecific => 2,
            ClassT::Private => 3,
        }
    }
}

impl PCT {
    /// The form a numeric code denotes, if any.
    pub fn from_u8(n: u8) -> (r: Option<PCT>)
        ensures
            n == 0 ==> r == Some(PCT::Primitive),
            n == 1 ==> r == Some(PCT::Constructed),
            n > 1 ==> r is None,
    {
        match n {
            0 => Some(PCT::Primitive),
            1 => Some(PCT::Constructed),
            _ => None,
        }
    }

    /// The numeric code of a form.
    pub fn to_u8(s: PCT) -> (r: u8)
        ensures
            r == pct_to_u8_spec(s),
    {
        match s {
            PCT::Primitive => 0,
            PCT::Constructed => 1,
        }
    }
}

impl TypeHeader {
    /// The header of a node: its class, form and tag number, without its
    /// content.
    pub fn from_tag(tag: &Tag) -> (r: TypeHeader)
        ensures
            r == spec_header_of(tag@),
    {
        match tag {
            Tag::Primitive(i) => TypeHeader {
                class: i.class,
                pc: PCT::Primitive,
                tagnr: i.tag_number,
            },
            Tag::Constructed(i) => TypeHeader {
                class: i.class,
                pc: PCT::Constructed,
                tagnr: i.tag_number,
            },
        }
    }
}

/// The header a node model carries.
pub open spec fn spec_header_of(t: TagV) -> TypeHeader {
    match t {
        TagV::Primitive { class, tag_number, .. } => TypeHeader {
            class,
            pc: PCT::Primitive,
            tagnr: tag_number,
        },
        TagV::Constructed { class, tag_number, .. } => TypeHeader {
            class,
            pc: PCT::Constructed,
            tagnr: tag_number,
        },
    }
}

} // verus!
