use asnom::common::{ClassT, PCT, Tag, TagPrimitive, TypeHeader};
use asnom::specific::SpecificTag;
use asnom::structures::ASNTag;
use asnom::structures::null::Null;
use asnom::structures::sequence::{SequenceOf, SetOf};
use asnom::structure::PL;
use asnom::traits::IntoBER;
use asnom::universal::{UniversalNr, UniversalPayload, UniversalTag};

#[test]
fn test_u32() {
    let var = 35148u32;

    let tag = var.into_ber(ClassT::Universal, 2);

    println!("{:?}", tag);
    assert_eq!(
        tag,
        Tag::Primitive(TagPrimitive {
            class: ClassT::Universal,
            tag_number: 2,
            inner: vec![0b10001001, 0b01001100],
        })
    );
}

#[test]
fn class_codes() {
    assert_eq!(ClassT::from_u8(0), Some(ClassT::Universal));
    assert_eq!(ClassT::from_u8(1), Some(ClassT::Application));
    assert_eq!(ClassT::from_u8(2), Some(ClassT::ContextSpecific));
    assert_eq!(ClassT::from_u8(3), Some(ClassT::Private));
    assert_eq!(ClassT::from_u8(4), None);
    assert_eq!(ClassT::to_u8(ClassT::ContextSpecific), 2);
}

#[test]
fn form_codes() {
    assert_eq!(PCT::from_u8(0), Some(PCT::Primitive));
    assert_eq!(PCT::from_u8(1), Some(PCT::Constructed));
    assert_eq!(PCT::from_u8(2), None);
    assert_eq!(PCT::to_u8(PCT::Constructed), 1);
}

#[test]
fn header_of_tag() {
    let tag = Tag::Primitive(TagPrimitive {
        class: ClassT::Application,
        tag_number: 7,
        inner: vec![1],
    });
    assert_eq!(
        TypeHeader::from_tag(&tag),
        TypeHeader {
            class: ClassT::Application,
            pc: PCT::Primitive,
            tagnr: 7,
        }
    );
}

#[test]
fn specific_wrap_keeps_fields() {
    let t = SpecificTag::wrap(ClassT::ContextSpecific, 9, PCT::Constructed, 41u8);
    assert_eq!(t.class, ClassT::ContextSpecific);
    assert_eq!(t.id, 9);
    assert_eq!(t.structure, PCT::Constructed);
    assert_eq!(t.inner, 41);
}

struct Marker;

impl UniversalPayload for Marker {
    fn id(&self) -> UniversalNr {
        UniversalNr::INTEGER
    }
}

#[test]
fn universal_wrap_keeps_payload() {
    let t = UniversalTag::wrap(Marker);
    assert_eq!(t.inner.id(), UniversalNr::INTEGER);
}

#[test]
fn null_into_structure() {
    let n = Null::default();
    let st = n.into_structure();
    assert_eq!(st.class, ClassT::Universal);
    assert_eq!(st.id, 5);
    assert_eq!(st.payload, PL::P(vec![]));
}

#[test]
fn sequence_of_into_structure() {
    let s = SequenceOf::<Null> {
        inner: vec![Null::default(), Null::default()],
        ..Default::default()
    };
    let st = s.into_structure();
    assert_eq!(st.class, ClassT::Universal);
    assert_eq!(st.id, 16);
    match st.payload {
        PL::C(children) => {
            assert_eq!(children.len(), 2);
            assert_eq!(children[0].id, 5);
            assert_eq!(children[0].payload, PL::P(vec![]));
        }
        PL::P(_) => panic!("expected a constructed payload"),
    }
}

#[test]
fn set_of_into_structure() {
    let s = SetOf::<Null> {
        inner: vec![Null::default()],
        ..Default::default()
    };
    let st = s.into_structure();
    assert_eq!(st.id, 17);
    match st.payload {
        PL::C(children) => assert_eq!(children.len(), 1),
        PL::P(_) => panic!("expected a constructed payload"),
    }
}

#[test]
fn negative_integer_content() {
    let tag = asnom::structures::Tag::Integer(asnom::structures::Integer {
        inner: -1,
        ..Default::default()
    });
    let mut buf = Vec::<u8>::new();
    asnom::write::encode_into(&mut buf, tag.into_structure());
    assert_eq!(buf, vec![0x02, 0x01, 0xFF]);
}
