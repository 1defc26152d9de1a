use asnom::common::{ClassT, PCT, Tag};
use asnom::structure::{StructureTag, PL};
use asnom::structures::sequence::Sequence;
use asnom::structures::octetstring::OctetString;
use asnom::structures::{ASNTag, Integer};
use asnom::write::{encode_into, write_length, write_type};

#[test]
fn encode_simple_tag() {
    let tag = asnom::structures::Tag::Integer(Integer {
        inner: 1616,
        ..Default::default()
    });

    let mut buf = Vec::<u8>::new();
    encode_into(&mut buf, tag.into_structure());

    assert_eq!(buf, vec![0x2, 0x2, 0x06, 0x50]);
}

#[test]
fn encode_constructed_tag() {
    let tag = asnom::structures::Tag::Sequence(Sequence {
        inner: vec![asnom::structures::Tag::OctetString(OctetString {
            inner: String::from("Hello World!").into_bytes(),
            ..Default::default()
        })],
        ..Default::default()
    });

    let mut buf = Vec::<u8>::new();
    encode_into(&mut buf, tag.into_structure());

    assert_eq!(
        buf,
        vec![48, 14, 4, 12, 72, 101, 108, 108, 111, 32, 87, 111, 114, 108, 100, 33]
    );
}

#[test]
fn length_form_boundaries() {
    let mut buf = Vec::<u8>::new();
    write_length(&mut buf, 127);
    assert_eq!(buf, vec![0x7F]);

    let mut buf = Vec::<u8>::new();
    write_length(&mut buf, 128);
    assert_eq!(buf, vec![0x81, 0x80]);

    let mut buf = Vec::<u8>::new();
    write_length(&mut buf, 256);
    assert_eq!(buf, vec![0x82, 0x01, 0x00]);
}

#[test]
fn extended_tag_number_boundaries() {
    // Tag number 30 still fits the low five bits of the header byte.
    let mut buf = Vec::<u8>::new();
    write_type(&mut buf, ClassT::Universal, PCT::Primitive, 30);
    assert_eq!(buf, vec![0b0001_1110]);

    // Tag number 31 escapes to a continuation byte.
    let mut buf = Vec::<u8>::new();
    write_type(&mut buf, ClassT::Universal, PCT::Primitive, 31);
    assert_eq!(buf, vec![0b0001_1111, 0x1F]);

    // Tag number 128 takes two continuation bytes.
    let mut buf = Vec::<u8>::new();
    write_type(&mut buf, ClassT::Universal, PCT::Primitive, 128);
    assert_eq!(buf, vec![0b0001_1111, 0x81, 0x00]);
}

#[test]
fn write_type_classes_and_forms() {
    let mut buf = Vec::<u8>::new();
    write_type(&mut buf, ClassT::Application, PCT::Primitive, 1);
    assert_eq!(buf, vec![0b0100_0001]);

    let mut buf = Vec::<u8>::new();
    write_type(&mut buf, ClassT::ContextSpecific, PCT::Constructed, 3);
    assert_eq!(buf, vec![0b1010_0011]);

    let mut buf = Vec::<u8>::new();
    write_type(&mut buf, ClassT::Private, PCT::Constructed, 0);
    assert_eq!(buf, vec![0b1110_0000]);
}

#[test]
fn encode_appends_without_replacing() {
    let mut buf: Vec<u8> = vec![0xAA, 0xBB];
    let tag = StructureTag {
        class: ClassT::Universal,
        id: 5,
        payload: PL::P(Vec::new()),
    };
    encode_into(&mut buf, tag);
    assert_eq!(buf, vec![0xAA, 0xBB, 0x05, 0x00]);
}

fn tag_to_structure(tag: Tag) -> StructureTag {
    match tag {
        Tag::Primitive(p) => StructureTag {
            class: p.class,
            id: p.tag_number,
            payload: PL::P(p.inner),
        },
        Tag::Constructed(c) => StructureTag {
            class: c.class,
            id: c.tag_number,
            payload: PL::C(c.inner.into_iter().map(tag_to_structure).collect()),
        },
    }
}

#[test]
fn round_trip_nested_tree() {
    // A constructed node with a primitive and a nested constructed child.
    let tree = StructureTag {
        class: ClassT::ContextSpecific,
        id: 40,
        payload: PL::C(vec![
            StructureTag {
                class: ClassT::Universal,
                id: 2,
                payload: PL::P(vec![0x06, 0x50]),
            },
            StructureTag {
                class: ClassT::Universal,
                id: 16,
                payload: PL::C(vec![StructureTag {
                    class: ClassT::Private,
                    id: 4660,
                    payload: PL::P(vec![1, 2, 3]),
                }]),
            },
        ]),
    };

    let mut buf = Vec::<u8>::new();
    encode_into(&mut buf, tree);
    let (parsed, used) = asnom::parse::parse_tag(&buf[..]).unwrap();
    assert_eq!(used, buf.len());

    // Re-encoding the freshly parsed node reproduces the bytes exactly.
    let mut again = Vec::<u8>::new();
    encode_into(&mut again, tag_to_structure(parsed));
    assert_eq!(again, buf);
}

#[test]
fn reencode_parsed_input_exactly() {
    let bytes: Vec<u8> = vec![48, 14, 12, 12, 72, 101, 108, 108, 111, 32, 87, 111, 114, 108, 100, 33];
    let (parsed, used) = asnom::parse::parse_tag(&bytes[..]).unwrap();
    assert_eq!(used, bytes.len());

    let mut again = Vec::<u8>::new();
    encode_into(&mut again, tag_to_structure(parsed));
    assert_eq!(again, bytes);
}
