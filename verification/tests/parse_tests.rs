use asnom::common::{ClassT, PCT, ParseError, Tag, TagConstructed, TagPrimitive, TypeHeader};
use asnom::parse::{parse_length, parse_tag, parse_type_header, parse_uint};

#[test]
fn test_primitive() {
    let bytes: Vec<u8> = vec![2, 2, 255, 127];
    let result_tag: Tag = Tag::Primitive(TagPrimitive {
        class: ClassT::Universal,
        tag_number: 2u64,
        inner: vec![255, 127],
    });

    let (tag, used) = parse_tag(&bytes[..]).unwrap();

    assert_eq!(tag, result_tag);
    assert_eq!(used, bytes.len());
}

#[test]
fn test_constructed() {
    let bytes: Vec<u8> = vec![48, 14, 12, 12, 72, 101, 108, 108, 111, 32, 87, 111, 114, 108, 100, 33];
    let result_tag: Tag = Tag::Constructed(TagConstructed {
        class: ClassT::Universal,
        tag_number: 16u64,
        inner: vec![Tag::Primitive(TagPrimitive {
            class: ClassT::Universal,
            tag_number: 12,
            inner: vec![72, 101, 108, 108, 111, 32, 87, 111, 114, 108, 100, 33],
        })],
    });

    let (tag, used) = parse_tag(&bytes[..]).unwrap();

    assert_eq!(tag, result_tag);
    assert_eq!(used, bytes.len());
}

#[test]
fn test_long_length() {
    let mut bytes: Vec<u8> = vec![0x30, 0x82, 0x01, 0x01];
    let body: &[u8] = &[
        0x80, 0x0C, 0x4A, 0x75, 0x73, 0x74, 0x41, 0x4C, 0x6F, 0x6E, 0x67, 0x54, 0x61, 0x67, 0x81,
        0x81, 0xF0,
    ];
    bytes.extend_from_slice(body);
    let piece: &[u8] = &[
        0x4A, 0x75, 0x73, 0x74, 0x41, 0x4C, 0x6F, 0x6E, 0x67, 0x54, 0x61, 0x67,
    ];
    for _ in 0..20 {
        bytes.extend_from_slice(piece);
    }

    let result_type = TypeHeader {
        class: ClassT::Universal,
        pc: PCT::Constructed,
        tagnr: 16u64,
    };
    let (hdr, hdr_used) = parse_type_header(&bytes[..]).unwrap();
    assert_eq!(hdr, result_type);
    assert_eq!(hdr_used, 1);

    let result_len = 257u64;
    let (len, len_used) = parse_length(&bytes[1..]).unwrap();
    assert_eq!(len, result_len);
    assert_eq!(len_used, 3);
}

#[test]
fn parse_uint_big_endian() {
    assert_eq!(parse_uint(&[0x01, 0x01]), Ok(257));
    assert_eq!(parse_uint(&[0xFF]), Ok(255));
    assert_eq!(parse_uint(&[]), Ok(0));
    assert_eq!(
        parse_uint(&[0xFF, 0xFF, 0xFF, 0xFF, 0xFF, 0xFF, 0xFF, 0xFF]),
        Ok(u64::MAX)
    );
    assert_eq!(
        parse_uint(&[1, 2, 3, 4, 5, 6, 7, 8, 9]),
        Err(ParseError::LengthOverflow)
    );
}

#[test]
fn parse_extended_tag_number() {
    // Escape 31 in the low five bits, then base-128 groups for 128.
    let bytes: Vec<u8> = vec![0x1F, 0x81, 0x00, 0x00];
    let (tag, used) = parse_tag(&bytes[..]).unwrap();
    assert_eq!(used, 4);
    assert_eq!(
        tag,
        Tag::Primitive(TagPrimitive {
            class: ClassT::Universal,
            tag_number: 128,
            inner: vec![],
        })
    );
}

#[test]
fn truncated_constructed_input() {
    // A constructed node declaring length 255 with a single byte left.
    let bytes: Vec<u8> = vec![0x30, 0x81, 0xFF, 0x01];
    assert_eq!(parse_tag(&bytes[..]), Err(ParseError::TruncatedInput));
}

#[test]
fn indefinite_length_rejected() {
    let bytes: Vec<u8> = vec![0x04, 0x80];
    assert_eq!(
        parse_tag(&bytes[..]),
        Err(ParseError::IndefiniteLengthUnsupported)
    );
}

#[test]
fn length_overflow_rejected() {
    // Long form declaring nine length bytes: wider than the 64-bit model.
    let bytes: Vec<u8> = vec![0x04, 0x89, 1, 2, 3, 4, 5, 6, 7, 8, 9];
    assert_eq!(parse_tag(&bytes[..]), Err(ParseError::LengthOverflow));
}

#[test]
fn malformed_header_rejected() {
    // The input ends in the middle of a tag-number continuation.
    let bytes: Vec<u8> = vec![0x1F, 0x81];
    assert_eq!(parse_tag(&bytes[..]), Err(ParseError::MalformedHeader));
    assert_eq!(parse_tag(&[]), Err(ParseError::MalformedHeader));
}

#[test]
fn malformed_length_rejected() {
    // A constructed node whose declared length cuts its child short.
    let bytes: Vec<u8> = vec![0x30, 0x03, 0x04, 0x05, 0x00];
    assert_eq!(parse_tag(&bytes[..]), Err(ParseError::MalformedLength));
}

#[test]
fn empty_constructed_content() {
    // A zero-length constructed node parses to a node with no children.
    let bytes: Vec<u8> = vec![0x30, 0x00];
    let (tag, used) = parse_tag(&bytes[..]).unwrap();
    assert_eq!(used, 2);
    assert_eq!(
        tag,
        Tag::Constructed(TagConstructed {
            class: ClassT::Universal,
            tag_number: 16,
            inner: vec![],
        })
    );
}

#[test]
fn long_form_header_and_length() {
    // 0x30 0x82 0x01 0x01 followed by 257 content bytes.
    let mut bytes: Vec<u8> = vec![0x04, 0x82, 0x01, 0x01];
    bytes.extend_from_slice(&[0xAB; 257]);
    let (tag, used) = parse_tag(&bytes[..]).unwrap();
    assert_eq!(used, bytes.len());
    match tag {
        Tag::Primitive(p) => {
            assert_eq!(p.class, ClassT::Universal);
            assert_eq!(p.tag_number, 4);
            assert_eq!(p.inner.len(), 257);
        }
        Tag::Constructed(_) => panic!("expected a primitive node"),
    }
}

#[test]
fn escape_boundary_header_decode() {
    // Low five bits all ones plus a single continuation byte: tag 31.
    let (hdr, used) = parse_type_header(&[0x1F, 0x1F]).unwrap();
    assert_eq!(used, 2);
    assert_eq!(
        hdr,
        TypeHeader {
            class: ClassT::Universal,
            pc: PCT::Primitive,
            tagnr: 31,
        }
    );
}

#[test]
fn header_round_trip_large_tag_number() {
    let mut buf = Vec::<u8>::new();
    asnom::write::write_type(&mut buf, ClassT::Private, PCT::Constructed, 0xFFFF_FFFF);
    let (hdr, used) = parse_type_header(&buf[..]).unwrap();
    assert_eq!(used, buf.len());
    assert_eq!(
        hdr,
        TypeHeader {
            class: ClassT::Private,
            pc: PCT::Constructed,
            tagnr: 0xFFFF_FFFF,
        }
    );
}

#[test]
fn length_round_trip_large_value() {
    let mut buf = Vec::<u8>::new();
    asnom::write::write_length(&mut buf, 65536);
    assert_eq!(buf, vec![0x83, 0x01, 0x00, 0x00]);
    let (len, used) = parse_length(&buf[..]).unwrap();
    assert_eq!(len, 65536);
    assert_eq!(used, 4);
}
