//! The TLV parser: executable functions that read a type header, a
//! length, a big-endian unsigned integer, and a whole TLV node from the
//! front of a byte slice.  Each is proved to return exactly what the
//! spec-level decoder in `model` returns on the same bytes.

use vstd::prelude::*;
use vstd::slice::{slice_subrange, slice_to_vec};
use crate::common::{ClassT, PCT, TypeHeader, ParseError, Tag, TagPrimitive, TagConstructed, TagV};
use crate::common::{tag_view, tags_view, lemma_tags_view_push};
use crate::model::{base128_dec, header_dec, len_dec, tag_dec, children_dec, be_val, pow256};
use crate::model::{lemma_tag_dec_bounds, lemma_children_dec_step, lemma_pow256_mono};

verus! {

/// Reads a big-endian unsigned integer from the whole of `i`.  At most
/// eight bytes fit the 64-bit length model; more report an overflow.
pub fn parse_uint(i: &[u8]) -> (r: Result<u64, ParseError>)
    ensures
        i@.len() <= 8 ==> r == Ok::<u64, ParseError>(be_val(i@) as u64),
        i@.len() > 8 ==> r == Err::<u64, ParseError>(ParseError::LengthOverflow),
{
    if i.len() > 8 {
        return Err(ParseError::LengthOverflow);
    }
    let mut acc: u64 = 0;
    let mut j: usize = 0;
    while j < i.len()
        invariant
            j <= i@.len() <= 8,
            acc == be_val(i@.subrange(0, j as int)),
            acc < pow256(j as nat),
        decreases i@.len() - j,
    {
        let b = i[j];
        proof {
            lemma_pow256_mono(j as nat, 7);
            assert(pow256(7) == 0x100000000000000) by {
                reveal_with_fuel(pow256, 8);
            }
            assert(i@.subrange(0, j + 1).drop_last() =~= i@.subrange(0, j as int));
            assert(i@.subrange(0, j + 1).last() == i@[j as int]);
        }
        acc = acc * 256 + (b as u64);
        j += 1;
    }
    proof {
        assert(i@.subrange(0, j as int) =~= i@);
    }
    Ok(acc)
}

/// Reads a type header from the front of `i`: the class bits, the form
/// bit, and the tag number, following the extended base-128 escape when
/// the low five bits are all ones.  Returns the header and the count of
/// bytes consumed.
#[verifier::loop_isolation(false)]
pub fn parse_type_header(i: &[u8]) -> (r: Result<(TypeHeader, usize), ParseError>)
    ensures
        r matches Ok((h, n)) ==> header_dec(i@) == Ok::<(TypeHeader, nat), ParseError>((
            h,
            n as nat,
        )) && 1 <= n <= i@.len(),
        r matches Err(e) ==> header_dec(i@) == Err::<(TypeHeader, nat), ParseError>(e),
{
    if i.len() == 0 {
        return Err(ParseError::MalformedHeader);
    }
    let b = i[0];
    assert(b / 64 <= 3);
    let class = ClassT::from_u8(b / 64).unwrap();
    let pc = if (b / 32) % 2 == 1 {
        PCT::Constructed
    } else {
        PCT::Primitive
    };
    let low = b % 32;
    if low < 31 {
        return Ok((TypeHeader { class, pc, tagnr: low as u64 }, 1));
    }
    let mut pos: usize = 1;
    let mut acc: u64 = 0;
    loop
        invariant
            1 <= pos <= i@.len(),
            (match base128_dec(i@.subrange(pos as int, i@.len() as int), acc as nat) {
                Ok((n, c)) => base128_dec(i@.subrange(1, i@.len() as int), 0) == Ok::<
                    (u64, nat),
                    ParseError,
                >((n, (c + pos - 1) as nat)),
                Err(e) => base128_dec(i@.subrange(1, i@.len() as int), 0) == Err::<
                    (u64, nat),
                    ParseError,
                >(e),
            }),
        decreases i@.len() - pos,
    {
        if pos >= i.len() {
            return Err(ParseError::MalformedHeader);
        }
        let b2 = i[pos];
        let ghost suffix = i@.subrange(pos as int, i@.len() as int);
        proof {
            assert(suffix[0] == i@[pos as int]);
            assert(suffix.subrange(1, suffix.len() as int) =~= i@.subrange(
                pos + 1,
                i@.len() as int,
            ));
        }
        if acc >= 0x0200_0000_0000_0000u64 {
            proof {
                assert(acc * 128 >= 0x0200_0000_0000_0000u64 * 128) by (nonlinear_arith)
                    requires
                        acc >= 0x0200_0000_0000_0000u64,
                ;
            }
            return Err(ParseError::MalformedHeader);
        }
        proof {
            assert(acc * 128 <= (0x0200_0000_0000_0000u64 - 1) * 128) by (nonlinear_arith)
                requires
                    acc <= 0x0200_0000_0000_0000u64 - 1,
            ;
        }
        let low7 = b2 % 128;
        let acc2 = acc * 128 + (low7 as u64);
        if b2 < 128 {
            return Ok((TypeHeader { class, pc, tagnr: acc2 }, pos + 1));
        }
        acc = acc2;
        pos += 1;
    }
}

/// Reads a length field from the front of `i`: a short-form byte, or a
/// long-form byte count followed by that many big-endian bytes.  Returns
/// the length and the count of bytes consumed.
pub fn parse_length(i: &[u8]) -> (r: Result<(u64, usize), ParseError>)
    ensures
        r matches Ok((v, n)) ==> len_dec(i@) == Ok::<(u64, nat), ParseError>((v, n as nat)) && 1
            <= n <= i@.len(),
        r matches Err(e) ==> len_dec(i@) == Err::<(u64, nat), ParseError>(e),
{
    if i.len() == 0 {
        return Err(ParseError::TruncatedInput);
    }
    let b = i[0];
    if b < 128 {
        return Ok((b as u64, 1));
    }
    if b == 128 {
        return Err(ParseError::IndefiniteLengthUnsupported);
    }
    let k = (b - 128) as usize;
    if k > 8 {
        return Err(ParseError::LengthOverflow);
    }
    if i.len() - 1 < k {
        return Err(ParseError::TruncatedInput);
    }
    let bytes = slice_subrange(i, 1, 1 + k);
    match parse_uint(bytes) {
        Ok(v) => Ok((v, 1 + k)),
        Err(e) => Err(e),
    }
}

/// Parses one TLV node from the front of `i`, returning the node and the
/// count of bytes consumed; the rest of the slice is left for the
/// caller.  A primitive node takes its content verbatim; a constructed
/// node parses children until its declared content is exactly consumed.
#[verifier::loop_isolation(false)]
pub fn parse_tag(i: &[u8]) -> (r: Result<(Tag, usize), ParseError>)
    ensures
        r matches Ok((t, n)) ==> tag_dec(i@) == Ok::<(TagV, nat), ParseError>((t@, n as nat)) && n
            <= i@.len(),
        r matches Err(e) ==> tag_dec(i@) == Err::<(TagV, nat), ParseError>(e),
    decreases i@.len(),
{
    let (hdr, hn) = match parse_type_header(i) {
        Ok(x) => x,
        Err(e) => return Err(e),
    };
    let rest = slice_subrange(i, hn, i.len());
    let (len, ln) = match parse_length(rest) {
        Ok(x) => x,
        Err(e) => return Err(e),
    };
    let start = hn + ln;
    let remaining = i.len() - start;
    if len > remaining as u64 {
        return Err(ParseError::TruncatedInput);
    }
    let clen = len as usize;
    let content = slice_subrange(i, start, start + clen);
    match hdr.pc {
        PCT::Primitive => {
            let v = slice_to_vec(content);
            let t = Tag::Primitive(TagPrimitive { class: hdr.class, tag_number: hdr.tagnr, inner: v });
            Ok((t, start + clen))
        },
        PCT::Constructed => {
            let mut children: Vec<Tag> = Vec::new();
            let mut cur: usize = 0;
            proof {
                assert(content@.subrange(0, clen as int) =~= content@);
                match children_dec(content@) {
                    Ok(rest_v) => {
                        assert(tags_view(children@) + rest_v =~= rest_v);
                    },
                    Err(_) => {},
                }
            }
            loop
                invariant
                    cur <= clen,
                    (match children_dec(content@.subrange(cur as int, clen as int)) {
                        Ok(rest_v) => children_dec(content@) == Ok::<Seq<TagV>, ParseError>(
                            tags_view(children@) + rest_v,
                        ),
                        Err(e) => children_dec(content@) == Err::<Seq<TagV>, ParseError>(e),
                    }),
                decreases clen - cur,
            {
                if cur >= clen {
                    break ;
                }
                let sub = slice_subrange(content, cur, clen);
                let ghost suffix = content@.subrange(cur as int, clen as int);
                match parse_tag(sub) {
                    Err(e) => {
                        match e {
                            ParseError::TruncatedInput => return Err(ParseError::MalformedLength),
                            _ => return Err(e),
                        }
                    },
                    Ok((t, n)) => {
                        let ghost prev = children@;
                        let ghost tv = tag_view(t);
                        proof {
                            lemma_tag_dec_bounds(suffix);
                            lemma_children_dec_step(suffix);
                            assert(suffix.subrange(n as int, suffix.len() as int) =~= content@
                                .subrange(cur + n, clen as int));
                            lemma_tags_view_push(prev, t);
                        }
                        children.push(t);
                        cur = cur + n;
                        proof {
                            match children_dec(content@.subrange(cur as int, clen as int)) {
                                Ok(r2) => {
                                    assert(tags_view(prev) + (seq![tv] + r2) =~= tags_view(
                                        children@,
                                    ) + r2);
                                },
                                Err(_) => {},
                            }
                        }
                    },
                }
            }
            proof {
                assert(content@.subrange(cur as int, clen as int) =~= Seq::<u8>::empty());
                reveal_with_fuel(children_dec, 1);
                assert(tags_view(children@) + Seq::<TagV>::empty() =~= tags_view(children@));
            }
            let t = Tag::Constructed(
                TagConstructed { class: hdr.class, tag_number: hdr.tagnr, inner: children },
            );
            Ok((t, start + clen))
        },
    }
}

} // verus!
