//! The mathematical model of the BER wire format: spec-level encoding and
//! decoding of headers, lengths and whole TLV nodes.  The executable
//! parser and writer are proved to agree with these functions, and the
//! round-trip laws in `laws` relate the two directions.

use vstd::prelude::*;
use crate::common::{ClassT, PCT, TypeHeader, ParseError, TagV};
use crate::common::{class_to_u8_spec, class_of_bits, pct_to_u8_spec};

verus! {

// ---------------------------------------------------------------------
// Powers of the two radixes the wire format uses.

/// `128^k`: the radix of the extended tag-number encoding.
pub open spec fn pow128(k: nat) -> nat
    decreases k,
{
    if k == 0 {
        1
    } else {
        128 * pow128((k - 1) as nat)
    }
}

/// `256^k`: the radix of the long-form length encoding.
pub open spec fn pow256(k: nat) -> nat
    decreases k,
{
    if k == 0 {
        1
    } else {
        256 * pow256((k - 1) as nat)
    }
}

/// Powers of 256 grow with the exponent.
pub proof fn lemma_pow256_mono(a: nat, b: nat)
    requires
        a <= b,
    ensures
        pow256(a) <= pow256(b),
    decreases b,
{
    if a < b {
        lemma_pow256_mono(a, (b - 1) as nat);
    }
}

// ---------------------------------------------------------------------
// Base-128 continuation groups (extended tag numbers).

/// The base-128 groups of `m`, most-significant first, each with the
/// continuation (high) bit set; empty when `m` is zero, so the encoding
/// of a tag number never has a leading zero group.
pub open spec fn base128_hi(m: nat) -> Seq<u8>
    decreases m,
{
    if m == 0 {
        Seq::empty()
    } else {
        base128_hi(m / 128) + seq![(128 + m % 128) as u8]
    }
}

/// The extended encoding of tag number `n`: the minimal base-128 groups,
/// most-significant first, continuation bit set on every byte but the
/// last.
pub open spec fn base128(n: nat) -> Seq<u8> {
    base128_hi(n / 128) + seq![(n % 128) as u8]
}

/// One step of decoding a base-128 continuation: `acc` is the value of
/// the groups read so far.  Fails when the input ends before a byte with
/// its high bit clear, or when the value outgrows the 64-bit tag-number
/// model.
pub open spec fn base128_dec(s: Seq<u8>, acc: nat) -> Result<(u64, nat), ParseError>
    decreases s.len(),
{
    if s.len() == 0 {
        Err(ParseError::MalformedHeader)
    } else {
        let b = s[0];
        let v = (acc * 128 + (b % 128)) as nat;
        if v > u64::MAX {
            Err(ParseError::MalformedHeader)
        } else if b < 128 {
            Ok((v as u64, 1))
        } else {
            match base128_dec(s.subrange(1, s.len() as int), v) {
                Ok((n, c)) => Ok((n, (c + 1) as nat)),
                Err(e) => Err(e),
            }
        }
    }
}

// ---------------------------------------------------------------------
// The type header.

/// The encoding of a type header: class in bits 7-6, form in bit 5, and
/// the tag number either directly in the low five bits or as the escape
/// value 31 followed by its base-128 groups.
pub open spec fn header_enc(class: ClassT, pc: PCT, tagnr: u64) -> Seq<u8> {
    let lead = class_to_u8_spec(class) * 64 + pct_to_u8_spec(pc) * 32;
    if tagnr <= 30 {
        seq![(lead + tagnr) as u8]
    } else {
        seq![(lead + 31) as u8] + base128(tagnr as nat)
    }
}

/// The decoding of a type header from the front of `s`, with the count
/// of bytes it consumes.
pub open spec fn header_dec(s: Seq<u8>) -> Result<(TypeHeader, nat), ParseError> {
    if s.len() == 0 {
        Err(ParseError::MalformedHeader)
    } else {
        let b = s[0];
        let class = class_of_bits(b / 64);
        let pc = if (b / 32) % 2 == 1 {
            PCT::Constructed
        } else {
            PCT::Primitive
        };
        let low = b % 32;
        if low < 31 {
            Ok((TypeHeader { class, pc, tagnr: low as u64 }, 1))
        } else {
            match base128_dec(s.subrange(1, s.len() as int), 0) {
                Ok((n, c)) => Ok((TypeHeader { class, pc, tagnr: n }, (c + 1) as nat)),
                Err(e) => Err(e),
            }
        }
    }
}

// ---------------------------------------------------------------------
// The length field.

/// The count of big-endian bytes needed to hold `n`; at least one.
pub open spec fn be_len(n: nat) -> nat
    decreases n,
{
    if n < 256 {
        1
    } else {
        1 + be_len(n / 256)
    }
}

/// The low `k` bytes of `n`, big-endian, most-significant first.
pub open spec fn be_bytes(n: nat, k: nat) -> Seq<u8>
    decreases k,
{
    if k == 0 {
        Seq::empty()
    } else {
        be_bytes(n / 256, (k - 1) as nat) + seq![(n % 256) as u8]
    }
}

/// The value of a big-endian byte sequence.
pub open spec fn be_val(s: Seq<u8>) -> nat
    decreases s.len(),
{
    if s.len() == 0 {
        0
    } else {
        (be_val(s.drop_last()) * 256 + s.last()) as nat
    }
}

/// A value below `256^k` takes at most `k` big-endian bytes.
pub proof fn lemma_be_len_le(n: nat, k: nat)
    requires
        1 <= k,
        n < pow256(k),
    ensures
        be_len(n) <= k,
    decreases k,
{
    if n >= 256 {
        assert(pow256(1) == 256) by {
            reveal_with_fuel(pow256, 2);
        }
        lemma_be_len_le(n / 256, (k - 1) as nat);
    }
}

/// A 64-bit value takes at most eight big-endian bytes.
pub proof fn lemma_be_len_le_8(n: nat)
    requires
        n <= u64::MAX,
    ensures
        be_len(n) <= 8,
{
    assert(pow256(8) == 0x10000000000000000) by {
        reveal_with_fuel(pow256, 9);
    }
    lemma_be_len_le(n, 8);
}

/// The encoding of a length: a single byte below 128 (short form), or
/// `0x80 | k` followed by the minimal `k` big-endian bytes (long form).
/// The choice is determined solely by the value, so the output is
/// canonical.
pub open spec fn len_enc(n: nat) -> Seq<u8> {
    if n < 128 {
        seq![n as u8]
    } else {
        seq![(128 + be_len(n)) as u8] + be_bytes(n, be_len(n))
    }
}

/// The decoding of a length from the front of `s`, with the count of
/// bytes it consumes.  A leading byte of exactly `0x80` is the
/// unsupported indefinite form; a long form announcing more than eight
/// bytes does not fit the 64-bit length model.
pub open spec fn len_dec(s: Seq<u8>) -> Result<(u64, nat), ParseError> {
    if s.len() == 0 {
        Err(ParseError::TruncatedInput)
    } else {
        let b = s[0];
        if b < 128 {
            Ok((b as u64, 1))
        } else if b == 128 {
            Err(ParseError::IndefiniteLengthUnsupported)
        } else {
            let k = (b - 128) as nat;
            if k > 8 {
                Err(ParseError::LengthOverflow)
            } else if s.len() < 1 + k {
                Err(ParseError::TruncatedInput)
            } else {
                Ok((be_val(s.subrange(1, 1 + k as int)) as u64, 1 + k))
            }
        }
    }
}

// ---------------------------------------------------------------------
// Whole TLV nodes.

/// The encoding of a TLV node: header, length of the content, then the
/// content itself — opaque bytes for a primitive node, the concatenated
/// encodings of the children for a constructed one.
pub open spec fn tag_enc(t: TagV) -> Seq<u8>
    decreases t, 0int,
{
    match t {
        TagV::Primitive { class, tag_number, content } =>
            header_enc(class, PCT::Primitive, tag_number) + len_enc(content.len()) + content,
        TagV::Constructed { class, tag_number, children } => {
            let inner = children_enc(children);
            header_enc(class, PCT::Constructed, tag_number) + len_enc(inner.len()) + inner
        },
    }
}

/// The concatenated encodings of a sequence of TLV nodes.
pub open spec fn children_enc(ts: Seq<TagV>) -> Seq<u8>
    decreases ts, 1int,
{
    if ts.len() == 0 {
        Seq::empty()
    } else {
        tag_enc(ts[0]) + children_enc(ts.subrange(1, ts.len() as int))
    }
}

/// The decoding of one TLV node from the front of `s`, with the count of
/// bytes it consumes: header, length, then exactly `length` bytes of
/// content, parsed recursively when the header says constructed.
pub open spec fn tag_dec(s: Seq<u8>) -> Result<(TagV, nat), ParseError>
    decreases s.len(), 0int,
{
    match header_dec(s) {
        Err(e) => Err(e),
        Ok((hdr, hn)) => match len_dec(s.subrange(hn as int, s.len() as int)) {
            Err(e) => Err(e),
            Ok((len, ln)) => {
                let start = hn + ln;
                if s.len() < start + len {
                    Err(ParseError::TruncatedInput)
                } else {
                    let content = s.subrange(start as int, (start + len) as int);
                    match hdr.pc {
                        PCT::Primitive => Ok((
                            TagV::Primitive {
                                class: hdr.class,
                                tag_number: hdr.tagnr,
                                content,
                            },
                            (start + len) as nat,
                        )),
                        PCT::Constructed => match children_dec(content) {
                            Ok(cs) => Ok((
                                TagV::Constructed {
                                    class: hdr.class,
                                    tag_number: hdr.tagnr,
                                    children: cs,
                                },
                                (start + len) as nat,
                            )),
                            Err(e) => Err(e),
                        },
                    }
                }
            },
        },
    }
}

/// The decoding of a sequence of TLV nodes that must consume `s`
/// exactly.  A child that runs past the end of `s` reports that the
/// enclosing declared length was not exactly filled by its children.
/// A node consumes at least one byte and at most the input, so the
/// clamped offset below equals the consumed count (`lemma_tag_dec_bounds`)
/// and only guards the termination measure.
pub open spec fn children_dec(s: Seq<u8>) -> Result<Seq<TagV>, ParseError>
    decreases s.len(), 1int,
{
    if s.len() == 0 {
        Ok(Seq::empty())
    } else {
        match tag_dec(s) {
            Err(ParseError::TruncatedInput) => Err(ParseError::MalformedLength),
            Err(e) => Err(e),
            Ok((t, n)) => {
                let step = if n < 1 {
                    1int
                } else if n > s.len() {
                    s.len() as int
                } else {
                    n as int
                };
                match children_dec(s.subrange(step, s.len() as int)) {
                    Ok(rest) => Ok(seq![t] + rest),
                    Err(e) => Err(e),
                }
            },
        }
    }
}

/// Whether a node model stays within the 64-bit length model: the
/// content of every primitive node, and the encoded children of every
/// constructed node, fit a 64-bit length.  Every tree built from
/// in-memory vectors satisfies this; only unboundedly large ghost trees
/// fall outside it.
pub open spec fn encodable(t: TagV) -> bool
    decreases t, 0int,
{
    match t {
        TagV::Primitive { content, .. } => content.len() <= u64::MAX,
        TagV::Constructed { children, .. } => children_enc(children).len() <= u64::MAX
            && all_encodable(children),
    }
}

/// Whether every node of a sequence is `encodable`.
pub open spec fn all_encodable(ts: Seq<TagV>) -> bool
    decreases ts, 1int,
{
    if ts.len() == 0 {
        true
    } else {
        encodable(ts[0]) && all_encodable(ts.subrange(1, ts.len() as int))
    }
}

// ---------------------------------------------------------------------
// Bounds on the decoders' consumed counts.

/// A base-128 continuation consumes at least one byte and at most the
/// input.
pub proof fn lemma_base128_dec_bounds(s: Seq<u8>, acc: nat)
    ensures
        base128_dec(s, acc) matches Ok((n, c)) ==> 1 <= c <= s.len(),
    decreases s.len(),
{
    if s.len() > 0 {
        lemma_base128_dec_bounds(s.subrange(1, s.len() as int), (acc * 128 + (s[0] % 128)) as nat);
    }
}

/// A header consumes at least one byte and at most the input.
pub proof fn lemma_header_dec_bounds(s: Seq<u8>)
    ensures
        header_dec(s) matches Ok((h, c)) ==> 1 <= c <= s.len(),
{
    if s.len() > 0 {
        lemma_base128_dec_bounds(s.subrange(1, s.len() as int), 0);
    }
}

/// A length field consumes at least one byte and at most the input.
pub proof fn lemma_len_dec_bounds(s: Seq<u8>)
    ensures
        len_dec(s) matches Ok((n, c)) ==> 1 <= c <= s.len(),
{
}

/// A TLV node consumes at least two bytes and at most the input.
pub proof fn lemma_tag_dec_bounds(s: Seq<u8>)
    ensures
        tag_dec(s) matches Ok((t, n)) ==> 2 <= n <= s.len(),
{
    lemma_header_dec_bounds(s);
    match header_dec(s) {
        Ok((hdr, hn)) => {
            lemma_len_dec_bounds(s.subrange(hn as int, s.len() as int));
        },
        Err(_) => {},
    }
}

/// The step `children_dec` takes after a successful child is exactly the
/// child's consumed count.
pub proof fn lemma_children_dec_step(s: Seq<u8>)
    ensures
        tag_dec(s) matches Ok((t, n)) ==> children_dec(s) == (
            match children_dec(s.subrange(n as int, s.len() as int)) {
                Ok(rest) => Ok::<Seq<TagV>, ParseError>(seq![t] + rest),
                Err(e) => Err::<Seq<TagV>, ParseError>(e),
            }
        ),
{
    lemma_tag_dec_bounds(s);
}

} // verus!
