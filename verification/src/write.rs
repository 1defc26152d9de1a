//! The TLV writer: executable functions that append a type header, a
//! length field, and a whole TLV tree to an output buffer.  Each is
//! proved to append exactly the bytes of the spec-level encoding in
//! `model`.

use vstd::prelude::*;
use crate::common::{ClassT, PCT, TagV};
use crate::model::{base128_hi, be_bytes, be_len, header_enc, len_enc, tag_enc, children_enc};
use crate::model::lemma_be_len_le_8;
use crate::structure::{StructureTag, PL, sts_view, lemma_sts_view};

verus! {

/// Appends the base-128 continuation groups of `m`, most-significant
/// first, each with its high bit set.
fn push_base128_hi(buf: &mut Vec<u8>, m: u64)
    ensures
        final(buf)@ == old(buf)@ + base128_hi(m as nat),
    decreases m,
{
    if m == 0 {
        assert(buf@ =~= buf@ + base128_hi(0));
        return ;
    }
    push_base128_hi(buf, m / 128);
    buf.push((128 + m % 128) as u8);
    assert(buf@ =~= old(buf)@ + base128_hi(m as nat));
}

/// Appends the low `k` big-endian bytes of `n`, most-significant first.
pub(crate) fn push_be(buf: &mut Vec<u8>, n: u64, k: u8)
    ensures
        final(buf)@ == old(buf)@ + be_bytes(n as nat, k as nat),
    decreases k,
{
    if k == 0 {
        assert(buf@ =~= buf@ + be_bytes(n as nat, 0));
        return ;
    }
    push_be(buf, n / 256, k - 1);
    buf.push((n % 256) as u8);
    assert(buf@ =~= old(buf)@ + be_bytes(n as nat, k as nat));
}

/// The minimal count of big-endian bytes that hold `n`; at least one,
/// at most eight.
pub(crate) fn be_len_of(n: u64) -> (k: u8)
    ensures
        k == be_len(n as nat),
        1 <= k <= 8,
    decreases n,
{
    proof {
        lemma_be_len_le_8(n as nat);
    }
    if n < 256 {
        1
    } else {
        1 + be_len_of(n / 256)
    }
}

/// Appends the encoding of a type header: the class bits, the form bit,
/// and the tag number, escaping to the base-128 continuation form when
/// the tag number exceeds 30.
pub fn write_type(buf: &mut Vec<u8>, class: ClassT, structure: PCT, id: u64)
    ensures
        final(buf)@ == old(buf)@ + header_enc(class, structure, id),
{
    let lead = ClassT::to_u8(class) * 64 + PCT::to_u8(structure) * 32;
    if id <= 30 {
        buf.push(lead + id as u8);
        assert(buf@ =~= old(buf)@ + header_enc(class, structure, id));
    } else {
        buf.push(lead + 31);
        push_base128_hi(buf, id / 128);
        buf.push((id % 128) as u8);
        assert(buf@ =~= old(buf)@ + header_enc(class, structure, id));
    }
}

/// Appends the encoding of a length: one byte below 128, else the
/// minimal big-endian long form.  The form is chosen by the value
/// alone, so the output is canonical.
pub fn write_length(buf: &mut Vec<u8>, length: usize)
    ensures
        final(buf)@ == old(buf)@ + len_enc(length as nat),
{
    if length < 128 {
        buf.push(length as u8);
        assert(buf@ =~= old(buf)@ + len_enc(length as nat));
    } else {
        let k = be_len_of(length as u64);
        buf.push(128 + k);
        push_be(buf, length as u64, k);
        assert(buf@ =~= old(buf)@ + len_enc(length as nat));
    }
}

/// Appends the full encoding of one TLV node: header, length, content.
/// The children of a constructed node are first serialized into a
/// scratch buffer, since their encoded length must be written before
/// them.
#[verifier::loop_isolation(false)]
fn encode_ref_into(buf: &mut Vec<u8>, tag: &StructureTag)
    ensures
        final(buf)@ == old(buf)@ + tag_enc(tag@),
    decreases tag,
{
    match &tag.payload {
        PL::P(v) => {
            write_type(buf, tag.class, PCT::Primitive, tag.id);
            write_length(buf, v.len());
            let mut j: usize = 0;
            while j < v.len()
                invariant
                    j <= v@.len(),
                    buf@ == old(buf)@ + header_enc(tag.class, PCT::Primitive, tag.id) + len_enc(
                        v@.len(),
                    ) + v@.subrange(0, j as int),
                decreases v@.len() - j,
            {
                buf.push(v[j]);
                j += 1;
                proof {
                    assert(v@.subrange(0, j as int) =~= v@.subrange(0, j - 1).push(v@[j - 1]));
                    assert(buf@ =~= old(buf)@ + header_enc(tag.class, PCT::Primitive, tag.id)
                        + len_enc(v@.len()) + v@.subrange(0, j as int));
                }
            }
            proof {
                assert(v@.subrange(0, j as int) =~= v@);
                assert(buf@ =~= old(buf)@ + tag_enc(tag@));
            }
        },
        PL::C(ts) => {
            let ghost cs = sts_view(ts@);
            proof {
                lemma_sts_view(ts@);
                assert(cs.subrange(0, ts@.len() as int) =~= cs);
            }
            let mut tmp: Vec<u8> = Vec::new();
            let mut k: usize = 0;
            while k < ts.len()
                invariant
                    k <= ts@.len(),
                    tmp@ + children_enc(cs.subrange(k as int, ts@.len() as int)) == children_enc(
                        cs,
                    ),
                decreases ts@.len() - k,
            {
                let ghost pre = tmp@;
                encode_ref_into(&mut tmp, &ts[k]);
                proof {
                    let sub = cs.subrange(k as int, ts@.len() as int);
                    assert(sub.subrange(1, sub.len() as int) =~= cs.subrange(
                        k + 1,
                        ts@.len() as int,
                    ));
                    assert((pre + tag_enc(cs[k as int])) + children_enc(
                        cs.subrange(k + 1, ts@.len() as int),
                    ) =~= pre + (tag_enc(cs[k as int]) + children_enc(
                        cs.subrange(k + 1, ts@.len() as int),
                    )));
                }
                k += 1;
            }
            proof {
                assert(cs.subrange(k as int, ts@.len() as int) =~= Seq::<TagV>::empty());
                assert(tmp@ + Seq::<u8>::empty() =~= tmp@);
            }
            write_type(buf, tag.class, PCT::Constructed, tag.id);
            write_length(buf, tmp.len());
            buf.append(&mut tmp);
            proof {
                assert(buf@ =~= old(buf)@ + tag_enc(tag@));
            }
        },
    }
}

/// Serializes a TLV tree into the output buffer, appending and never
/// replacing bytes.  Encoding is total over the in-memory model: it
/// cannot fail.
pub fn encode_into(buf: &mut Vec<u8>, tag: StructureTag)
    ensures
        final(buf)@ == old(buf)@ + tag_enc(tag@),
{
    encode_ref_into(buf, &tag);
}

} // verus!
