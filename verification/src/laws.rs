//! The laws of the codec: the writer and the parser are exact inverses.
//! `lemma_round_trip` states that parsing the encoding of any node (with
//! anything behind it) yields that node and consumes exactly its
//! encoding; `lemma_reencode_exact` restates it from the byte side: on
//! canonically encoded input, re-encoding a freshly parsed node
//! reproduces the input bytes.

use vstd::prelude::*;
use crate::common::{ClassT, PCT, TypeHeader, ParseError, TagV};
use crate::model::{pow128, pow256, base128_hi, base128, base128_dec, header_enc, header_dec,
    be_len, be_bytes, be_val, len_enc, len_dec, tag_enc, children_enc, tag_dec, children_dec,
    encodable, all_encodable, lemma_be_len_le_8, lemma_tag_dec_bounds, lemma_children_dec_step};

verus! {

/// A value fits the count of bytes its minimal big-endian form takes.
proof fn lemma_be_len_lt(n: nat)
    ensures
        n < pow256(be_len(n)),
    decreases n,
{
    if n < 256 {
        assert(pow256(1) == 256) by {
            reveal_with_fuel(pow256, 2);
        }
    } else {
        lemma_be_len_lt(n / 256);
    }
}

/// Reading back `k` big-endian bytes of a value below `256^k` yields the
/// value.
proof fn lemma_be_bytes_val(n: nat, k: nat)
    requires
        n < pow256(k),
    ensures
        be_bytes(n, k).len() == k,
        be_val(be_bytes(n, k)) == n,
    decreases k,
{
    if k > 0 {
        lemma_be_bytes_val(n / 256, (k - 1) as nat);
        let x = be_bytes(n / 256, (k - 1) as nat);
        assert((x + seq![(n % 256) as u8]).drop_last() =~= x);
        assert((x + seq![(n % 256) as u8]).last() == (n % 256) as u8);
    }
}

/// Decoding the encoding of a length, with anything behind it, yields
/// the length and consumes exactly the encoding.
proof fn lemma_len_round_trip(n: u64, rest: Seq<u8>)
    ensures
        len_enc(n as nat).len() >= 1,
        len_dec(len_enc(n as nat) + rest) == Ok::<(u64, nat), ParseError>((
            n,
            len_enc(n as nat).len(),
        )),
{
    let s = len_enc(n as nat) + rest;
    if n < 128 {
        assert(s[0] == n as u8);
    } else {
        lemma_be_len_le_8(n as nat);
        lemma_be_len_lt(n as nat);
        let k = be_len(n as nat);
        lemma_be_bytes_val(n as nat, k);
        assert(s[0] == (128 + k) as u8);
        assert(s.len() >= 1 + k);
        assert(s.subrange(1, 1 + k as int) =~= be_bytes(n as nat, k));
    }
}

/// Decoding `base128_hi(m)` followed by `tail`, from any accumulator
/// small enough that the result still fits, advances the accumulator
/// past the groups of `m` and goes on with `tail`.
proof fn lemma_base128_hi_dec(m: nat, acc: nat, tail: Seq<u8>)
    requires
        acc * pow128(base128_hi(m).len()) + m <= u64::MAX,
    ensures
        base128_dec(base128_hi(m) + tail, acc) == (match base128_dec(
            tail,
            (acc * pow128(base128_hi(m).len()) + m) as nat,
        ) {
            Ok((v, c)) => Ok::<(u64, nat), ParseError>((v, (c + base128_hi(m).len()) as nat)),
            Err(e) => Err::<(u64, nat), ParseError>(e),
        }),
    decreases m,
{
    if m == 0 {
        assert(base128_hi(0) + tail =~= tail);
        assert(acc * pow128(0) + 0 == acc) by (nonlinear_arith);
        match base128_dec(tail, acc) {
            Ok((v, c)) => {},
            Err(e) => {},
        }
    } else {
        let g1 = base128_hi(m / 128).len();
        let b = (128 + m % 128) as u8;
        let x = (acc * pow128(g1) + m / 128) as nat;
        assert(base128_hi(m) =~= base128_hi(m / 128) + seq![b]);
        assert(base128_hi(m).len() == g1 + 1);
        assert(pow128(g1 + 1) == 128 * pow128(g1));
        assert(acc * (128 * pow128(g1)) == (acc * pow128(g1)) * 128) by (nonlinear_arith);
        assert((acc * pow128(g1)) * 128 + ((m / 128) * 128 + m % 128) == (acc * pow128(g1) + m
            / 128) * 128 + m % 128) by (nonlinear_arith);
        assert(x * 128 + m % 128 == acc * pow128(base128_hi(m).len()) + m);
        assert(x <= u64::MAX);
        lemma_base128_hi_dec(m / 128, acc, seq![b] + tail);
        assert(base128_hi(m / 128) + (seq![b] + tail) =~= base128_hi(m) + tail);
        let s1 = seq![b] + tail;
        assert(s1[0] == b);
        assert(b >= 128);
        assert(b % 128 == m % 128);
        assert(s1.subrange(1, s1.len() as int) =~= tail);
        match base128_dec(tail, (x * 128 + m % 128) as nat) {
            Ok((v, c)) => {},
            Err(e) => {},
        }
    }
}

/// Decoding the extended encoding of a tag number, with anything behind
/// it, yields the number and consumes exactly the encoding.
proof fn lemma_base128_round_trip(n: u64, rest: Seq<u8>)
    ensures
        base128(n as nat).len() >= 1,
        base128_dec(base128(n as nat) + rest, 0) == Ok::<(u64, nat), ParseError>((
            n,
            base128(n as nat).len(),
        )),
{
    let last = (n % 128) as u8;
    let g = base128_hi(n as nat / 128).len();
    assert(0 * pow128(g) == 0) by (nonlinear_arith);
    assert(n as nat / 128 <= u64::MAX);
    lemma_base128_hi_dec(n as nat / 128, 0, seq![last] + rest);
    assert(base128_hi(n as nat / 128) + (seq![last] + rest) =~= base128(n as nat) + rest);
    let x = (0 * pow128(g) + n as nat / 128) as nat;
    assert(x == n as nat / 128);
    let s1 = seq![last] + rest;
    assert(s1[0] == last);
    assert(last < 128);
    assert(x * 128 + last % 128 == n);
    assert(s1.subrange(1, s1.len() as int) =~= rest);
    assert(base128(n as nat).len() == g + 1);
}

/// Decoding the encoding of a type header, with anything behind it,
/// yields the header and consumes exactly the encoding.
proof fn lemma_header_round_trip(class: ClassT, pc: PCT, tagnr: u64, rest: Seq<u8>)
    ensures
        header_enc(class, pc, tagnr).len() >= 1,
        header_dec(header_enc(class, pc, tagnr) + rest) == Ok::<(TypeHeader, nat), ParseError>((
            TypeHeader { class, pc, tagnr },
            header_enc(class, pc, tagnr).len(),
        )),
{
    let cb = crate::common::class_to_u8_spec(class);
    let pb = crate::common::pct_to_u8_spec(pc);
    let s = header_enc(class, pc, tagnr) + rest;
    if tagnr <= 30 {
        let b = (cb * 64 + pb * 32 + tagnr) as u8;
        assert(s[0] == b);
        assert(b / 64 == cb);
        assert((b / 32) % 2 == pb);
        assert(b % 32 == tagnr);
    } else {
        let b = (cb * 64 + pb * 32 + 31) as u8;
        assert(s[0] == b);
        assert(b / 64 == cb);
        assert((b / 32) % 2 == pb);
        assert(b % 32 == 31);
        lemma_base128_round_trip(tagnr, rest);
        assert(s.subrange(1, s.len() as int) =~= base128(tagnr as nat) + rest);
    }
}

/// Round-trip: parsing the encoding of any node, with anything behind
/// it, yields exactly that node and consumes exactly its encoding.
#[verifier::rlimit(60)]
pub proof fn lemma_round_trip(t: TagV, rest: Seq<u8>)
    requires
        encodable(t),
    ensures
        tag_dec(tag_enc(t) + rest) == Ok::<(TagV, nat), ParseError>((t, tag_enc(t).len())),
    decreases t,
{
    let s = tag_enc(t) + rest;
    match t {
        TagV::Primitive { class, tag_number, content } => {
            let h = header_enc(class, PCT::Primitive, tag_number);
            let l = len_enc(content.len());
            lemma_header_round_trip(class, PCT::Primitive, tag_number, l + content + rest);
            assert(s =~= h + (l + content + rest));
            let hn = h.len() as int;
            assert(s.subrange(hn, s.len() as int) =~= l + (content + rest));
            lemma_len_round_trip(content.len() as u64, content + rest);
            assert(len_enc(content.len() as u64 as nat) == l);
            let start = hn + l.len();
            assert(s.len() >= start + content.len());
            assert(s.subrange(start as int, start + content.len()) =~= content);
        },
        TagV::Constructed { class, tag_number, children } => {
            let inner = children_enc(children);
            let h = header_enc(class, PCT::Constructed, tag_number);
            let l = len_enc(inner.len());
            lemma_header_round_trip(class, PCT::Constructed, tag_number, l + inner + rest);
            assert(s =~= h + (l + inner + rest));
            let hn = h.len() as int;
            assert(s.subrange(hn, s.len() as int) =~= l + (inner + rest));
            lemma_len_round_trip(inner.len() as u64, inner + rest);
            assert(len_enc(inner.len() as u64 as nat) == l);
            let start = hn + l.len();
            assert(s.len() >= start + inner.len());
            assert(s.subrange(start as int, start + inner.len()) =~= inner);
            lemma_children_round_trip(children);
        },
    }
}

/// Round-trip for a sequence of nodes: decoding the concatenation of
/// their encodings yields exactly that sequence.
pub proof fn lemma_children_round_trip(ts: Seq<TagV>)
    requires
        all_encodable(ts),
    ensures
        children_dec(children_enc(ts)) == Ok::<Seq<TagV>, ParseError>(ts),
    decreases ts,
{
    if ts.len() == 0 {
        assert(children_enc(ts) =~= Seq::<u8>::empty());
        assert(ts =~= Seq::<TagV>::empty());
    } else {
        let sub = ts.subrange(1, ts.len() as int);
        let s = tag_enc(ts[0]) + children_enc(sub);
        assert(children_enc(ts) == s);
        lemma_round_trip(ts[0], children_enc(sub));
        lemma_tag_dec_bounds(s);
        lemma_children_dec_step(s);
        assert(s.subrange(tag_enc(ts[0]).len() as int, s.len() as int) =~= children_enc(sub));
        lemma_children_round_trip(sub);
        assert(seq![ts[0]] + sub =~= ts);
    }
}

/// Idempotence on canonical input: if the input is the encoding of some
/// node (with anything behind it), parsing succeeds and re-encoding the
/// parsed node reproduces exactly the bytes that were consumed.
pub proof fn lemma_reencode_exact(t: TagV, rest: Seq<u8>)
    requires
        encodable(t),
    ensures
        ({
            let s = tag_enc(t) + rest;
            &&& tag_dec(s) matches Ok((u, n)) && tag_enc(u) == s.subrange(0, n as int)
        }),
{
    let s = tag_enc(t) + rest;
    lemma_round_trip(t, rest);
    assert(tag_enc(t) =~= s.subrange(0, tag_enc(t).len() as int));
}

} // verus!
