//! The canonical encoder: one byte string for each value, and back.
//!
//! Signatures are computed over encodings, so the encoding of a value must
//! depend on nothing but the value. [`Canonical`] states the format of a type
//! as two functions on byte sequences and demands the proofs that they are
//! inverse to each other; [`encode`] and [`decode`] are the entry points, and
//! the laws at the end of this file are what callers may rely on.

use vstd::prelude::*;
use crate::codec::{
    borsh_take_u32, lemma_parse_u32_encoding, lemma_parse_u32_sound, parse_u32, put_u32,
    u32_encoding,
};
use crate::error::Error;

verus! {

/// A type with a canonical encoding.
///
/// The format is given over the type's view: `encoding` says which bytes
/// stand for a value, `parse` reads a value from the front of a byte
/// sequence and hands back the bytes that follow it, and `fits` says which
/// values the format can hold at all (a length must fit in 32 bits).
pub trait Canonical: View + Sized {
    /// Whether the format can hold the value.
    spec fn fits(v: Self::V) -> bool;

    /// The bytes that stand for the value.
    spec fn encoding(v: Self::V) -> Seq<u8>;

    /// The value at the front of `s` and the bytes after it, if `s` starts
    /// with the encoding of a value.
    spec fn parse(s: Seq<u8>) -> Option<(Self::V, Seq<u8>)>;

    /// Parsing what was encoded gives the value back and consumes exactly
    /// its encoding.
    proof fn lemma_parse_encoding(v: Self::V, rest: Seq<u8>)
        requires
            Self::fits(v),
        ensures
            Self::parse(Self::encoding(v) + rest) == Some((v, rest)),
    ;

    /// Whatever parses was encoded that way: the input is the encoding of
    /// the parsed value followed by the rest.
    proof fn lemma_parse_sound(s: Seq<u8>)
        ensures
            Self::parse(s) matches Some((v, rest)) ==> Self::fits(v) && s == Self::encoding(v)
                + rest,
    ;

    /// Appends the encoding of `self` to `out`. Reports `false` when the
    /// format cannot hold the value; `out` may then end in a partial
    /// encoding.
    fn write(&self, out: &mut Vec<u8>) -> (ok: bool)
        ensures
            ok == Self::fits(self@),
            ok ==> final(out)@ == old(out)@ + Self::encoding(self@),
    ;

    /// Reads a value from the front of `buf` and returns it with the bytes
    /// that follow, or nothing when `buf` does not start with an encoding.
    fn read<'a>(buf: &'a [u8]) -> (r: Option<(Self, &'a [u8])>)
        ensures
            match Self::parse(buf@) {
                Some((v, rest)) => r matches Some((x, tail)) && x@ == v && tail@ == rest,
                None => r is None,
            },
    ;
}

/// The views of a sequence of values, item by item.
pub open spec fn views<T: View>(items: Seq<T>) -> Seq<T::V> {
    items.map_values(|item: T| item@)
}

/// Whether the format can hold a sequence of values: each item fits, and
/// their number fits in 32 bits.
pub open spec fn items_fit<T: Canonical>(vs: Seq<T::V>) -> bool {
    vs.len() <= u32::MAX && forall|i: int| 0 <= i < vs.len() ==> T::fits(#[trigger] vs[i])
}

/// The encodings of the items, one after the other, in the sequence's order.
pub open spec fn items_encoding<T: Canonical>(vs: Seq<T::V>) -> Seq<u8>
    decreases vs.len(),
{
    if vs.len() == 0 {
        Seq::empty()
    } else {
        T::encoding(vs[0]) + items_encoding::<T>(vs.drop_first())
    }
}

/// The encoding of a sequence: the number of items, then the items in order.
pub open spec fn seq_encoding<T: Canonical>(vs: Seq<T::V>) -> Seq<u8> {
    u32_encoding(vs.len() as u32) + items_encoding::<T>(vs)
}

/// Reads `n` items from the front of `s`, giving them in the order read and
/// what follows.
pub open spec fn parse_items<T: Canonical>(s: Seq<u8>, n: nat) -> Option<(Seq<T::V>, Seq<u8>)>
    decreases n,
{
    if n == 0 {
        Some((Seq::empty(), s))
    } else {
        match T::parse(s) {
            Some((v, s1)) => match parse_items::<T>(s1, (n - 1) as nat) {
                Some((vs, s2)) => Some((seq![v] + vs, s2)),
                None => None,
            },
            None => None,
        }
    }
}

/// Reads a sequence from the front of `s`, giving it and what follows.
pub open spec fn parse_seq<T: Canonical>(s: Seq<u8>) -> Option<(Seq<T::V>, Seq<u8>)> {
    match parse_u32(s) {
        Some((n, s1)) => parse_items::<T>(s1, n as nat),
        None => None,
    }
}

/// Appending an item appends its encoding.
pub proof fn lemma_items_encoding_push<T: Canonical>(vs: Seq<T::V>, v: T::V)
    ensures
        items_encoding::<T>(vs.push(v)) == items_encoding::<T>(vs) + T::encoding(v),
    decreases vs.len(),
{
    let longer = vs.push(v);
    if vs.len() == 0 {
        assert(longer.drop_first() =~= Seq::<T::V>::empty());
        assert(items_encoding::<T>(longer.drop_first()) =~= Seq::<u8>::empty());
        assert(items_encoding::<T>(longer) =~= T::encoding(v));
        assert(items_encoding::<T>(vs) + T::encoding(v) =~= T::encoding(v));
    } else {
        assert(longer.drop_first() =~= vs.drop_first().push(v));
        lemma_items_encoding_push::<T>(vs.drop_first(), v);
        assert(items_encoding::<T>(longer) =~= items_encoding::<T>(vs) + T::encoding(v));
    }
}

/// Written items are read back in their order, and the rest is left
/// untouched.
pub proof fn lemma_parse_items_encoding<T: Canonical>(vs: Seq<T::V>, rest: Seq<u8>)
    requires
        forall|i: int| 0 <= i < vs.len() ==> T::fits(#[trigger] vs[i]),
    ensures
        parse_items::<T>(items_encoding::<T>(vs) + rest, vs.len()) == Some((vs, rest)),
    decreases vs.len(),
{
    if vs.len() == 0 {
        assert(items_encoding::<T>(vs) + rest =~= rest);
        assert(vs =~= Seq::<T::V>::empty());
    } else {
        let tail = vs.drop_first();
        let s1 = items_encoding::<T>(tail) + rest;
        assert(items_encoding::<T>(vs) + rest =~= T::encoding(vs[0]) + s1);
        T::lemma_parse_encoding(vs[0], s1);
        assert forall|i: int| 0 <= i < tail.len() implies T::fits(#[trigger] tail[i]) by {
            assert(tail[i] == vs[i + 1]);
        }
        lemma_parse_items_encoding::<T>(tail, rest);
        assert(seq![vs[0]] + tail =~= vs);
    }
}

/// Whatever reads as `n` items is the encoding of those items followed by
/// the rest.
pub proof fn lemma_parse_items_sound<T: Canonical>(s: Seq<u8>, n: nat)
    ensures
        parse_items::<T>(s, n) matches Some((vs, rest)) ==> {
            &&& vs.len() == n
            &&& forall|i: int| 0 <= i < vs.len() ==> T::fits(#[trigger] vs[i])
            &&& s == items_encoding::<T>(vs) + rest
        },
    decreases n,
{
    if n == 0 {
        assert(items_encoding::<T>(Seq::<T::V>::empty()) + s =~= s);
    } else {
        T::lemma_parse_sound(s);
        if let Some((v, s1)) = T::parse(s) {
            lemma_parse_items_sound::<T>(s1, (n - 1) as nat);
            if let Some((tail, rest)) = parse_items::<T>(s1, (n - 1) as nat) {
                let vs = seq![v] + tail;
                assert(vs.drop_first() =~= tail);
                assert(s =~= items_encoding::<T>(vs) + rest);
                assert forall|i: int| 0 <= i < vs.len() implies T::fits(#[trigger] vs[i]) by {
                    if i > 0 {
                        assert(vs[i] == tail[i - 1]);
                    }
                }
            }
        }
    }
}

/// A written sequence is read back, and the rest is left untouched.
pub proof fn lemma_parse_seq_encoding<T: Canonical>(vs: Seq<T::V>, rest: Seq<u8>)
    requires
        items_fit::<T>(vs),
    ensures
        parse_seq::<T>(seq_encoding::<T>(vs) + rest) == Some((vs, rest)),
{
    let s1 = items_encoding::<T>(vs) + rest;
    assert(seq_encoding::<T>(vs) + rest =~= u32_encoding(vs.len() as u32) + s1);
    lemma_parse_u32_encoding(vs.len() as u32, s1);
    lemma_parse_items_encoding::<T>(vs, rest);
}

/// Whatever reads as a sequence is that sequence's encoding followed by the
/// rest.
pub proof fn lemma_parse_seq_sound<T: Canonical>(s: Seq<u8>)
    ensures
        parse_seq::<T>(s) matches Some((vs, rest)) ==> items_fit::<T>(vs) && s == seq_encoding::<T>(
            vs,
        ) + rest,
{
    lemma_parse_u32_sound(s);
    if let Some((n, s1)) = parse_u32(s) {
        lemma_parse_items_sound::<T>(s1, n as nat);
        if let Some((vs, rest)) = parse_items::<T>(s1, n as nat) {
            assert(s =~= seq_encoding::<T>(vs) + rest);
        }
    }
}

/// Appends the encoding of a sequence of values to `out`. Reports `false`
/// when the format cannot hold the sequence; `out` may then end in a partial
/// encoding.
pub fn write_seq<T: Canonical>(items: &Vec<T>, out: &mut Vec<u8>) -> (ok: bool)
    ensures
        ok == items_fit::<T>(views(items@)),
        ok ==> final(out)@ == old(out)@ + seq_encoding::<T>(views(items@)),
{
    let ghost vs = views(items@);
    if items.len() > 0xffff_ffff {
        return false;
    }
    put_u32(out, items.len() as u32);
    let ghost start = out@;
    let mut i: usize = 0;
    while i < items.len()
        invariant
            i <= items.len(),
            vs == views(items@),
            out@ == start + items_encoding::<T>(vs.take(i as int)),
            forall|j: int| 0 <= j < i ==> T::fits(#[trigger] vs[j]),
        decreases items.len() - i,
    {
        let ghost before = out@;
        if !items[i].write(out) {
            assert(!T::fits(vs[i as int]));
            return false;
        }
        proof {
            lemma_items_encoding_push::<T>(vs.take(i as int), vs[i as int]);
            assert(vs.take(i as int).push(vs[i as int]) =~= vs.take(i + 1));
            assert(out@ =~= start + items_encoding::<T>(vs.take(i + 1)));
        }
        i = i + 1;
    }
    assert(vs.take(i as int) =~= vs);
    assert(out@ =~= old(out)@ + seq_encoding::<T>(vs));
    true
}

/// Reads a sequence of values from the front of `buf` and returns it with
/// the bytes that follow, or nothing when `buf` does not start with the
/// encoding of a sequence.
pub fn read_seq<'a, T: Canonical>(buf: &'a [u8]) -> (r: Option<(Vec<T>, &'a [u8])>)
    ensures
        match parse_seq::<T>(buf@) {
            Some((vs, rest)) => r matches Some((items, tail)) && views(items@) == vs && tail@
                == rest,
            None => r is None,
        },
{
    let (n, first) = match borsh_take_u32(buf) {
        Some(found) => found,
        None => return None,
    };
    let ghost whole = parse_items::<T>(first@, n as nat);
    let mut items: Vec<T> = Vec::new();
    let mut cur: &'a [u8] = first;
    let mut i: u32 = 0;
    while i < n
        invariant
            i <= n,
            items@.len() == i,
            parse_seq::<T>(buf@) == whole,
            match parse_items::<T>(cur@, (n - i) as nat) {
                Some((vs, rest)) => whole == Some((views(items@) + vs, rest)),
                None => whole is None,
            },
        decreases n - i,
    {
        let ghost done = views(items@);
        let (item, next) = match T::read(cur) {
            Some(found) => found,
            None => {
                assert(parse_items::<T>(cur@, (n - i) as nat) is None);
                return None;
            },
        };
        proof {
            if let Some((vs, rest)) = parse_items::<T>(next@, (n - i - 1) as nat) {
                assert(views(items@.push(item)) =~= done.push(item@));
                assert(done + (seq![item@] + vs) =~= done.push(item@) + vs);
            }
        }
        items.push(item);
        cur = next;
        i = i + 1;
    }
    assert(views(items@) + Seq::<T::V>::empty() =~= views(items@));
    Some((items, cur))
}

/// The value that a whole byte string stands for: it must parse and leave
/// nothing over.
pub open spec fn decoded<T: Canonical>(s: Seq<u8>) -> Option<T::V> {
    match T::parse(s) {
        Some((v, rest)) => if rest.len() == 0 {
            Some(v)
        } else {
            None
        },
        None => None,
    }
}

/// Encodes a value. The result depends on the value's view alone; a value
/// that the format cannot hold is refused with `MalformedData`.
pub fn encode<T: Canonical>(value: &T) -> (r: Result<Vec<u8>, Error>)
    ensures
        match r {
            Ok(bytes) => T::fits(value@) && bytes@ == T::encoding(value@),
            Err(e) => !T::fits(value@) && e == Error::MalformedData,
        },
{
    let mut out: Vec<u8> = Vec::new();
    if value.write(&mut out) {
        assert(out@ =~= T::encoding(value@));
        Ok(out)
    } else {
        Err(Error::MalformedData)
    }
}

/// Decodes a whole byte string. Truncated input, trailing bytes and bytes
/// that no value encodes to are refused with `MalformedData`.
pub fn decode<T: Canonical>(bytes: &[u8]) -> (r: Result<T, Error>)
    ensures
        match decoded::<T>(bytes@) {
            Some(v) => r matches Ok(value) && value@ == v,
            None => r matches Err(e) && e == Error::MalformedData,
        },
{
    match T::read(bytes) {
        Some((value, tail)) => {
            if tail.len() == 0 {
                Ok(value)
            } else {
                Err(Error::MalformedData)
            }
        },
        None => Err(Error::MalformedData),
    }
}

/// Round trip: decoding the encoding of a value gives the value back, field
/// for field.
pub proof fn law_decode_inverts_encode<T: Canonical>(v: T::V)
    requires
        T::fits(v),
    ensures
        decoded::<T>(T::encoding(v)) == Some(v),
{
    T::lemma_parse_encoding(v, Seq::empty());
    assert(T::encoding(v) + Seq::<u8>::empty() =~= T::encoding(v));
}

/// Determinism: values with the same view have the same encoding, whenever
/// and wherever it is computed.
pub proof fn law_encoding_deterministic<T: Canonical>(a: T, b: T)
    requires
        a@ == b@,
    ensures
        T::fits(a@) == T::fits(b@),
        T::encoding(a@) == T::encoding(b@),
{
}

/// Injectivity: two values with the same encoding are the same value.
pub proof fn law_encoding_injective<T: Canonical>(a: T::V, b: T::V)
    requires
        T::fits(a),
        T::fits(b),
        T::encoding(a) == T::encoding(b),
    ensures
        a == b,
{
    T::lemma_parse_encoding(a, Seq::empty());
    T::lemma_parse_encoding(b, Seq::empty());
}

/// No coercion: a byte string decodes only if it is, byte for byte, the
/// encoding of the value it decodes to.
pub proof fn law_decoded_is_canonical<T: Canonical>(s: Seq<u8>)
    ensures
        decoded::<T>(s) matches Some(v) ==> T::fits(v) && T::encoding(v) == s,
{
    T::lemma_parse_sound(s);
    if let Some((v, rest)) = T::parse(s) {
        if rest.len() == 0 {
            assert(T::encoding(v) + rest =~= T::encoding(v));
        }
    }
}

/// Decoding is the inverse of encoding and nothing more: a byte string
/// decodes to a value exactly when it is that value's encoding.
pub proof fn law_decode_characterised<T: Canonical>(s: Seq<u8>, v: T::V)
    ensures
        decoded::<T>(s) == Some(v) <==> T::fits(v) && T::encoding(v) == s,
{
    law_decoded_is_canonical::<T>(s);
    if T::fits(v) && T::encoding(v) == s {
        law_decode_inverts_encode::<T>(v);
    }
}

/// Truncation is detected: no proper prefix of an encoding decodes.
pub proof fn law_truncated_is_malformed<T: Canonical>(v: T::V, n: int)
    requires
        T::fits(v),
        0 <= n < T::encoding(v).len(),
    ensures
        decoded::<T>(T::encoding(v).take(n)) is None,
{
    let whole = T::encoding(v);
    let cut = whole.take(n);
    if let Some(w) = decoded::<T>(cut) {
        law_decoded_is_canonical::<T>(cut);
        // `whole` starts with the encoding of `w`, so it parses to `w`; it is
        // also the encoding of `v`, which leaves nothing over.
        T::lemma_parse_encoding(w, whole.skip(n));
        assert(cut + whole.skip(n) =~= whole);
        T::lemma_parse_encoding(v, Seq::empty());
        assert(whole + Seq::<u8>::empty() =~= whole);
        assert(whole.skip(n).len() > 0);
    }
}

} // verus!
