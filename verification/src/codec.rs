//! The canonical encoding of primitive fields.
//!
//! Every field is written in the Borsh layout: integers as little-endian
//! bytes of their width, byte strings and texts as a 32-bit length followed
//! by the bytes, fixed-size blocks as the bytes alone. The layout is stated
//! here as functions on byte sequences, together with the two facts that
//! make it canonical: what was written is read back, and what is read back
//! was written that way.

use vstd::prelude::*;
use vstd::utf8::{
    decode_utf8, decode_utf8_encode_utf8, encode_scalar, encode_utf8, encode_utf8_decode_utf8,
    encode_utf8_valid_utf8, valid_utf8,
};

verus! {

/// The four bytes of a 32-bit integer, least significant first.
#[verifier::opaque]
pub open spec fn u32_encoding(v: u32) -> Seq<u8> {
    seq![
        (v % 256) as u8,
        (v / 256 % 256) as u8,
        (v / 256 / 256 % 256) as u8,
        (v / 256 / 256 / 256) as u8,
    ]
}

/// The integer that the first four bytes of `s` stand for.
#[verifier::opaque]
pub open spec fn u32_value(s: Seq<u8>) -> u32
    recommends
        s.len() >= 4,
{
    (s[0] + 256 * (s[1] + 256 * (s[2] + 256 * s[3]))) as u32
}

/// Reads a 32-bit integer from the front of `s`, giving it and what follows.
#[verifier::opaque]
pub open spec fn parse_u32(s: Seq<u8>) -> Option<(u32, Seq<u8>)> {
    if s.len() >= 4 {
        Some((u32_value(s), s.skip(4)))
    } else {
        None
    }
}

/// The eight bytes of a 64-bit integer, least significant first.
#[verifier::opaque]
pub open spec fn u64_encoding(v: u64) -> Seq<u8> {
    u32_encoding((v % 0x1_0000_0000) as u32) + u32_encoding((v / 0x1_0000_0000) as u32)
}

/// The integer that the first eight bytes of `s` stand for.
#[verifier::opaque]
pub open spec fn u64_value(s: Seq<u8>) -> u64
    recommends
        s.len() >= 8,
{
    (u32_value(s) + u32_value(s.skip(4)) * 0x1_0000_0000) as u64
}

/// Reads a 64-bit integer from the front of `s`, giving it and what follows.
#[verifier::opaque]
pub open spec fn parse_u64(s: Seq<u8>) -> Option<(u64, Seq<u8>)> {
    if s.len() >= 8 {
        Some((u64_value(s), s.skip(8)))
    } else {
        None
    }
}

/// A byte string can be encoded when its length fits in 32 bits.
pub open spec fn bytes_fit(b: Seq<u8>) -> bool {
    b.len() <= u32::MAX
}

/// The encoding of a byte string: its length, then the bytes.
pub open spec fn bytes_encoding(b: Seq<u8>) -> Seq<u8> {
    u32_encoding(b.len() as u32) + b
}

/// Reads a byte string from the front of `s`, giving it and what follows.
#[verifier::opaque]
pub open spec fn parse_bytes(s: Seq<u8>) -> Option<(Seq<u8>, Seq<u8>)> {
    match parse_u32(s) {
        Some((n, rest)) => if rest.len() >= n {
            Some((rest.take(n as int), rest.skip(n as int)))
        } else {
            None
        },
        None => None,
    }
}

/// A text can be encoded when its UTF-8 form fits a byte string.
pub open spec fn text_fits(t: Seq<char>) -> bool {
    bytes_fit(encode_utf8(t))
}

/// The encoding of a text: its UTF-8 form as a byte string.
pub open spec fn text_encoding(t: Seq<char>) -> Seq<u8> {
    bytes_encoding(encode_utf8(t))
}

/// Reads a text from the front of `s`, giving it and what follows. Bytes
/// that are not UTF-8 are no text.
#[verifier::opaque]
pub open spec fn parse_text(s: Seq<u8>) -> Option<(Seq<char>, Seq<u8>)> {
    match parse_bytes(s) {
        Some((b, rest)) => if valid_utf8(b) {
            Some((decode_utf8(b), rest))
        } else {
            None
        },
        None => None,
    }
}

/// Reads a block of exactly `n` bytes from the front of `s`.
#[verifier::opaque]
pub open spec fn parse_block(s: Seq<u8>, n: nat) -> Option<(Seq<u8>, Seq<u8>)> {
    if s.len() >= n {
        Some((s.take(n as int), s.skip(n as int)))
    } else {
        None
    }
}

/// A number is its last digit to the base 256 and the digits before it.
proof fn lemma_split_digit(x: int)
    requires
        0 <= x,
    ensures
        x == x % 256 + 256 * (x / 256),
        0 <= x % 256 < 256,
        0 <= x / 256 <= x,
{
}

/// The last digit to the base 256 and the digits before it determine the
/// number.
proof fn lemma_join_digit(x: int, digit: int, before: int)
    requires
        0 <= digit < 256,
        x == digit + 256 * before,
    ensures
        x % 256 == digit,
        x / 256 == before,
{
}

/// A written 32-bit integer is read back, and the rest is left untouched.
pub proof fn lemma_parse_u32_encoding(v: u32, rest: Seq<u8>)
    ensures
        u32_encoding(v).len() == 4,
        parse_u32(u32_encoding(v) + rest) == Some((v, rest)),
{
    reveal(parse_u32);
    reveal(u32_encoding);
    reveal(u32_value);
    let s = u32_encoding(v) + rest;
    let v1 = v as int / 256;
    let v2 = v1 / 256;
    let v3 = v2 / 256;
    lemma_split_digit(v as int);
    lemma_split_digit(v1);
    lemma_split_digit(v2);
    assert(s[0] == v as int % 256 && s[1] == v1 % 256 && s[2] == v2 % 256 && s[3] == v3);
    assert(u32_value(s) == v);
    assert(s.skip(4) =~= rest);
}

/// Whatever reads as a 32-bit integer is that integer's encoding followed by
/// the rest.
pub proof fn lemma_parse_u32_sound(s: Seq<u8>)
    ensures
        parse_u32(s) matches Some((v, rest)) ==> s == u32_encoding(v) + rest,
{
    reveal(parse_u32);
    reveal(u32_encoding);
    reveal(u32_value);
    if s.len() >= 4 {
        let v2 = s[2] + 256 * s[3];
        let v1 = s[1] + 256 * v2;
        let v = s[0] + 256 * v1;
        lemma_join_digit(v2, s[2] as int, s[3] as int);
        lemma_join_digit(v1, s[1] as int, v2);
        lemma_join_digit(v, s[0] as int, v1);
        assert(u32_value(s) == v);
        let e = u32_encoding(u32_value(s));
        assert(e[0] == s[0] && e[1] == s[1] && e[2] == s[2] && e[3] == s[3]);
        assert(s =~= e + s.skip(4));
    }
}

/// A written 64-bit integer is read back, and the rest is left untouched.
pub proof fn lemma_parse_u64_encoding(v: u64, rest: Seq<u8>)
    ensures
        u64_encoding(v).len() == 8,
        parse_u64(u64_encoding(v) + rest) == Some((v, rest)),
{
    reveal(parse_u64);
    reveal(parse_u32);
    reveal(u64_encoding);
    reveal(u64_value);
    let low = (v % 0x1_0000_0000) as u32;
    let high = (v / 0x1_0000_0000) as u32;
    let s = u64_encoding(v) + rest;
    assert(s =~= u32_encoding(low) + (u32_encoding(high) + rest));
    lemma_parse_u32_encoding(low, u32_encoding(high) + rest);
    lemma_parse_u32_encoding(high, rest);
    assert(s.skip(4) =~= u32_encoding(high) + rest);
    assert(s.skip(8) =~= rest);
}

/// Whatever reads as a 64-bit integer is that integer's encoding followed by
/// the rest.
pub proof fn lemma_parse_u64_sound(s: Seq<u8>)
    ensures
        parse_u64(s) matches Some((v, rest)) ==> s == u64_encoding(v) + rest,
{
    reveal(parse_u64);
    reveal(parse_u32);
    reveal(u64_encoding);
    reveal(u64_value);
    if s.len() >= 8 {
        let v = u64_value(s);
        lemma_parse_u32_sound(s);
        lemma_parse_u32_sound(s.skip(4));
        assert(s.skip(4).skip(4) =~= s.skip(8));
        assert(s =~= u64_encoding(v) + s.skip(8));
    }
}

/// A written byte string is read back, and the rest is left untouched.
pub proof fn lemma_parse_bytes_encoding(b: Seq<u8>, rest: Seq<u8>)
    requires
        bytes_fit(b),
    ensures
        bytes_encoding(b).len() == 4 + b.len(),
        parse_bytes(bytes_encoding(b) + rest) == Some((b, rest)),
{
    reveal(parse_bytes);
    reveal(parse_u32);
    let n = b.len() as u32;
    lemma_parse_u32_encoding(n, b + rest);
    assert(bytes_encoding(b) + rest =~= u32_encoding(n) + (b + rest));
    assert((b + rest).take(n as int) =~= b);
    assert((b + rest).skip(n as int) =~= rest);
}

/// Whatever reads as a byte string is that string's encoding followed by the
/// rest.
pub proof fn lemma_parse_bytes_sound(s: Seq<u8>)
    ensures
        parse_bytes(s) matches Some((b, rest)) ==> bytes_fit(b) && s == bytes_encoding(b) + rest,
{
    reveal(parse_bytes);
    reveal(parse_u32);
    lemma_parse_u32_sound(s);
    if let Some((n, tail)) = parse_u32(s) {
        if tail.len() >= n {
            let b = tail.take(n as int);
            let rest = tail.skip(n as int);
            assert(tail =~= b + rest);
            assert(s =~= bytes_encoding(b) + rest);
        }
    }
}

/// A character takes at most four bytes, so a text of up to a thousand
/// million characters always fits.
pub proof fn lemma_short_text_fits(t: Seq<char>)
    ensures
        encode_utf8(t).len() <= 4 * t.len(),
        t.len() <= 1_000_000_000 ==> text_fits(t),
    decreases t.len(),
{
    if t.len() > 0 {
        assert(encode_scalar(t[0] as u32).len() <= 4);
        lemma_short_text_fits(t.drop_first());
    }
}

/// A written text is read back, and the rest is left untouched.
pub proof fn lemma_parse_text_encoding(t: Seq<char>, rest: Seq<u8>)
    requires
        text_fits(t),
    ensures
        parse_text(text_encoding(t) + rest) == Some((t, rest)),
{
    reveal(parse_text);
    lemma_parse_bytes_encoding(encode_utf8(t), rest);
    encode_utf8_valid_utf8(t);
    encode_utf8_decode_utf8(t);
}

/// Whatever reads as a text is that text's encoding followed by the rest.
pub proof fn lemma_parse_text_sound(s: Seq<u8>)
    ensures
        parse_text(s) matches Some((t, rest)) ==> text_fits(t) && s == text_encoding(t) + rest,
{
    reveal(parse_text);
    lemma_parse_bytes_sound(s);
    if let Some((b, rest)) = parse_bytes(s) {
        if valid_utf8(b) {
            decode_utf8_encode_utf8(b);
        }
    }
}

/// A block is read back from the front of what it was put before.
pub proof fn lemma_parse_block_encoding(b: Seq<u8>, rest: Seq<u8>)
    ensures
        parse_block(b + rest, b.len()) == Some((b, rest)),
{
    reveal(parse_block);
    assert((b + rest).take(b.len() as int) =~= b);
    assert((b + rest).skip(b.len() as int) =~= rest);
}

/// Whatever reads as a block of `n` bytes is those bytes followed by the
/// rest.
pub proof fn lemma_parse_block_sound(s: Seq<u8>, n: nat)
    ensures
        parse_block(s, n) matches Some((b, rest)) ==> b.len() == n && s == b + rest,
{
    reveal(parse_block);
    if s.len() >= n {
        assert(s =~= s.take(n as int) + s.skip(n as int));
    }
}

/// `borsh::BorshSerialize::try_to_vec` on a `u32`: the four bytes of the
/// integer, least significant first. Writing into a fresh vector cannot fail.
#[verifier::external_body]
pub(crate) fn borsh_u32(v: u32) -> (out: Vec<u8>)
    ensures
        out@ == u32_encoding(v),
{
    borsh::BorshSerialize::try_to_vec(&v).unwrap()
}

/// `borsh::BorshSerialize::try_to_vec` on a `u64`: the eight bytes of the
/// integer, least significant first. Writing into a fresh vector cannot fail.
#[verifier::external_body]
pub(crate) fn borsh_u64(v: u64) -> (out: Vec<u8>)
    ensures
        out@ == u64_encoding(v),
{
    borsh::BorshSerialize::try_to_vec(&v).unwrap()
}

/// `borsh::BorshSerialize::try_to_vec` on a byte slice: the length as a
/// 32-bit integer, then the bytes. It fails exactly when the length does not
/// fit in 32 bits.
#[verifier::external_body]
pub(crate) fn borsh_bytes(b: &[u8]) -> (out: Option<Vec<u8>>)
    ensures
        out is Some <==> bytes_fit(b@),
        out matches Some(e) ==> e@ == bytes_encoding(b@),
{
    borsh::BorshSerialize::try_to_vec(b).ok()
}

/// `borsh::BorshDeserialize::deserialize` for `u32`: takes four bytes from
/// the front of the buffer, or fails when fewer are left.
#[verifier::external_body]
pub(crate) fn borsh_take_u32<'a>(buf: &'a [u8]) -> (r: Option<(u32, &'a [u8])>)
    ensures
        match parse_u32(buf@) {
            Some((v, rest)) => r matches Some((x, tail)) && x == v && tail@ == rest,
            None => r is None,
        },
{
    let mut rest = buf;
    let got: std::io::Result<u32> = borsh::BorshDeserialize::deserialize(&mut rest);
    match got {
        Ok(v) => Some((v, rest)),
        Err(_) => None,
    }
}

/// `borsh::BorshDeserialize::deserialize` for `u64`: takes eight bytes from
/// the front of the buffer, or fails when fewer are left.
#[verifier::external_body]
pub(crate) fn borsh_take_u64<'a>(buf: &'a [u8]) -> (r: Option<(u64, &'a [u8])>)
    ensures
        match parse_u64(buf@) {
            Some((v, rest)) => r matches Some((x, tail)) && x == v && tail@ == rest,
            None => r is None,
        },
{
    let mut rest = buf;
    let got: std::io::Result<u64> = borsh::BorshDeserialize::deserialize(&mut rest);
    match got {
        Ok(v) => Some((v, rest)),
        Err(_) => None,
    }
}

/// `borsh::BorshDeserialize::deserialize` for `Vec<u8>`: takes a 32-bit
/// length and then that many bytes from the front of the buffer, or fails
/// when the buffer ends before either is complete.
#[verifier::external_body]
pub(crate) fn borsh_take_bytes<'a>(buf: &'a [u8]) -> (r: Option<(Vec<u8>, &'a [u8])>)
    ensures
        match parse_bytes(buf@) {
            Some((b, rest)) => r matches Some((x, tail)) && x@ == b && tail@ == rest,
            None => r is None,
        },
{
    let mut rest = buf;
    let got: std::io::Result<Vec<u8>> = borsh::BorshDeserialize::deserialize(&mut rest);
    match got {
        Ok(v) => Some((v, rest)),
        Err(_) => None,
    }
}

/// `borsh::BorshDeserialize::deserialize` for `String`: takes a byte string
/// as for `Vec<u8>` and turns it into a text, failing also when the bytes are
/// not UTF-8.
#[verifier::external_body]
pub(crate) fn borsh_take_text<'a>(buf: &'a [u8]) -> (r: Option<(String, &'a [u8])>)
    ensures
        match parse_text(buf@) {
            Some((t, rest)) => r matches Some((x, tail)) && x@ == t && tail@ == rest,
            None => r is None,
        },
{
    let mut rest = buf;
    let got: std::io::Result<String> = borsh::BorshDeserialize::deserialize(&mut rest);
    match got {
        Ok(v) => Some((v, rest)),
        Err(_) => None,
    }
}

/// Appends a 32-bit integer.
pub fn put_u32(out: &mut Vec<u8>, v: u32)
    ensures
        final(out)@ == old(out)@ + u32_encoding(v),
{
    let mut piece = borsh_u32(v);
    out.append(&mut piece);
}

/// Appends a 64-bit integer.
pub fn put_u64(out: &mut Vec<u8>, v: u64)
    ensures
        final(out)@ == old(out)@ + u64_encoding(v),
{
    let mut piece = borsh_u64(v);
    out.append(&mut piece);
}

/// Appends a byte string, or leaves `out` alone and reports `false` when the
/// string is too long for the format.
pub fn put_bytes(out: &mut Vec<u8>, b: &[u8]) -> (ok: bool)
    ensures
        ok == bytes_fit(b@),
        ok ==> final(out)@ == old(out)@ + bytes_encoding(b@),
        !ok ==> final(out)@ == old(out)@,
{
    match borsh_bytes(b) {
        Some(mut piece) => {
            out.append(&mut piece);
            true
        },
        None => false,
    }
}

/// Appends a text, or leaves `out` alone and reports `false` when the text is
/// too long for the format.
pub fn put_text(out: &mut Vec<u8>, t: &str) -> (ok: bool)
    ensures
        ok == text_fits(t@),
        ok ==> final(out)@ == old(out)@ + text_encoding(t@),
        !ok ==> final(out)@ == old(out)@,
{
    put_bytes(out, t.as_bytes())
}

/// Appends a block of bytes as it is.
pub fn put_block(out: &mut Vec<u8>, b: &[u8])
    ensures
        final(out)@ == old(out)@ + b@,
{
    let ghost before = out@;
    let mut i: usize = 0;
    while i < b.len()
        invariant
            i <= b.len(),
            out@ == before + b@.take(i as int),
        decreases b.len() - i,
    {
        out.push(b[i]);
        i = i + 1;
        assert(b@.take(i as int) =~= b@.take(i - 1).push(b@[i - 1]));
    }
    assert(b@.take(i as int) =~= b@);
}

/// Takes a block of `N` bytes from the front of the buffer, or nothing when
/// fewer are left.
pub fn take_block<'a, const N: usize>(buf: &'a [u8]) -> (r: Option<([u8; N], &'a [u8])>)
    ensures
        match parse_block(buf@, N as nat) {
            Some((b, rest)) => r matches Some((x, tail)) && x@ == b && tail@ == rest,
            None => r is None,
        },
{
    proof {
        reveal(parse_block);
    }
    if buf.len() < N {
        return None;
    }
    let (head, tail) = buf.split_at(N);
    let mut block: [u8; N] = [0u8; N];
    let mut i: usize = 0;
    while i < N
        invariant
            i <= N,
            head@.len() == N,
            forall|j: int| 0 <= j < i ==> block@[j] == head@[j],
        decreases N - i,
    {
        block[i] = head[i];
        i = i + 1;
    }
    assert(block@ =~= head@);
    assert(tail@ =~= buf@.skip(N as int));
    Some((block, tail))
}

} // verus!
