//! Key pairs and the signing envelope.
//!
//! An envelope binds a payload to a signer: the signature is made over the
//! payload's canonical encoding, and checking it encodes the payload again.
//! The Ed25519 arithmetic is done by `ed25519-dalek`; this module states
//! what it relies on and proves the envelope's behaviour from that.

use vstd::prelude::*;
use crate::codec::{
    lemma_parse_block_encoding, lemma_parse_block_sound, parse_block, put_block, take_block,
};
use crate::encoder::Canonical;
use crate::error::Error;

verus! {

/// The public key that belongs to a 32-byte secret key.
pub uninterp spec fn ed25519_public_key(secret: Seq<u8>) -> Seq<u8>;

/// The signature that a secret key makes on a message. Ed25519 derives its
/// nonce from the key and the message, so there is exactly one.
pub uninterp spec fn ed25519_signature(secret: Seq<u8>, message: Seq<u8>) -> Seq<u8>;

/// Whether a public key accepts a signature on a message.
pub uninterp spec fn ed25519_accepts(public: Seq<u8>, message: Seq<u8>, signature: Seq<u8>) -> bool;

/// `ed25519_dalek::SigningKey::from_bytes` followed by `verifying_key` and
/// `to_bytes`: the public half of a secret key.
#[verifier::external_body]
pub(crate) fn ed25519_derive(secret: &[u8; 32]) -> (public: [u8; 32])
    ensures
        public@ == ed25519_public_key(secret@),
{
    ed25519_dalek::SigningKey::from_bytes(secret).verifying_key().to_bytes()
}

/// `ed25519_dalek::Signer::sign` on a `SigningKey`: the signature of the
/// message. The claim beyond the name is the scheme's completeness: a
/// signature made with a secret key is accepted by the public key derived
/// from it.
#[verifier::external_body]
pub(crate) fn ed25519_sign(secret: &[u8; 32], message: &[u8]) -> (signature: [u8; 64])
    ensures
        signature@ == ed25519_signature(secret@, message@),
        ed25519_accepts(ed25519_public_key(secret@), message@, signature@),
{
    let key = ed25519_dalek::SigningKey::from_bytes(secret);
    ed25519_dalek::Signer::sign(&key, message).to_bytes()
}

/// `ed25519_dalek::Verifier::verify` on a `VerifyingKey`: whether the key
/// accepts the signature. Bytes that are no public key accept nothing.
#[verifier::external_body]
pub(crate) fn ed25519_verify(public: &[u8; 32], message: &[u8], signature: &[u8; 64]) -> (ok: bool)
    ensures
        ok == ed25519_accepts(public@, message@, signature@),
{
    let signature = ed25519_dalek::Signature::from_bytes(signature);
    match ed25519_dalek::VerifyingKey::from_bytes(public) {
        Ok(key) => ed25519_dalek::Verifier::verify(&key, message, &signature).is_ok(),
        Err(_) => false,
    }
}

/// An Ed25519 key pair. It is determined by its secret half, which is its
/// view; the public half is always the one derived from it.
#[derive(Clone, Copy)]
pub struct Keypair {
    secret: [u8; 32],
    public: [u8; 32],
}

impl View for Keypair {
    type V = Seq<u8>;

    closed spec fn view(&self) -> Seq<u8> {
        self.secret@
    }
}

impl Keypair {
    #[verifier::type_invariant]
    spec fn halves_match(self) -> bool {
        self.public@ == ed25519_public_key(self.secret@)
    }

    /// The key pair of a secret key.
    pub fn from_secret(secret: [u8; 32]) -> (pair: Keypair)
        ensures
            pair@ == secret@,
    {
        let public = ed25519_derive(&secret);
        Keypair { secret, public }
    }

    /// The secret half.
    pub fn secret(&self) -> (secret: [u8; 32])
        ensures
            secret@ == self@,
    {
        self.secret
    }

    /// The public half, by which others check this pair's signatures.
    pub fn public(&self) -> (public: [u8; 32])
        ensures
            public@ == ed25519_public_key(self@),
    {
        proof {
            use_type_invariant(self);
        }
        self.public
    }
}

/// What an envelope holds, as plain values.
pub struct SignedView<V> {
    pub payload: V,
    pub signature: Seq<u8>,
    pub signer: Seq<u8>,
}

/// A payload together with a signature over its canonical encoding and the
/// public key of the signer. An envelope is made once and never changed: its
/// parts can be read, not written. An envelope put together from parts is
/// only as good as [`Signed::verify`] finds it.
#[derive(Clone, Debug, PartialEq, Eq)]
pub struct Signed<T> {
    payload: T,
    signature: [u8; 64],
    signer: [u8; 32],
}

impl<T: Canonical> View for Signed<T> {
    type V = SignedView<T::V>;

    closed spec fn view(&self) -> SignedView<T::V> {
        SignedView { payload: self.payload@, signature: self.signature@, signer: self.signer@ }
    }
}

/// The envelope that a key makes for a payload.
pub open spec fn signed_by<T: Canonical>(secret: Seq<u8>, payload: T::V) -> SignedView<T::V> {
    SignedView {
        payload,
        signature: ed25519_signature(secret, T::encoding(payload)),
        signer: ed25519_public_key(secret),
    }
}

/// Whether an envelope is authentic: its payload has an encoding, and the
/// stated signer accepts the signature on that encoding.
pub open spec fn authentic<T: Canonical>(v: SignedView<T::V>) -> bool {
    T::fits(v.payload) && ed25519_accepts(v.signer, T::encoding(v.payload), v.signature)
}

impl<T: Canonical> Signed<T> {
    /// Signs a payload. The envelope holds the payload unchanged, the
    /// signature of its encoding and the signer's public key; it is
    /// authentic and can itself be encoded. A payload without an encoding
    /// cannot be signed.
    pub fn new(keypair: &Keypair, payload: T) -> (r: Result<Signed<T>, Error>)
        ensures
            match r {
                Ok(signed) => {
                    &&& T::fits(payload@)
                    &&& signed@ == signed_by::<T>(keypair@, payload@)
                    &&& authentic::<T>(signed@)
                    &&& Self::fits(signed@)
                },
                Err(e) => !T::fits(payload@) && e == Error::MalformedData,
            },
    {
        let mut message: Vec<u8> = Vec::new();
        if !payload.write(&mut message) {
            return Err(Error::MalformedData);
        }
        assert(message@ =~= T::encoding(payload@));
        let secret = keypair.secret();
        let signer = keypair.public();
        let signature = ed25519_sign(&secret, message.as_slice());
        Ok(Signed { payload, signature, signer })
    }

    /// An envelope from its three parts, as they were read from storage or
    /// from the network. Nothing is checked: see [`Signed::verify`].
    pub fn from_parts(payload: T, signature: [u8; 64], signer: [u8; 32]) -> (signed: Signed<T>)
        ensures
            signed@ == (SignedView { payload: payload@, signature: signature@, signer: signer@ }),
    {
        Signed { payload, signature, signer }
    }

    /// Checks the signature against the payload as it is now and the stated
    /// signer. The envelope is not changed.
    pub fn verify(&self) -> (ok: bool)
        ensures
            ok == authentic::<T>(self@),
    {
        let mut message: Vec<u8> = Vec::new();
        if !self.payload.write(&mut message) {
            return false;
        }
        assert(message@ =~= T::encoding(self.payload@));
        ed25519_verify(&self.signer, message.as_slice(), &self.signature)
    }

    /// The signed payload.
    pub fn payload(&self) -> (payload: &T)
        ensures
            payload@ == self@.payload,
    {
        &self.payload
    }

    /// The signature over the payload's encoding.
    pub fn signature(&self) -> (signature: [u8; 64])
        ensures
            signature@ == self@.signature,
    {
        self.signature
    }

    /// The public key of the signer.
    pub fn signer(&self) -> (signer: [u8; 32])
        ensures
            signer@ == self@.signer,
    {
        self.signer
    }
}

impl<T: Canonical> Canonical for Signed<T> {
    open spec fn fits(v: SignedView<T::V>) -> bool {
        T::fits(v.payload) && v.signature.len() == 64 && v.signer.len() == 32
    }

    open spec fn encoding(v: SignedView<T::V>) -> Seq<u8> {
        T::encoding(v.payload) + v.signature + v.signer
    }

    open spec fn parse(s: Seq<u8>) -> Option<(SignedView<T::V>, Seq<u8>)> {
        match T::parse(s) {
            Some((payload, s1)) => match parse_block(s1, 64) {
                Some((signature, s2)) => match parse_block(s2, 32) {
                    Some((signer, s3)) => Some((SignedView { payload, signature, signer }, s3)),
                    None => None,
                },
                None => None,
            },
            None => None,
        }
    }

    proof fn lemma_parse_encoding(v: SignedView<T::V>, rest: Seq<u8>) {
        let s2 = v.signer + rest;
        let s1 = v.signature + s2;
        assert(Self::encoding(v) + rest =~= T::encoding(v.payload) + s1);
        T::lemma_parse_encoding(v.payload, s1);
        lemma_parse_block_encoding(v.signature, s2);
        lemma_parse_block_encoding(v.signer, rest);
    }

    proof fn lemma_parse_sound(s: Seq<u8>) {
        T::lemma_parse_sound(s);
        if let Some((payload, s1)) = T::parse(s) {
            lemma_parse_block_sound(s1, 64);
            if let Some((signature, s2)) = parse_block(s1, 64) {
                lemma_parse_block_sound(s2, 32);
                if let Some((signer, s3)) = parse_block(s2, 32) {
                    let v = SignedView { payload, signature, signer };
                    assert(s =~= Self::encoding(v) + s3);
                }
            }
        }
    }

    fn write(&self, out: &mut Vec<u8>) -> (ok: bool) {
        if !self.payload.write(out) {
            return false;
        }
        put_block(out, self.signature.as_slice());
        put_block(out, self.signer.as_slice());
        assert(out@ =~= old(out)@ + Self::encoding(self@));
        true
    }

    fn read<'a>(buf: &'a [u8]) -> (r: Option<(Self, &'a [u8])>) {
        let (payload, s1) = match T::read(buf) {
            Some(found) => found,
            None => return None,
        };
        let (signature, s2) = match take_block::<64>(s1) {
            Some(found) => found,
            None => return None,
        };
        let (signer, s3) = match take_block::<32>(s2) {
            Some(found) => found,
            None => return None,
        };
        Some((Signed { payload, signature, signer }, s3))
    }
}

} // verus!
