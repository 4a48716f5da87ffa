//! The envelope codec: frames payload bytes and flags into a signed binary
//! envelope and back.
//!
//! Wire layout of an envelope, front to back: the sender's compressed
//! public key (32 bytes), the Schnorr signature (64 bytes), one flags byte,
//! then the payload. The signature is taken over the flags byte followed by
//! the payload, so neither can be altered without invalidating it. Decoding
//! re-verifies the signature against the embedded public key; a malformed
//! frame or a failed verification yields an error, never a partially
//! trusted result.

use vstd::prelude::*;

use crate::bytesutil::{copy_range, extend_bytes};
use crate::crypto::{
    derive_public_key, is_zero_bytes, public_key_of, sig_verifies, sign_message,
    valid_secret_key, verify_signature, zero_bytes,
};
use crate::message::MessageFlags;

verus! {

/// Length of a compressed public key on the wire.
pub const PUBLIC_KEY_LEN: usize = 32;

/// Length of a signature on the wire.
pub const SIGNATURE_LEN: usize = 64;

/// Length of the fixed header: public key, signature and the flags byte.
pub const HEADER_LEN: usize = 97;

/// A decoded envelope: the sender's public key, the signature over flags
/// and payload, the flags, and the payload itself.
#[derive(Debug)]
pub struct Envelope {
    pub public_key: Vec<u8>,
    pub signature: Vec<u8>,
    pub flags: MessageFlags,
    pub body: Vec<u8>,
}

/// Why a byte string failed to decode as an envelope.
#[derive(Clone, Copy, PartialEq, Eq, Structural, Debug)]
pub enum DecodeError {
    /// Shorter than the fixed header: not an envelope at all.
    MalformedFrame,
    /// Framing was intact but the signature did not verify against the
    /// embedded public key.
    InvalidSignature,
}

/// Why encoding a payload into an envelope failed.
#[derive(Clone, Copy, PartialEq, Eq, Structural, Debug)]
pub enum EncodeError {
    /// The secret key bytes are not a canonical secret key encoding.
    InvalidSecretKey,
    /// The signing primitive itself failed.
    SigningFailed,
}

/// The bytes the signature is taken over: the flags byte, then the payload.
pub open spec fn challenge_bytes(flags: u8, body: Seq<u8>) -> Seq<u8> {
    seq![flags] + body
}

/// Whether the byte string is long enough to hold the fixed header.
pub open spec fn frame_well_formed(b: Seq<u8>) -> bool {
    b.len() >= HEADER_LEN
}

/// The embedded public key of a well-formed frame.
pub open spec fn frame_public_key(b: Seq<u8>) -> Seq<u8> {
    b.subrange(0, PUBLIC_KEY_LEN as int)
}

/// The embedded signature of a well-formed frame.
pub open spec fn frame_signature(b: Seq<u8>) -> Seq<u8> {
    b.subrange(PUBLIC_KEY_LEN as int, (PUBLIC_KEY_LEN + SIGNATURE_LEN) as int)
}

/// The flags byte of a well-formed frame.
pub open spec fn frame_flags(b: Seq<u8>) -> u8 {
    b[(HEADER_LEN - 1) as int]
}

/// The payload of a well-formed frame.
pub open spec fn frame_body(b: Seq<u8>) -> Seq<u8> {
    b.subrange(HEADER_LEN as int, b.len() as int)
}

/// A byte string is a valid envelope when it is well formed and its
/// signature verifies against its embedded public key over its flags and
/// payload.
pub open spec fn envelope_valid(b: Seq<u8>) -> bool {
    &&& frame_well_formed(b)
    &&& sig_verifies(frame_public_key(b), frame_signature(b), challenge_bytes(frame_flags(b), frame_body(b)))
}

/// Builds the signed challenge for the given flags and payload.
fn make_challenge(flags: u8, body: &[u8]) -> (r: Vec<u8>)
    ensures
        r@ == challenge_bytes(flags, body@),
{
    let mut v: Vec<u8> = Vec::new();
    v.push(flags);
    extend_bytes(&mut v, body);
    assert(v@ =~= seq![flags] + body@);
    v
}

/// Encodes `body` and `flags` into a signed envelope under the secret key
/// `sk`: the envelope embeds the public key derived from `sk` and a
/// signature that makes the result a valid envelope carrying exactly
/// `body`. Fails with `InvalidSecretKey` exactly when `sk` is not a
/// canonical secret key encoding, or is the zero key, whose signatures
/// never verify; `SigningFailed` only when the signing primitive itself
/// fails.
pub fn encode(sk: &[u8], flags: MessageFlags, body: &[u8]) -> (r: Result<Vec<u8>, EncodeError>)
    ensures
        r matches Ok(b) ==> {
            &&& envelope_valid(b@)
            &&& b@.len() == HEADER_LEN + body@.len()
            &&& frame_public_key(b@) == public_key_of(sk@)
            &&& frame_flags(b@) == flags.bits
            &&& frame_body(b@) == body@
        },
        r matches Err(e) && e is InvalidSecretKey <==> !valid_secret_key(sk@) || zero_bytes(sk@),
{
    if is_zero_bytes(sk) {
        return Err(EncodeError::InvalidSecretKey);
    }
    let pk = match derive_public_key(sk) {
        Some(p) => p,
        None => {
            return Err(EncodeError::InvalidSecretKey);
        },
    };
    let challenge = make_challenge(flags.bits, body);
    let sig = match sign_message(sk, challenge.as_slice()) {
        Some(s) => s,
        None => {
            return Err(EncodeError::SigningFailed);
        },
    };
    let mut out = pk;
    extend_bytes(&mut out, sig.as_slice());
    out.push(flags.bits);
    extend_bytes(&mut out, body);
    proof {
        assert(frame_public_key(out@) =~= public_key_of(sk@));
        assert(frame_signature(out@) =~= sig@);
        assert(frame_flags(out@) == flags.bits);
        assert(frame_body(out@) =~= body@);
        assert(challenge_bytes(frame_flags(out@), frame_body(out@)) =~= challenge@);
    }
    Ok(out)
}

/// Decodes a byte string as a signed envelope. Succeeds exactly on valid
/// envelopes, and then returns exactly the embedded fields; a frame too
/// short for the header is `MalformedFrame`, an intact frame whose
/// signature does not verify is `InvalidSignature`.
pub fn decode(bytes: &[u8]) -> (r: Result<Envelope, DecodeError>)
    ensures
        r is Ok <==> envelope_valid(bytes@),
        r matches Ok(env) ==> {
            &&& env.public_key@ == frame_public_key(bytes@)
            &&& env.signature@ == frame_signature(bytes@)
            &&& env.flags.bits == frame_flags(bytes@)
            &&& env.body@ == frame_body(bytes@)
        },
        r matches Err(e) ==> (e is MalformedFrame <==> !frame_well_formed(bytes@)),
{
    if bytes.len() < HEADER_LEN {
        return Err(DecodeError::MalformedFrame);
    }
    let pk = copy_range(bytes, 0, PUBLIC_KEY_LEN);
    let sig = copy_range(bytes, PUBLIC_KEY_LEN, PUBLIC_KEY_LEN + SIGNATURE_LEN);
    let flags: u8 = bytes[HEADER_LEN - 1];
    let body = copy_range(bytes, HEADER_LEN, bytes.len());
    let challenge = make_challenge(flags, body.as_slice());
    if verify_signature(pk.as_slice(), sig.as_slice(), challenge.as_slice()) {
        Ok(Envelope { public_key: pk, signature: sig, flags: MessageFlags { bits: flags }, body })
    } else {
        Err(DecodeError::InvalidSignature)
    }
}

} // verus!
