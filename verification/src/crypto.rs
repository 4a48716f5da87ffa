//! The signature scheme behind the envelope, reached through trusted
//! wrappers around the Schnorr signatures of the `tari_crypto` crate.
//!
//! A secret key, a public key and a signature are carried as plain byte
//! vectors: a secret key is a 32-byte canonical Ristretto scalar, a public
//! key a 32-byte compressed Ristretto point, and a signature the 32-byte
//! compressed public nonce followed by the 32-byte signature scalar.

use vstd::prelude::*;

use tari_crypto::keys::{PublicKey, SecretKey};
use tari_crypto::ristretto::{RistrettoPublicKey, RistrettoSchnorr, RistrettoSecretKey};
use tari_crypto::tari_utilities::ByteArray;

verus! {

/// Whether `sk` is a canonical 32-byte encoding of a Ristretto secret key,
/// as `RistrettoSecretKey::from_canonical_bytes` accepts it.
pub uninterp spec fn valid_secret_key(sk: Seq<u8>) -> bool;

/// All-zero bytes: the canonical encoding of the zero scalar. The zero
/// secret key is unusable for signing — its public key is the identity
/// point, which signature verification rejects outright.
pub open spec fn zero_bytes(s: Seq<u8>) -> bool {
    forall|i: int| 0 <= i < s.len() ==> s[i] == 0
}

/// Whether the bytes are all zero.
pub(crate) fn is_zero_bytes(b: &[u8]) -> (r: bool)
    ensures
        r == zero_bytes(b@),
{
    let n: usize = b.len();
    let mut i: usize = 0;
    while i < n
        invariant
            0 <= i <= n,
            n == b@.len(),
            forall|k: int| 0 <= k < i ==> b@[k] == 0,
        decreases n - i,
    {
        if b[i] != 0 {
            return false;
        }
        i = i + 1;
    }
    true
}

/// The compressed public key that `RistrettoPublicKey::from_secret_key`
/// derives from the secret key encoded by `sk`.
pub uninterp spec fn public_key_of(sk: Seq<u8>) -> Seq<u8>;

/// Whether the Schnorr signature encoded by `sig` verifies against the
/// public key encoded by `pk` over `msg`, as `SchnorrSignature::verify`
/// decides it. Verification is a function of the three byte strings alone.
pub uninterp spec fn sig_verifies(pk: Seq<u8>, sig: Seq<u8>, msg: Seq<u8>) -> bool;

/// Relies on `RistrettoSecretKey::from_canonical_bytes` and
/// `RistrettoPublicKey::from_secret_key`: parsing succeeds exactly on
/// canonical secret key bytes, and the derived compressed public key is a
/// function of the secret key alone, 32 bytes long.
#[verifier::external_body]
pub(crate) fn derive_public_key(sk: &[u8]) -> (r: Option<Vec<u8>>)
    ensures
        r is Some <==> valid_secret_key(sk@),
        r matches Some(pk) ==> pk@ == public_key_of(sk@) && pk@.len() == 32,
{
    let secret = match RistrettoSecretKey::from_canonical_bytes(sk) {
        Ok(s) => s,
        Err(_) => return None,
    };
    Some(RistrettoPublicKey::from_secret_key(&secret).as_bytes().to_vec())
}

/// Relies on `SchnorrSignature::sign_with_nonce_and_message`: a signature
/// produced with a nonzero secret key encoded by `sk` verifies, under
/// `SchnorrSignature::verify`, against the public key derived from `sk`,
/// over the signed message. The zero key is excluded: verification
/// rejects its identity public key. The nonce is drawn fresh from the
/// operating system, so nothing more is promised of the signature bytes
/// themselves.
#[verifier::external_body]
pub(crate) fn sign_message(sk: &[u8], msg: &[u8]) -> (r: Option<Vec<u8>>)
    requires
        !zero_bytes(sk@),
    ensures
        r matches Some(sig) ==> sig@.len() == 64 && sig_verifies(
            public_key_of(sk@),
            sig@,
            msg@,
        ) && valid_secret_key(sk@),
{
    let secret = RistrettoSecretKey::from_canonical_bytes(sk).ok()?;
    let mut nonce_bytes = [0u8; 64];
    getrandom::fill(&mut nonce_bytes).ok()?;
    let nonce = RistrettoSecretKey::from_uniform_bytes(&nonce_bytes).ok()?;
    let sig = RistrettoSchnorr::sign_with_nonce_and_message(&secret, nonce, msg).ok()?;
    let mut out = sig.get_public_nonce().as_bytes().to_vec();
    out.extend_from_slice(sig.get_signature().as_bytes());
    Some(out)
}

/// Relies on `SchnorrSignature::verify`: returns whether the signature
/// encoded by `sig` verifies against the public key encoded by `pk` over
/// `msg`; malformed key or signature bytes never verify. The outcome is
/// deterministic in the three inputs.
#[verifier::external_body]
pub(crate) fn verify_signature(pk: &[u8], sig: &[u8], msg: &[u8]) -> (r: bool)
    ensures
        r == sig_verifies(pk@, sig@, msg@),
{
    if sig.len() != 64 {
        return false;
    }
    let public = RistrettoPublicKey::from_canonical_bytes(pk);
    let nonce = RistrettoPublicKey::from_canonical_bytes(&sig[..32]);
    let scalar = RistrettoSecretKey::from_canonical_bytes(&sig[32..]);
    match (public, nonce, scalar) {
        (Ok(p), Ok(n), Ok(s)) => RistrettoSchnorr::new(n, s).verify(&p, msg),
        _ => false,
    }
}

} // verus!
