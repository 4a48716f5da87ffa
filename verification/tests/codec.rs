//! The envelope codec against the real signature scheme: round trips,
//! tampering, and error classification.

use messaging::envelope::{decode, encode, DecodeError, EncodeError, HEADER_LEN};
use messaging::frame::{encode_frame, try_decode_frame};
use messaging::message::MessageFlags;

use tari_crypto::keys::PublicKey;
use tari_crypto::ristretto::{RistrettoPublicKey, RistrettoSecretKey};
use tari_crypto::tari_utilities::ByteArray;

fn secret_key_bytes(fill: u8) -> Vec<u8> {
    // a small canonical scalar: low bytes set, high bytes zero
    let mut sk = vec![0u8; 32];
    sk[0] = fill;
    sk[1] = 3;
    sk
}

#[test]
fn encode_then_decode_roundtrip() {
    let sk = secret_key_bytes(7);
    let body = b"TEST_MSG1".to_vec();
    let frame = encode(&sk, MessageFlags::none(), &body).unwrap();
    assert_eq!(frame.len(), HEADER_LEN + body.len());

    let env = decode(&frame).unwrap();
    assert_eq!(env.body, body);
    assert_eq!(env.flags, MessageFlags::none());

    // the embedded key is the one the crypto library derives from sk
    let secret = RistrettoSecretKey::from_canonical_bytes(&sk).unwrap();
    let expected_pk = RistrettoPublicKey::from_secret_key(&secret);
    assert_eq!(env.public_key, expected_pk.as_bytes().to_vec());
}

#[test]
fn encode_roundtrip_keeps_flags() {
    let sk = secret_key_bytes(9);
    let body = vec![0u8, 255, 1, 2];
    let frame = encode(&sk, MessageFlags::encrypted(), &body).unwrap();
    let env = decode(&frame).unwrap();
    assert_eq!(env.flags, MessageFlags::encrypted());
    assert_eq!(env.body, body);
}

#[test]
fn encode_empty_body_roundtrip() {
    let sk = secret_key_bytes(4);
    let frame = encode(&sk, MessageFlags::none(), &[]).unwrap();
    assert_eq!(frame.len(), HEADER_LEN);
    let env = decode(&frame).unwrap();
    assert!(env.body.is_empty());
}

#[test]
fn tampered_payload_rejected() {
    let sk = secret_key_bytes(7);
    let body = b"payload under signature".to_vec();
    let mut frame = encode(&sk, MessageFlags::none(), &body).unwrap();
    let last = frame.len() - 1;
    frame[last] ^= 0x01;
    assert_eq!(decode(&frame).unwrap_err(), DecodeError::InvalidSignature);
}

#[test]
fn tampered_flags_rejected() {
    let sk = secret_key_bytes(7);
    let body = b"x".to_vec();
    let mut frame = encode(&sk, MessageFlags::none(), &body).unwrap();
    frame[HEADER_LEN - 1] ^= 0x01;
    assert_eq!(decode(&frame).unwrap_err(), DecodeError::InvalidSignature);
}

#[test]
fn swapped_sender_key_rejected() {
    let sk1 = secret_key_bytes(7);
    let sk2 = secret_key_bytes(8);
    let body = b"hello".to_vec();
    let frame1 = encode(&sk1, MessageFlags::none(), &body).unwrap();
    let frame2 = encode(&sk2, MessageFlags::none(), &body).unwrap();
    // graft the second sender's public key onto the first envelope
    let mut grafted = frame1.clone();
    grafted[..32].copy_from_slice(&frame2[..32]);
    assert_eq!(decode(&grafted).unwrap_err(), DecodeError::InvalidSignature);
}

#[test]
fn short_frame_malformed() {
    assert_eq!(decode(&[0u8; 10]).unwrap_err(), DecodeError::MalformedFrame);
    assert_eq!(decode(&[]).unwrap_err(), DecodeError::MalformedFrame);
    assert_eq!(
        decode(&vec![0u8; HEADER_LEN - 1]).unwrap_err(),
        DecodeError::MalformedFrame
    );
}

#[test]
fn header_sized_garbage_is_bad_signature_not_malformed() {
    assert_eq!(
        decode(&vec![0u8; HEADER_LEN]).unwrap_err(),
        DecodeError::InvalidSignature
    );
}

#[test]
fn encode_invalid_secret_key() {
    // wrong length is never a canonical secret key
    assert_eq!(
        encode(&[1u8; 5], MessageFlags::none(), b"m").unwrap_err(),
        EncodeError::InvalidSecretKey
    );
    // a non-canonical scalar encoding (all 0xff) is rejected too
    assert_eq!(
        encode(&[0xffu8; 32], MessageFlags::none(), b"m").unwrap_err(),
        EncodeError::InvalidSecretKey
    );
}

#[test]
fn frame_round_trip() {
    let wire = encode_frame(b"abc");
    assert_eq!(wire, vec![0, 0, 0, 3, b'a', b'b', b'c']);
    let (payload, used) = try_decode_frame(&wire).unwrap();
    assert_eq!(payload, b"abc".to_vec());
    assert_eq!(used, 7);
}

#[test]
fn frame_decode_leaves_trailing_bytes() {
    let mut wire = encode_frame(b"first");
    wire.extend_from_slice(&encode_frame(b"second"));
    let (p1, used1) = try_decode_frame(&wire).unwrap();
    assert_eq!(p1, b"first".to_vec());
    let (p2, used2) = try_decode_frame(&wire[used1..]).unwrap();
    assert_eq!(p2, b"second".to_vec());
    assert_eq!(used1 + used2, wire.len());
}

#[test]
fn frame_incomplete_needs_more_bytes() {
    assert!(try_decode_frame(&[]).is_none());
    assert!(try_decode_frame(&[0, 0]).is_none());
    // declares 5 payload bytes but only 2 arrived
    assert!(try_decode_frame(&[0, 0, 0, 5, 1, 2]).is_none());
}

#[test]
fn frame_empty_payload() {
    let wire = encode_frame(b"");
    let (payload, used) = try_decode_frame(&wire).unwrap();
    assert!(payload.is_empty());
    assert_eq!(used, 4);
}

#[test]
fn zero_secret_key_rejected() {
    // the zero scalar's public key is the identity point, which
    // verification refuses, so encoding with it is refused up front
    assert_eq!(
        encode(&[0u8; 32], MessageFlags::none(), b"m").unwrap_err(),
        EncodeError::InvalidSecretKey
    );
}
