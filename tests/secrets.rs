use parity_scale_codec::{Compact, Encode};
use stf_worker::keys::{sign, signing_public_key};
use stf_worker::secrets::{
    compose_extrinsic, confirm_call, encode_compact64, get_rsa_encryption_pubkey, get_ecc_signing_pubkey,
    BufferError, SealedKeys,
};

fn verify(sig: [u8; 64], msg: &[u8], public: [u8; 32]) -> bool {
    let sig = sp_core::ed25519::Signature::from_raw(sig);
    let public = sp_core::ed25519::Public::from_raw(public);
    <sp_core::ed25519::Pair as sp_core::Pair>::verify(&sig, msg, &public)
}

#[test]
fn ensured_key_is_stable() {
    let mut keys = SealedKeys { signing_seed: None };
    let first = keys.ensure_signing_key([1u8; 32]);
    let second = keys.ensure_signing_key([2u8; 32]);
    assert_eq!(first, second);
    assert_eq!(first, signing_public_key(&[1u8; 32]));
    assert_eq!(keys.signing_seed, Some([1u8; 32]));
}

#[test]
fn sign_message_verifies() {
    let sig = sign(&[3u8; 32], b"hello");
    assert!(verify(sig, b"hello", signing_public_key(&[3u8; 32])));
    assert!(!verify(sig, b"hellp", signing_public_key(&[3u8; 32])));
}

#[test]
fn pubkey_buffer_is_padded() {
    assert_eq!(get_rsa_encryption_pubkey(b"{}", 5), Ok(vec![b'{', b'}', 0x20, 0x20, 0x20]));
    assert_eq!(get_rsa_encryption_pubkey(b"{}", 2), Ok(b"{}".to_vec()));
    assert_eq!(get_rsa_encryption_pubkey(b"{abc}", 2), Err(BufferError::WrongSize));
}

#[test]
fn signing_pubkey_buffer_needs_32_bytes() {
    let mut keys = SealedKeys { signing_seed: Some([5u8; 32]) };
    assert_eq!(get_ecc_signing_pubkey(&mut keys, [6u8; 32], 31), Err(BufferError::WrongSize));
    assert_eq!(get_ecc_signing_pubkey(&mut keys, [6u8; 32], 32), Ok(signing_public_key(&[5u8; 32])));
}

#[test]
fn compact64_matches_scale() {
    for v in [0u64, 63, 64, 16383, 16384, (1 << 30) - 1, 1 << 30, u32::MAX as u64, 1 << 40, u64::MAX] {
        assert_eq!(encode_compact64(v), Compact(v).encode(), "value {}", v);
    }
}

#[test]
fn extrinsic_is_signed_over_its_payload() {
    let mut nonce = [0u8; 32];
    nonce[0] = 7;
    nonce[9] = 1;
    let call = confirm_call(6, 1, &[9u8; 32]);
    let mut expected_call = vec![6u8, 1];
    expected_call.extend(vec![9u8; 32].encode());
    assert_eq!(call, expected_call);
    let genesis = [8u8; 32];
    let xt = compose_extrinsic(&[2u8; 32], &call, &nonce, &genesis);
    assert_eq!(xt.index, 7);
    assert_eq!(xt.function, call);
    assert_eq!(xt.signer, signing_public_key(&[2u8; 32]));
    let mut payload = Compact(7u64).encode();
    payload.extend_from_slice(&call);
    payload.push(0);
    payload.extend_from_slice(&genesis);
    assert!(verify(xt.signature, &payload, xt.signer));
}

#[test]
fn oversized_extrinsic_signs_digest() {
    let call = vec![1u8; 300];
    let xt = compose_extrinsic(&[2u8; 32], &call, &[0u8; 32], &[0u8; 32]);
    let mut payload = Compact(0u64).encode();
    payload.extend_from_slice(&call);
    payload.push(0);
    payload.extend_from_slice(&[0u8; 32]);
    assert!(verify(xt.signature, &sp_core::hashing::blake2_256(&payload), xt.signer));
    assert!(!verify(xt.signature, &[0u8; 64], xt.signer));
}

#[test]
fn extrinsic_wire_form() {
    let mut nonce = [0u8; 32];
    nonce[0] = 70;
    let xt = compose_extrinsic(&[2u8; 32], &[4, 5], &nonce, &[3u8; 32]);
    let mut inner = vec![0x81u8];
    inner.extend_from_slice(&xt.signer);
    inner.extend_from_slice(&xt.signature);
    inner.extend(Compact(70u64).encode());
    inner.push(0);
    inner.extend_from_slice(&[4, 5]);
    assert_eq!(xt.encode(), inner.encode());
}
