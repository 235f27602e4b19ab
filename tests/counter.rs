use parity_scale_codec::Encode;
use stf_worker::counter::{
    call_counter_wasm, get_counter, ConfirmationContext, CounterError, CounterRequest, CounterState,
};
use stf_worker::keys::signing_public_key;

/// A module exporting `add(i32, i32) -> i32`.
fn add_module() -> Vec<u8> {
    vec![
        0x00, 0x61, 0x73, 0x6d, 0x01, 0x00, 0x00, 0x00, // header
        0x01, 0x07, 0x01, 0x60, 0x02, 0x7f, 0x7f, 0x01, 0x7f, // type (i32, i32) -> i32
        0x03, 0x02, 0x01, 0x00, // one function of that type
        0x07, 0x07, 0x01, 0x03, 0x61, 0x64, 0x64, 0x00, 0x00, // export "add"
        0x0a, 0x09, 0x01, 0x07, 0x00, 0x20, 0x00, 0x20, 0x01, 0x6a, 0x0b, // local 0 + local 1
    ]
}

#[test]
fn increments_persist_across_reseal() {
    let module = add_module();
    let hash = [4u8; 32];
    let mut st = CounterState::new();
    assert_eq!(st.get(b"alice"), 0);
    assert_eq!(st.call_counter(b"alice", 5, &hash, &hash, &module, "add"), Ok(()));
    assert_eq!(st.entries, vec![(b"alice".to_vec(), 5u32)]);
    assert_eq!(st.call_counter(b"alice", 3, &hash, &hash, &module, "add"), Ok(()));
    assert_eq!(st.entries, vec![(b"alice".to_vec(), 8u32)]);
    let sealed = st.to_bytes();
    let back = CounterState::from_bytes(&sealed).unwrap();
    assert_eq!(back.entries, st.entries);
    assert_eq!(back.get(b"alice"), 8);
}

#[test]
fn digest_mismatch_changes_nothing() {
    let module = add_module();
    let mut st = CounterState::new();
    st.set(b"bob", 2);
    let r = st.call_counter(b"bob", 5, &[1u8; 32], &[2u8; 32], &module, "add");
    assert_eq!(r, Err(CounterError::IntegrityMismatch));
    assert_eq!(st.get(b"bob"), 2);
}

#[test]
fn failed_bytecode_leaves_counter() {
    let mut st = CounterState::new();
    st.set(b"carol", 9);
    let hash = [0u8; 32];
    assert_eq!(st.call_counter(b"carol", 1, &hash, &hash, &[1, 2, 3], "add"), Ok(()));
    assert_eq!(st.get(b"carol"), 9);
    assert_eq!(st.call_counter(b"carol", 1, &hash, &hash, &add_module(), "missing"), Ok(()));
    assert_eq!(st.get(b"carol"), 9);
}

#[test]
fn set_keeps_other_accounts() {
    let mut st = CounterState::new();
    st.set(b"a", 1);
    st.set(b"b", 2);
    st.set(b"a", 3);
    assert_eq!(st.get(b"a"), 3);
    assert_eq!(st.get(b"b"), 2);
    assert_eq!(st.entries.len(), 2);
    st.apply_call_outcome(b"b", None);
    assert_eq!(st.get(b"b"), 2);
    st.apply_call_outcome(b"b", Some(-1));
    assert_eq!(st.get(b"b"), u32::MAX);
}

#[test]
fn sealed_form_layout() {
    let mut st = CounterState::new();
    st.set(b"ab", 0x0102);
    assert_eq!(st.to_bytes(), vec![1, 0, 0, 0, 2, 0, 0, 0, b'a', b'b', 2, 1, 0, 0]);
    assert!(CounterState::from_bytes(&[1, 0, 0]).is_none());
    assert!(CounterState::from_bytes(&[1, 0, 0, 0, 2, 0, 0, 0, b'a']).is_none());
    assert!(CounterState::from_bytes(&[0, 0, 0, 0, 9]).is_none());
    assert_eq!(CounterState::from_bytes(&[0, 0, 0, 0]).unwrap().entries.len(), 0);
}

fn context() -> ConfirmationContext {
    ConfirmationContext { seed: [1u8; 32], nonce: [0u8; 32], genesis_hash: [2u8; 32], pallet: 5, call: 0 }
}

#[test]
fn counter_call_end_to_end() {
    let module = add_module();
    let hash = [7u8; 32];
    let sealed = CounterState::new().to_bytes();
    let request = CounterRequest { account: b"alice".to_vec(), amount: 5, sha256: hash };
    let plaintext = b"{\"account\":\"alice\",\"amount\":5}".to_vec();
    let out = call_counter_wasm(&sealed, &request, &plaintext, &module, "add", &hash, &context())
        .unwrap();
    assert_eq!(get_counter(&out.sealed_state, b"alice"), Ok(5));
    let mut expected_call = vec![5u8, 0];
    expected_call.extend(sp_core::hashing::blake2_256(&plaintext).to_vec().encode());
    assert_eq!(out.extrinsic.function, expected_call);
    assert_eq!(out.extrinsic.signer, signing_public_key(&[1u8; 32]));
    let request = CounterRequest { account: b"alice".to_vec(), amount: 3, sha256: hash };
    let out = call_counter_wasm(&out.sealed_state, &request, &plaintext, &module, "add", &hash, &context())
        .unwrap();
    assert_eq!(get_counter(&out.sealed_state, b"alice"), Ok(8));
}

#[test]
fn counter_call_rejects_bad_digest_and_state() {
    let module = add_module();
    let sealed = CounterState::new().to_bytes();
    let request = CounterRequest { account: b"alice".to_vec(), amount: 5, sha256: [1u8; 32] };
    let r = call_counter_wasm(&sealed, &request, b"x", &module, "add", &[2u8; 32], &context());
    assert_eq!(r.unwrap_err(), CounterError::IntegrityMismatch);
    let r = call_counter_wasm(&[9, 9], &request, b"x", &module, "add", &[1u8; 32], &context());
    assert_eq!(r.unwrap_err(), CounterError::CorruptState);
    assert_eq!(get_counter(&[9, 9], b"alice"), Err(CounterError::CorruptState));
    assert_eq!(get_counter(&sealed, b"nobody"), Ok(0));
}

/// A module exporting `spin(i32, i32) -> i32`, which loops forever.
fn spin_module() -> Vec<u8> {
    vec![
        0x00, 0x61, 0x73, 0x6d, 0x01, 0x00, 0x00, 0x00, // header
        0x01, 0x07, 0x01, 0x60, 0x02, 0x7f, 0x7f, 0x01, 0x7f, // type (i32, i32) -> i32
        0x03, 0x02, 0x01, 0x00, // one function of that type
        0x07, 0x08, 0x01, 0x04, 0x73, 0x70, 0x69, 0x6e, 0x00, 0x00, // export "spin"
        0x0a, 0x0a, 0x01, 0x08, 0x00, 0x03, 0x40, 0x0c, 0x00, 0x0b, 0x00, 0x0b, // loop br 0 end; unreachable
    ]
}

#[test]
fn endless_bytecode_runs_out_of_fuel() {
    let mut st = CounterState::new();
    st.set(b"dave", 4);
    let hash = [0u8; 32];
    assert_eq!(st.call_counter(b"dave", 1, &hash, &hash, &spin_module(), "spin"), Ok(()));
    assert_eq!(st.get(b"dave"), 4);
}

#[test]
fn counter_call_confirmation_is_signed() {
    let hash = [7u8; 32];
    let sealed = CounterState::new().to_bytes();
    let request = CounterRequest { account: b"erin".to_vec(), amount: 2, sha256: hash };
    let mut ctx = context();
    ctx.nonce[0] = 9;
    let out = call_counter_wasm(&sealed, &request, b"req", &add_module(), "add", &hash, &ctx).unwrap();
    assert_eq!(out.extrinsic.index, 9);
    let mut payload = parity_scale_codec::Compact(9u64).encode();
    payload.extend_from_slice(&out.extrinsic.function);
    payload.push(0);
    payload.extend_from_slice(&ctx.genesis_hash);
    let sig = sp_core::ed25519::Signature::from_raw(out.extrinsic.signature);
    let public = sp_core::ed25519::Public::from_raw(out.extrinsic.signer);
    assert!(<sp_core::ed25519::Pair as sp_core::Pair>::verify(&sig, &payload, &public));
}
