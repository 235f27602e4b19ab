use parity_scale_codec::Encode;
use stf_worker::channel::{DirectState, IndirectWait, ProcessedParentchainBlock};
use stf_worker::rpc::{DirectRequestStatus, OperationStatus, RpcReturnValue};

fn response(value: Vec<u8>, do_watch: bool, status: &[u8]) -> Vec<u8> {
    let mut b = value.encode();
    b.push(do_watch as u8);
    b.extend_from_slice(status);
    b
}

#[test]
fn direct_channel_completes_with_result() {
    let mut st = DirectState::new();
    let mut in_block = vec![1u8, 4];
    in_block.extend_from_slice(&[7u8; 32]);
    let obs = st.receive(&response(vec![], true, &in_block));
    assert_eq!(obs, Some(OperationStatus::InSidechainBlock([7u8; 32])));
    assert!(matches!(st, DirectState::Submitted));
    let result = vec![1u8, 2, 3];
    let obs = st.receive(&response(Some(result.clone()).encode(), false, &[0]));
    assert_eq!(obs, None);
    match st {
        DirectState::Completed(Some(v)) => assert_eq!(v, result),
        other => panic!("unexpected {:?}", other),
    }
}

#[test]
fn direct_channel_fails_with_message() {
    let mut st = DirectState::new();
    st.receive(&response("bad request".to_string().encode(), false, &[2]));
    match st {
        DirectState::Failed(m) => assert_eq!(m, "bad request"),
        other => panic!("unexpected {:?}", other),
    }
}

#[test]
fn direct_channel_completes_without_payload() {
    let mut st = DirectState::new();
    st.receive(&response(None::<Vec<u8>>.encode(), false, &[0]));
    assert!(matches!(st, DirectState::Completed(None)));
}

#[test]
fn direct_channel_cancels_on_ignored_status() {
    let mut st = DirectState::new();
    st.receive(&response(vec![], true, &[0]));
    assert!(matches!(st, DirectState::Cancelled));
}

#[test]
fn direct_channel_cancels_on_close() {
    let mut st = DirectState::new();
    st.close();
    assert!(matches!(st, DirectState::Cancelled));
    assert!(st.is_done());
}

#[test]
fn direct_channel_skips_garbage_and_stays_terminal() {
    let mut st = DirectState::new();
    st.receive(&[0xff, 0xff]);
    assert!(matches!(st, DirectState::Submitted));
    st.receive(&response(Some(vec![5u8]).encode(), false, &[0]));
    st.receive(&response("late".to_string().encode(), false, &[2]));
    match st {
        DirectState::Completed(Some(v)) => assert_eq!(v, vec![5u8]),
        other => panic!("unexpected {:?}", other),
    }
}

#[test]
fn direct_channel_undecodable_payload() {
    let mut st = DirectState::new();
    st.receive(&response(vec![9u8], false, &[0]));
    assert!(matches!(st, DirectState::Undecodable));
}

#[test]
fn return_value_decoding() {
    let b = response(vec![1, 2], true, &[1, 7]);
    let rv = RpcReturnValue::decode(&b).unwrap();
    assert_eq!(rv.value, vec![1, 2]);
    assert!(rv.do_watch);
    assert_eq!(rv.status, DirectRequestStatus::TrustedOperationStatus(OperationStatus::Finalized));
    assert!(RpcReturnValue::decode(&response(vec![], true, &[3])).is_none());
    assert!(RpcReturnValue::decode(&response(vec![], true, &[1, 4, 0])).is_none());
    let mut bad_flag = Vec::<u8>::new().encode();
    bad_flag.push(2);
    bad_flag.push(0);
    assert!(RpcReturnValue::decode(&bad_flag).is_none());
}

#[test]
fn long_value_uses_two_byte_length() {
    let value = vec![0xabu8; 300];
    let rv = RpcReturnValue::decode(&response(value.clone(), false, &[2])).unwrap();
    assert_eq!(rv.value, value);
    assert_eq!(rv.status, DirectRequestStatus::Error);
}

#[test]
fn indirect_wait_matches_block_hash() {
    let mut wait = IndirectWait::new([1u8; 32]);
    let other = ProcessedParentchainBlock {
        signer: [0u8; 32],
        block_hash: [2u8; 32],
        merkle_root: [0u8; 32],
    };
    assert!(!wait.on_event(&other));
    assert!(wait.confirmed.is_none());
    let mut bytes = vec![5u8; 32];
    bytes.extend_from_slice(&[1u8; 32]);
    bytes.extend_from_slice(&[6u8; 32]);
    let matching = ProcessedParentchainBlock::decode(&bytes).unwrap();
    assert_eq!(matching.signer, [5u8; 32]);
    assert_eq!(matching.merkle_root, [6u8; 32]);
    assert!(wait.on_event(&matching));
    assert_eq!(wait.confirmed, Some([1u8; 32].encode()));
    assert!(ProcessedParentchainBlock::decode(&bytes[..95]).is_none());
}

#[test]
fn direct_channel_times_out() {
    let mut st = DirectState::new();
    st.expire();
    assert!(matches!(st, DirectState::TimedOut));
    st.receive(&response(Some(vec![1u8]).encode(), false, &[0]));
    assert!(matches!(st, DirectState::TimedOut));
    let mut done = DirectState::new();
    done.receive(&response(None::<Vec<u8>>.encode(), false, &[0]));
    done.expire();
    assert!(matches!(done, DirectState::Completed(None)));
}

#[test]
fn indirect_wait_times_out() {
    let mut wait = IndirectWait::new([1u8; 32]);
    wait.expire();
    assert!(wait.timed_out);
    assert!(wait.is_done());
    let matching = ProcessedParentchainBlock {
        signer: [0u8; 32],
        block_hash: [1u8; 32],
        merkle_root: [0u8; 32],
    };
    assert!(wait.on_event(&matching));
    assert!(wait.confirmed.is_none());
    let mut confirmed = IndirectWait::new([1u8; 32]);
    assert!(confirmed.on_event(&matching));
    confirmed.expire();
    assert!(!confirmed.timed_out);
}

#[test]
fn direct_channel_rejects_non_utf8_error() {
    let mut st = DirectState::new();
    st.receive(&response(vec![0xffu8, 0xfe].encode(), false, &[2]));
    assert!(matches!(st, DirectState::Undecodable));
}
