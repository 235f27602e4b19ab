use parity_scale_codec::Encode;
use stf_worker::getter::{
    AccountInfo, Execution, Getter, PublicGetter, RuntimeState, TrustedGetter, TrustedGetterSigned,
};
use stf_worker::keys::signing_public_key;

fn seed(n: u8) -> [u8; 32] {
    [n; 32]
}

fn empty_state() -> RuntimeState {
    RuntimeState { accounts: vec![], evm_codes: vec![], evm_storages: vec![] }
}

#[test]
fn public_getter_answers_42() {
    let r = Getter::public(PublicGetter::some_value).execute(&empty_state(), false);
    match r {
        Execution::Value(Some(v)) => assert_eq!(v, 42u32.encode()),
        other => panic!("unexpected {:?}", other),
    }
}

#[test]
fn getter_encoding_matches_scale() {
    let who = signing_public_key(&seed(1));
    let g = TrustedGetter::custom_fair(who, "orders.json".to_string(), "fees.json".to_string());
    let mut expected = vec![7u8];
    expected.extend_from_slice(&who);
    expected.extend("orders.json".to_string().encode());
    expected.extend("fees.json".to_string().encode());
    assert_eq!(g.encode(), expected);
    let n = TrustedGetter::nonce(who);
    let mut expected = vec![2u8];
    expected.extend_from_slice(&who);
    assert_eq!(n.encode(), expected);
}

#[test]
fn signed_getter_verifies_for_its_sender() {
    let who = signing_public_key(&seed(3));
    let signed = TrustedGetter::free_balance(who).sign(&seed(3));
    assert!(signed.verify_signature());
    let payload = TrustedGetter::free_balance(who).encode();
    let sig = sp_core::ed25519::Signature::from_raw(signed.signature);
    let public = sp_core::ed25519::Public::from_raw(who);
    assert!(<sp_core::ed25519::Pair as sp_core::Pair>::verify(&sig, &payload, &public));
}

#[test]
fn signed_getter_fails_for_another_sender() {
    let other = signing_public_key(&seed(4));
    let signed = TrustedGetter::free_balance(other).sign(&seed(3));
    assert!(!signed.verify_signature());
}

#[test]
fn flipped_signature_or_payload_fails() {
    let who = signing_public_key(&seed(5));
    let signed = TrustedGetter::pay_as_bid(who, "orders.json".to_string()).sign(&seed(5));
    let mut bad = signed.clone();
    bad.signature[10] ^= 1;
    assert!(!bad.verify_signature());
    let changed = TrustedGetterSigned::new(
        TrustedGetter::pay_as_bid(who, "orders.jsom".to_string()),
        signed.signature,
    );
    assert!(!changed.verify_signature());
}

#[test]
fn balances_and_nonce_are_read_from_state() {
    let who = signing_public_key(&seed(6));
    let st = RuntimeState {
        accounts: vec![(who, AccountInfo { nonce: 7, free: 1000, reserved: 25 })],
        evm_codes: vec![],
        evm_storages: vec![],
    };
    let free = Getter::trusted(TrustedGetter::free_balance(who).sign(&seed(6))).execute(&st, false);
    match free {
        Execution::Value(Some(v)) => assert_eq!(v, 1000u128.encode()),
        other => panic!("unexpected {:?}", other),
    }
    let reserved =
        Getter::trusted(TrustedGetter::reserved_balance(who).sign(&seed(6))).execute(&st, false);
    match reserved {
        Execution::Value(Some(v)) => assert_eq!(v, 25u128.encode()),
        other => panic!("unexpected {:?}", other),
    }
    let nonce = Getter::trusted(TrustedGetter::nonce(who).sign(&seed(6))).execute(&st, false);
    match nonce {
        Execution::Value(Some(v)) => assert_eq!(v, vec![7, 0, 0, 0]),
        other => panic!("unexpected {:?}", other),
    }
}

#[test]
fn unknown_account_has_zero_balance() {
    let who = signing_public_key(&seed(8));
    let r = Getter::trusted(TrustedGetter::free_balance(who).sign(&seed(8)))
        .execute(&empty_state(), false);
    match r {
        Execution::Value(Some(v)) => assert_eq!(v, vec![0u8; 16]),
        other => panic!("unexpected {:?}", other),
    }
}

#[test]
fn bad_signature_is_rejected() {
    let who = signing_public_key(&seed(9));
    let mut signed = TrustedGetter::free_balance(who).sign(&seed(9));
    signed.signature[0] ^= 0xff;
    let r = Getter::trusted(signed).execute(&empty_state(), false);
    assert!(matches!(r, Execution::Rejected));
}

#[test]
fn evm_code_absent_differs_from_empty() {
    let who = signing_public_key(&seed(10));
    let st = RuntimeState {
        accounts: vec![],
        evm_codes: vec![([1u8; 20], vec![]), ([2u8; 20], vec![0x60, 0x80])],
        evm_storages: vec![],
    };
    let q = |addr: [u8; 20]| {
        Getter::trusted(TrustedGetter::evm_account_codes(who, addr).sign(&seed(10)))
            .execute(&st, true)
    };
    match q([1u8; 20]) {
        Execution::Value(Some(v)) => assert!(v.is_empty()),
        other => panic!("unexpected {:?}", other),
    }
    assert!(matches!(q([3u8; 20]), Execution::Value(None)));
    match q([2u8; 20]) {
        Execution::Value(Some(v)) => assert_eq!(v, vec![0x60, 0x80]),
        other => panic!("unexpected {:?}", other),
    }
}

#[test]
fn evm_storage_lookup() {
    let who = signing_public_key(&seed(11));
    let st = RuntimeState {
        accounts: vec![],
        evm_codes: vec![],
        evm_storages: vec![([1u8; 20], [2u8; 32], [9u8; 32])],
    };
    let hit = Getter::trusted(
        TrustedGetter::evm_account_storages(who, [1u8; 20], [2u8; 32]).sign(&seed(11)),
    )
    .execute(&st, true);
    match hit {
        Execution::Value(Some(v)) => assert_eq!(v, vec![9u8; 32]),
        other => panic!("unexpected {:?}", other),
    }
    let miss = Getter::trusted(
        TrustedGetter::evm_account_storages(who, [1u8; 20], [3u8; 32]).sign(&seed(11)),
    )
    .execute(&st, true);
    assert!(matches!(miss, Execution::Value(None)));
}

#[test]
fn evm_nonce_reads_mapped_account() {
    let who = signing_public_key(&seed(12));
    let mut data = b"evm:".to_vec();
    data.extend_from_slice(&who[0..20]);
    let mapped = sp_core::hashing::blake2_256(&data);
    let st = RuntimeState {
        accounts: vec![(mapped, AccountInfo { nonce: 3, free: 0, reserved: 0 })],
        evm_codes: vec![],
        evm_storages: vec![],
    };
    let r = Getter::trusted(TrustedGetter::evm_nonce(who).sign(&seed(12))).execute(&st, true);
    match r {
        Execution::Value(Some(v)) => assert_eq!(v, vec![3, 0, 0, 0]),
        other => panic!("unexpected {:?}", other),
    }
}

#[test]
fn evm_queries_unsupported_when_disabled() {
    let who = signing_public_key(&seed(13));
    let r = Getter::trusted(TrustedGetter::evm_nonce(who).sign(&seed(13)))
        .execute(&empty_state(), false);
    assert!(matches!(r, Execution::Unsupported));
}

#[test]
fn market_getters_go_to_host() {
    let who = signing_public_key(&seed(14));
    let g = TrustedGetter::pay_as_bid(who, "orders.json".to_string());
    let r = Getter::trusted(g.sign(&seed(14))).execute(&empty_state(), false);
    match r {
        Execution::Host(TrustedGetter::pay_as_bid(a, f)) => {
            assert_eq!(a, who);
            assert_eq!(f, "orders.json");
        },
        other => panic!("unexpected {:?}", other),
    }
}

#[test]
fn sender_account_of_each_kind() {
    let who = signing_public_key(&seed(15));
    assert_eq!(*TrustedGetter::nonce(who).sender_account(), who);
    assert_eq!(
        *TrustedGetter::custom_fair(who, "a".to_string(), "b".to_string()).sender_account(),
        who
    );
    assert_eq!(*TrustedGetter::evm_account_codes(who, [0u8; 20]).sender_account(), who);
    assert!(Getter::public(PublicGetter::some_value).get_storage_hashes_to_update().is_empty());
}

#[test]
fn getter_from_parts() {
    assert!(matches!(Getter::from(PublicGetter::some_value), Getter::public(PublicGetter::some_value)));
    let who = signing_public_key(&seed(16));
    let signed = TrustedGetter::nonce(who).sign(&seed(16));
    match Getter::from(signed) {
        Getter::trusted(s) => assert!(s.verify_signature()),
        other => panic!("unexpected {:?}", other),
    }
}
