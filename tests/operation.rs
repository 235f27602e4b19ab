use base58::ToBase58;
use parity_scale_codec::Encode;
use stf_worker::commands::{GetMarketResultsCommand, PayAsBidCommand, PayAsBidProofCommand};
use stf_worker::getter::{Getter, TrustedGetter};
use stf_worker::keys::signing_public_key;
use stf_worker::operation::{
    encode_request, read_shard, ConfigError, Delivery, TrustedCall, TrustedOperation,
};

#[test]
fn shard_from_base58() {
    let shard = [3u8; 32];
    let text = shard.to_base58();
    assert_eq!(read_shard(&Some(text.clone()), &"0OIl".to_string()), Ok(shard));
    assert_eq!(read_shard(&None, &text), Ok(shard));
    assert_eq!(read_shard(&None, &"0OIl".to_string()), Err(ConfigError::InvalidBase58));
    assert_eq!(read_shard(&None, &[1u8; 8].to_base58()), Err(ConfigError::TooShort));
    let long = "1".repeat(200);
    assert_eq!(read_shard(&Some(long), &text), Err(ConfigError::TooLong));
    let zeros = "1".repeat(32);
    assert_eq!(read_shard(&None, &zeros), Ok([0u8; 32]));
}

#[test]
fn request_envelope_encoding() {
    let r = encode_request(&[1u8; 32], &[9, 8, 7]);
    let mut expected = vec![1u8; 32];
    expected.extend(vec![9u8, 8, 7].encode());
    assert_eq!(r, expected);
}

#[test]
fn signed_call_verifies_and_routes() {
    let seed = [4u8; 32];
    let who = signing_public_key(&seed);
    let call = TrustedCall::pay_as_bid(who, "[]".to_string());
    let signed = call.sign(&seed, 3, &[1u8; 32], &[2u8; 32]);
    assert!(signed.verify_signature(&[1u8; 32], &[2u8; 32]));
    assert!(!signed.verify_signature(&[1u8; 32], &[3u8; 32]));
    let direct = signed.clone().into_trusted_operation(true);
    assert_eq!(direct.delivery(), Delivery::Direct);
    let indirect = signed.into_trusted_operation(false);
    assert_eq!(indirect.delivery(), Delivery::Chain);
}

#[test]
fn market_results_command_builds_signed_getter() {
    let seed = [5u8; 32];
    let cmd = GetMarketResultsCommand { account: "//Alice".to_string(), timestamp: "2023-01-01".to_string() };
    let top = cmd.run(&seed);
    assert_eq!(top.delivery(), Delivery::Query);
    match top {
        TrustedOperation::get(Getter::trusted(s)) => {
            assert!(s.verify_signature());
            match s.getter {
                TrustedGetter::get_market_results(a, t) => {
                    assert_eq!(a, signing_public_key(&seed));
                    assert_eq!(t, "2023-01-01");
                },
                other => panic!("unexpected {:?}", other),
            }
        },
        other => panic!("unexpected {:?}", other),
    }
}

#[test]
fn pay_as_bid_command_builds_signed_call() {
    let seed = [6u8; 32];
    let cmd = PayAsBidCommand { account: "//Bob".to_string(), orders_string: "[1]".to_string() };
    let top = cmd.run(&seed, 11, &[1u8; 32], &[2u8; 32], true);
    match top {
        TrustedOperation::direct_call(c) => {
            assert_eq!(c.nonce, 11);
            assert!(c.verify_signature(&[1u8; 32], &[2u8; 32]));
            let TrustedCall::pay_as_bid(a, o) = c.call;
            assert_eq!(a, signing_public_key(&seed));
            assert_eq!(o, "[1]");
        },
        other => panic!("unexpected {:?}", other),
    }
}

#[test]
fn pay_as_bid_proof_command_builds_signed_getter() {
    let seed = [7u8; 32];
    let cmd = PayAsBidProofCommand {
        account: "//Charlie".to_string(),
        timestamp: "t".to_string(),
        actor_id: "actor".to_string(),
    };
    match cmd.run(&seed) {
        TrustedOperation::get(Getter::trusted(s)) => {
            assert!(s.verify_signature());
            match s.getter {
                TrustedGetter::pay_as_bid_proof(_, t, x) => {
                    assert_eq!(t, "t");
                    assert_eq!(x, "actor");
                },
                other => panic!("unexpected {:?}", other),
            }
        },
        other => panic!("unexpected {:?}", other),
    }
}
