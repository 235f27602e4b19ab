//! The client commands that submit market operations: each builds one signed
//! trusted operation for the account whose key pair the caller has selected.

use vstd::prelude::*;
use crate::getter::{Getter, TrustedGetter};
use crate::keys::{ed25519_public, public_of};
use crate::operation::{TrustedCall, TrustedOperation};
use crate::scale::utf8;

verus! {

/// Fetches the market results of one timestamp.
#[derive(Clone, Debug)]
pub struct GetMarketResultsCommand {
    /// The account, in ss58check form.
    pub account: String,
    pub timestamp: String,
}

/// Submits the account's orders for pay-as-bid matching.
#[derive(Clone, Debug)]
pub struct PayAsBidCommand {
    /// The account, in ss58check form.
    pub account: String,
    pub orders_string: String,
}

/// Fetches the proof that an actor's orders took part in a pay-as-bid
/// matching.
#[derive(Clone, Debug)]
pub struct PayAsBidProofCommand {
    /// The account, in ss58check form.
    pub account: String,
    pub timestamp: String,
    pub actor_id: String,
}

impl GetMarketResultsCommand {
    /// The signed getter for the results, from the account whose seed is
    /// `seed`.
    pub fn run(&self, seed: &[u8; 32]) -> (r: TrustedOperation)
        requires
            utf8(self.timestamp).len() <= u32::MAX,
        ensures
            r matches TrustedOperation::get(Getter::trusted(s)) && s.getter
                matches TrustedGetter::get_market_results(a, t) && a@ == public_of(seed@) && t
                == self.timestamp && s.valid(),
    {
        let who = ed25519_public(seed);
        let getter = TrustedGetter::get_market_results(who, self.timestamp.clone());
        TrustedOperation::get(Getter::trusted(getter.sign(seed)))
    }
}

impl PayAsBidCommand {
    /// The signed pay-as-bid call from the account whose seed is `seed`, with
    /// its nonce, for the given enclave and shard, sent direct or through the
    /// chain.
    pub fn run(
        &self,
        seed: &[u8; 32],
        nonce: u32,
        mrenclave: &[u8; 32],
        shard: &[u8; 32],
        direct: bool,
    ) -> (r: TrustedOperation)
        requires
            utf8(self.orders_string).len() <= u32::MAX,
        ensures
            ({
                let c = match r {
                    TrustedOperation::direct_call(c) => c,
                    TrustedOperation::indirect_call(c) => c,
                    TrustedOperation::get(_) => arbitrary(),
                };
                &&& direct ==> r is direct_call
                &&& !direct ==> r is indirect_call
                &&& c.call->pay_as_bid_0@ == public_of(seed@)
                &&& c.call->pay_as_bid_1 == self.orders_string
                &&& c.nonce == nonce
                &&& c.valid(mrenclave@, shard@)
            }),
    {
        let who = ed25519_public(seed);
        let call = TrustedCall::pay_as_bid(who, self.orders_string.clone());
        call.sign(seed, nonce, mrenclave, shard).into_trusted_operation(direct)
    }
}

impl PayAsBidProofCommand {
    /// The signed getter for the proof, from the account whose seed is
    /// `seed`.
    pub fn run(&self, seed: &[u8; 32]) -> (r: TrustedOperation)
        requires
            utf8(self.timestamp).len() <= u32::MAX,
            utf8(self.actor_id).len() <= u32::MAX,
        ensures
            r matches TrustedOperation::get(Getter::trusted(s)) && s.getter
                matches TrustedGetter::pay_as_bid_proof(a, t, x) && a@ == public_of(seed@) && t
                == self.timestamp && x == self.actor_id && s.valid(),
    {
        let who = ed25519_public(seed);
        let getter = TrustedGetter::pay_as_bid_proof(
            who,
            self.timestamp.clone(),
            self.actor_id.clone(),
        );
        TrustedOperation::get(Getter::trusted(getter.sign(seed)))
    }
}

} // verus!
