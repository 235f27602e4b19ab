//! Trusted operations as a client builds them: signed calls, the operation
//! envelope that selects a delivery channel, the shard a request targets, and
//! the request bytes that carry the encrypted operation.

use vstd::prelude::*;
use base58::FromBase58;
use crate::getter::{AccountId, Getter, Signature};
use crate::keys::{ed25519_sign, ed25519_verify, public_of, signature_of, verifies};
use vstd::utf8::encode_utf8;
use crate::scale::{le_bytes, encode_le, push_all, push_str, push_with_len, utf8, with_len};

verus! {

/// The bytes that base58 text decodes to, or `None` where it is not base58.
pub uninterp spec fn base58_decoded(s: Seq<char>) -> Option<Seq<u8>>;

/// Relies on `base58::FromBase58::from_base58` for `str`, which answers from
/// the text alone; its error becomes `None`. It can panic on long runs of
/// leading `1`s, which no text of at most 44 bytes holds.
#[verifier::external_body]
fn decode_base58(s: &str) -> (r: Option<Vec<u8>>)
    requires
        encode_utf8(s@).len() <= MAX_ID_TEXT,
    ensures
        r is None <==> base58_decoded(s@) is None,
        r matches Some(v) ==> base58_decoded(s@) == Some(v@),
{
    s.from_base58().ok()
}

/// A state-changing call, made on behalf of one account.
#[allow(non_camel_case_types)]
#[derive(Clone, Debug)]
pub enum TrustedCall {
    pay_as_bid(AccountId, String),
}

/// A trusted call with its nonce and its sender's signature.
#[derive(Clone, Debug)]
pub struct TrustedCallSigned {
    pub call: TrustedCall,
    pub nonce: u32,
    pub signature: Signature,
}

/// An operation and the way it travels: as a chain transaction, over the
/// direct channel, or as a getter.
#[allow(non_camel_case_types)]
#[derive(Clone, Debug)]
pub enum TrustedOperation {
    indirect_call(TrustedCallSigned),
    direct_call(TrustedCallSigned),
    get(Getter),
}

/// Which of the client's delivery protocols an operation takes.
#[derive(Clone, Copy, Debug, PartialEq, Eq, Structural)]
pub enum Delivery {
    /// Submitted in a chain transaction and confirmed by an event.
    Chain,
    /// Submitted over the direct channel, following its status stream.
    Direct,
    /// A getter, answered over the direct channel.
    Query,
}

/// The longest base58 text of a 32-byte identifier.
pub const MAX_ID_TEXT: usize = 44;

/// Why the shard identifier could not be read from the configuration.
#[derive(Clone, Copy, Debug, PartialEq, Eq, Structural)]
pub enum ConfigError {
    /// The text is longer than any 32-byte identifier's base58 form.
    TooLong,
    /// The text is not base58.
    InvalidBase58,
    /// The text decodes to fewer than 32 bytes.
    TooShort,
}

impl TrustedCall {
    /// The account that authorises the call.
    pub open spec fn sender(&self) -> AccountId {
        match self {
            TrustedCall::pay_as_bid(a, _) => *a,
        }
    }

    pub open spec fn wf(&self) -> bool {
        match self {
            TrustedCall::pay_as_bid(_, o) => utf8(*o).len() <= u32::MAX,
        }
    }

    pub open spec fn encoded(&self) -> Seq<u8> {
        match self {
            TrustedCall::pay_as_bid(a, o) => seq![0u8] + a@ + with_len(utf8(*o)),
        }
    }

    /// What the sender signs: the call, its nonce, the enclave's
    /// measurement and the shard.
    pub open spec fn signed_payload(&self, nonce: u32, mrenclave: Seq<u8>, shard: Seq<u8>) -> Seq<u8> {
        self.encoded() + le_bytes(nonce as nat, 4) + mrenclave + shard
    }

    pub fn encode(&self) -> (r: Vec<u8>)
        requires
            self.wf(),
        ensures
            r@ == self.encoded(),
    {
        let mut out: Vec<u8> = Vec::new();
        match self {
            TrustedCall::pay_as_bid(a, o) => {
                out.push(0u8);
                push_all(&mut out, a.as_slice());
                push_str(&mut out, o);
            },
        }
        out
    }

    /// A field-by-field copy.
    pub fn duplicate(&self) -> (r: Self)
        ensures
            r == *self,
    {
        match self {
            TrustedCall::pay_as_bid(a, o) => TrustedCall::pay_as_bid(*a, o.clone()),
        }
    }

    fn payload(&self, nonce: u32, mrenclave: &[u8; 32], shard: &[u8; 32]) -> (r: Vec<u8>)
        requires
            self.wf(),
        ensures
            r@ == self.signed_payload(nonce, mrenclave@, shard@),
    {
        let mut out = self.encode();
        let mut n = encode_le(nonce as u128, 4);
        out.append(&mut n);
        push_all(&mut out, mrenclave.as_slice());
        push_all(&mut out, shard.as_slice());
        out
    }

    /// Signs the call with the key pair grown from `seed`, for the given nonce,
    /// enclave and shard.
    pub fn sign(&self, seed: &[u8; 32], nonce: u32, mrenclave: &[u8; 32], shard: &[u8; 32]) -> (r:
        TrustedCallSigned)
        requires
            self.wf(),
        ensures
            r.call == *self,
            r.nonce == nonce,
            r.signature@ == signature_of(seed@, self.signed_payload(nonce, mrenclave@, shard@)),
            self.sender()@ == public_of(seed@) ==> r.valid(mrenclave@, shard@),
    {
        let payload = self.payload(nonce, mrenclave, shard);
        let signature = ed25519_sign(seed, payload.as_slice());
        TrustedCallSigned { call: self.duplicate(), nonce, signature }
    }
}

impl TrustedCallSigned {
    /// Whether the signature verifies under the sender's key for the given
    /// enclave and shard.
    pub open spec fn valid(&self, mrenclave: Seq<u8>, shard: Seq<u8>) -> bool {
        verifies(
            self.signature@,
            self.call.signed_payload(self.nonce, mrenclave, shard),
            self.call.sender()@,
        )
    }

    pub fn verify_signature(&self, mrenclave: &[u8; 32], shard: &[u8; 32]) -> (r: bool)
        requires
            self.call.wf(),
        ensures
            r == self.valid(mrenclave@, shard@),
    {
        let payload = self.call.payload(self.nonce, mrenclave, shard);
        let sender = match &self.call {
            TrustedCall::pay_as_bid(a, _) => a,
        };
        ed25519_verify(&self.signature, payload.as_slice(), sender)
    }

    /// The operation that carries this call, direct or through the chain.
    pub fn into_trusted_operation(self, direct: bool) -> (r: TrustedOperation)
        ensures
            direct ==> r == TrustedOperation::direct_call(self),
            !direct ==> r == TrustedOperation::indirect_call(self),
    {
        if direct {
            TrustedOperation::direct_call(self)
        } else {
            TrustedOperation::indirect_call(self)
        }
    }
}

impl TrustedOperation {
    /// The protocol that delivers the operation.
    pub fn delivery(&self) -> (r: Delivery)
        ensures
            self is indirect_call <==> r == Delivery::Chain,
            self is direct_call <==> r == Delivery::Direct,
            self is get <==> r == Delivery::Query,
    {
        match self {
            TrustedOperation::indirect_call(_) => Delivery::Chain,
            TrustedOperation::direct_call(_) => Delivery::Direct,
            TrustedOperation::get(_) => Delivery::Query,
        }
    }
}

/// The shard named by the configuration: the shard text if given, else the
/// enclave's measurement, decoded from base58; its first 32 bytes.
pub open spec fn shard_of(shard: Option<String>, mrenclave: String) -> Result<Seq<u8>, ConfigError> {
    let text = match shard {
        Some(s) => s@,
        None => mrenclave@,
    };
    if encode_utf8(text).len() > MAX_ID_TEXT {
        Err(ConfigError::TooLong)
    } else {
        match base58_decoded(text) {
            None => Err(ConfigError::InvalidBase58),
            Some(b) => if b.len() < 32 {
                Err(ConfigError::TooShort)
            } else {
                Ok(b.subrange(0, 32))
            },
        }
    }
}

/// Reads the shard that a request targets from the configuration.
pub fn read_shard(shard: &Option<String>, mrenclave: &String) -> (r: Result<[u8; 32], ConfigError>)
    ensures
        r matches Ok(s) ==> shard_of(*shard, *mrenclave) == Ok::<Seq<u8>, ConfigError>(s@),
        r matches Err(e) ==> shard_of(*shard, *mrenclave) == Err::<Seq<u8>, ConfigError>(e),
{
    let text: &str = match shard {
        Some(s) => s.as_str(),
        None => mrenclave.as_str(),
    };
    if text.as_bytes().len() > MAX_ID_TEXT {
        return Err(ConfigError::TooLong);
    }
    match decode_base58(text) {
        None => Err(ConfigError::InvalidBase58),
        Some(b) => {
            if b.len() < 32 {
                Err(ConfigError::TooShort)
            } else {
                Ok(crate::scale::read_array32(b.as_slice(), 0))
            }
        },
    }
}

/// The request bytes that carry an encrypted operation to a shard: the shard,
/// then the ciphertext with its length.
pub open spec fn request_bytes(shard: Seq<u8>, ciphertext: Seq<u8>) -> Seq<u8> {
    shard + with_len(ciphertext)
}

/// Encodes the request that carries `ciphertext` to `shard`.
pub fn encode_request(shard: &[u8; 32], ciphertext: &[u8]) -> (r: Vec<u8>)
    requires
        ciphertext@.len() <= u32::MAX,
    ensures
        r@ == request_bytes(shard@, ciphertext@),
{
    let mut out: Vec<u8> = Vec::new();
    push_all(&mut out, shard.as_slice());
    push_with_len(&mut out, ciphertext);
    out
}

} // verus!
