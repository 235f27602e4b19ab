//! The enclave's long-lived signing key: created once, then unsealed on every
//! use; the buffers its public halves are handed out in; and the signed
//! confirmation that a counter call sends to the chain.

use vstd::prelude::*;
use crate::keys::{blake2_256, blake2_256_of, ed25519_public, ed25519_sign, public_of, signature_of, verifies};
use crate::scale::{compact, encode_compact, encode_le, le_bytes, le_value, push_all, push_with_len, read_le, with_len};

verus! {

/// What sealed storage holds of the signing key: its seed, once created.
#[derive(Clone, Copy, Debug)]
pub struct SealedKeys {
    pub signing_seed: Option<[u8; 32]>,
}

/// A buffer for a public key that does not fit what is to go in it.
#[derive(Clone, Copy, Debug, PartialEq, Eq, Structural)]
pub enum BufferError {
    WrongSize,
}

/// The seed that sealed storage holds once a key has been ensured, where
/// `fresh` is the seed a new key would be grown from.
pub open spec fn ensured_seed(stored: Option<[u8; 32]>, fresh: [u8; 32]) -> [u8; 32] {
    match stored {
        Some(s) => s,
        None => fresh,
    }
}

impl SealedKeys {
    /// Makes sure a signing key exists, creating it from `fresh` if storage
    /// holds none, and returns its public key. An existing key is kept.
    pub fn ensure_signing_key(&mut self, fresh: [u8; 32]) -> (r: [u8; 32])
        ensures
            final(self).signing_seed == Some(ensured_seed(old(self).signing_seed, fresh)),
            r@ == public_of(ensured_seed(old(self).signing_seed, fresh)@),
    {
        let seed = match self.signing_seed {
            Some(s) => s,
            None => {
                self.signing_seed = Some(fresh);
                fresh
            },
        };
        ed25519_public(&seed)
    }
}

/// Ensuring the signing key a second time, with no deletion in between, keeps
/// the key of the first time, whatever fresh seed either call was offered.
pub proof fn lemma_ensure_key_stable(stored: Option<[u8; 32]>, fresh1: [u8; 32], fresh2: [u8; 32])
    ensures
        ensured_seed(Some(ensured_seed(stored, fresh1)), fresh2) == ensured_seed(stored, fresh1),
        public_of(ensured_seed(Some(ensured_seed(stored, fresh1)), fresh2)@) == public_of(
            ensured_seed(stored, fresh1)@,
        ),
{
}

/// `json` followed by spaces up to `size` bytes: the form in which the
/// encryption key's public half is handed out.
pub fn get_rsa_encryption_pubkey(json: &[u8], size: usize) -> (r: Result<Vec<u8>, BufferError>)
    ensures
        json@.len() > size ==> r == Err::<Vec<u8>, BufferError>(BufferError::WrongSize),
        json@.len() <= size ==> (r matches Ok(v) && v@.len() == size && v@.subrange(
            0,
            json@.len() as int,
        ) == json@ && forall|i: int| json@.len() <= i < size ==> v@[i] == 0x20u8),
{
    if json.len() > size {
        return Err(BufferError::WrongSize);
    }
    let mut out: Vec<u8> = Vec::new();
    push_all(&mut out, json);
    while out.len() < size
        invariant
            json@.len() <= out@.len() <= size,
            out@.subrange(0, json@.len() as int) == json@,
            forall|i: int| json@.len() <= i < out@.len() ==> out@[i] == 0x20u8,
        decreases size - out@.len(),
    {
        out.push(0x20u8);
        assert(out@.subrange(0, json@.len() as int) =~= json@);
    }
    assert(out@.subrange(0, json@.len() as int) =~= json@);
    Ok(out)
}

/// The signing key's public half, for a buffer of `size` bytes: it must be
/// exactly 32 long. The key is created from `fresh` if storage holds none.
pub fn get_ecc_signing_pubkey(keys: &mut SealedKeys, fresh: [u8; 32], size: usize) -> (r: Result<
    [u8; 32],
    BufferError,
>)
    ensures
        size != 32 ==> r == Err::<[u8; 32], BufferError>(BufferError::WrongSize) && *final(keys)
            == *old(keys),
        size == 32 ==> (r matches Ok(k) && k@ == public_of(
            ensured_seed(old(keys).signing_seed, fresh)@,
        ) && final(keys).signing_seed == Some(ensured_seed(old(keys).signing_seed, fresh))),
{
    if size != 32 {
        return Err(BufferError::WrongSize);
    }
    Ok(keys.ensure_signing_key(fresh))
}

/// The compact encoding of a 64-bit number: as for lengths below 2^30, and
/// above that a byte giving how many bytes follow, then the fewest bytes that
/// hold the number.
pub open spec fn compact64(v: nat) -> Seq<u8> {
    if v < 1073741824 {
        compact(v)
    } else {
        let n: nat = if v < 0x1_0000_0000 {
            4
        } else if v < 0x100_0000_0000 {
            5
        } else if v < 0x1_0000_0000_0000 {
            6
        } else if v < 0x100_0000_0000_0000 {
            7
        } else {
            8
        };
        seq![((n - 4) * 4 + 3) as u8] + le_bytes(v, n)
    }
}

/// The compact encoding of `v`.
pub fn encode_compact64(v: u64) -> (r: Vec<u8>)
    ensures
        r@ == compact64(v as nat),
{
    if v < 1073741824 {
        return encode_compact(v as u32);
    }
    let n: usize = if v < 0x1_0000_0000 {
        4
    } else if v < 0x100_0000_0000 {
        5
    } else if v < 0x1_0000_0000_0000 {
        6
    } else if v < 0x100_0000_0000_0000 {
        7
    } else {
        8
    };
    let mut r: Vec<u8> = vec![((n - 4) * 4 + 3) as u8];
    let mut tail = encode_le(v as u128, n);
    r.append(&mut tail);
    r
}

/// A runtime call that takes one byte string: the pallet's index, the
/// call's index, then the argument with its length.
pub fn confirm_call(pallet: u8, call: u8, call_hash: &[u8]) -> (r: Vec<u8>)
    requires
        call_hash@.len() <= u32::MAX,
    ensures
        r@ == seq![pallet, call] + with_len(call_hash@),
{
    let mut out: Vec<u8> = vec![pallet, call];
    push_with_len(&mut out, call_hash);
    out
}

/// A signed transaction with an immortal era.
#[derive(Clone, Debug)]
pub struct UncheckedExtrinsic {
    pub index: u64,
    pub function: Vec<u8>,
    pub signer: [u8; 32],
    pub signature: [u8; 64],
}

/// What the signer signs: the compact account index, the call, the immortal
/// era (one zero byte) and the genesis hash.
pub open spec fn signing_payload(index: u64, function: Seq<u8>, genesis_hash: Seq<u8>) -> Seq<u8> {
    compact64(index as nat) + function + seq![0u8] + genesis_hash
}

/// Longer payloads than this are signed through their Blake2-256 digest.
pub const MAX_SIGNED_PAYLOAD: usize = 256;

/// The message actually signed for a payload: the payload itself, or its
/// digest when it is longer than the limit.
pub open spec fn signed_message(payload: Seq<u8>) -> Seq<u8> {
    if payload.len() > MAX_SIGNED_PAYLOAD {
        blake2_256_of(payload)
    } else {
        payload
    }
}

/// `x` is the transaction carrying `function`, composed with the key grown
/// from `seed`, the little-endian `nonce` and the chain's `genesis_hash`.
pub open spec fn composed(
    x: UncheckedExtrinsic,
    seed: Seq<u8>,
    function: Seq<u8>,
    nonce: Seq<u8>,
    genesis_hash: Seq<u8>,
) -> bool {
    let msg = signed_message(signing_payload(x.index, function, genesis_hash));
    &&& x.index as nat == le_value(nonce.subrange(0, 8))
    &&& x.function@ == function
    &&& x.signer@ == public_of(seed)
    &&& x.signature@ == signature_of(seed, msg)
    &&& verifies(x.signature@, msg, x.signer@)
}

/// The transaction's wire form: its length, then the signed-extrinsic
/// version byte, the signer, the signature, the compact index, the immortal
/// era and the call.
pub open spec fn extrinsic_bytes(x: UncheckedExtrinsic) -> Seq<u8> {
    with_len(
        seq![0x81u8] + x.signer@ + x.signature@ + compact64(x.index as nat) + seq![0u8]
            + x.function@,
    )
}

impl UncheckedExtrinsic {
    /// The transaction's wire form.
    pub fn encode(&self) -> (r: Vec<u8>)
        requires
            self.function@.len() <= u32::MAX - 110,
        ensures
            r@ == extrinsic_bytes(*self),
    {
        let mut inner: Vec<u8> = vec![0x81u8];
        push_all(&mut inner, self.signer.as_slice());
        push_all(&mut inner, self.signature.as_slice());
        let mut index = encode_compact64(self.index);
        inner.append(&mut index);
        inner.push(0u8);
        push_all(&mut inner, self.function.as_slice());
        proof {
            crate::scale::lemma_le_bytes_len(self.index as nat, 8);
            lemma_compact64_len(self.index as nat);
        }
        let mut out: Vec<u8> = Vec::new();
        push_with_len(&mut out, inner.as_slice());
        assert(inner@ =~= seq![0x81u8] + self.signer@ + self.signature@ + compact64(
            self.index as nat,
        ) + seq![0u8] + self.function@);
        assert(out@ =~= extrinsic_bytes(*self));
        out
    }
}

proof fn lemma_compact64_len(v: nat)
    requires
        v < 0x1_0000_0000_0000_0000,
    ensures
        compact64(v).len() <= 9,
{
    reveal_with_fuel(le_bytes, 9);
}

/// Composes and signs a transaction that carries `function`, with the
/// account index taken from the low 64 bits of the little-endian `nonce`.
pub fn compose_extrinsic(
    seed: &[u8; 32],
    function: &[u8],
    nonce: &[u8; 32],
    genesis_hash: &[u8; 32],
) -> (r: UncheckedExtrinsic)
    ensures
        composed(r, seed@, function@, nonce@, genesis_hash@),
{
    let index = read_le(nonce.as_slice(), 0, 8);
    let mut payload = encode_compact64(index);
    push_all(&mut payload, function);
    payload.push(0u8);
    push_all(&mut payload, genesis_hash.as_slice());
    assert(payload@ =~= signing_payload(index, function@, genesis_hash@));
    let signature = if payload.len() > MAX_SIGNED_PAYLOAD {
        let digest = blake2_256(payload.as_slice());
        ed25519_sign(seed, digest.as_slice())
    } else {
        ed25519_sign(seed, payload.as_slice())
    };
    let mut call: Vec<u8> = Vec::new();
    push_all(&mut call, function);
    UncheckedExtrinsic { index, function: call, signer: ed25519_public(seed), signature }
}

} // verus!
