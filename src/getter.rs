//! Read-only trusted queries: the getter types, their signing, and the
//! dispatcher that answers them from the runtime's state.

use vstd::prelude::*;
use crate::keys::{
    blake2_256, blake2_256_of, ed25519_sign, ed25519_verify, public_of, signature_of, verifies,
};
use crate::scale::{encode_le, le_bytes, push_all, push_str, utf8, with_len, bytes_eq};

verus! {

/// An account: a 32-byte public key.
pub type AccountId = [u8; 32];

/// An ed25519 signature.
pub type Signature = [u8; 64];

/// A query that needs no signature.
#[allow(non_camel_case_types)]
#[derive(Clone, Copy, Debug, PartialEq, Eq, Structural)]
pub enum PublicGetter {
    some_value,
}

/// A query made on behalf of one account, which must sign it.
#[allow(non_camel_case_types)]
#[derive(Clone, Debug)]
pub enum TrustedGetter {
    free_balance(AccountId),
    reserved_balance(AccountId),
    nonce(AccountId),
    evm_nonce(AccountId),
    evm_account_codes(AccountId, [u8; 20]),
    evm_account_storages(AccountId, [u8; 20], [u8; 32]),
    pay_as_bid(AccountId, String),
    custom_fair(AccountId, String, String),
    get_market_results(AccountId, String),
    pay_as_bid_proof(AccountId, String, String),
}

/// A trusted getter with its sender's signature over its encoding.
#[derive(Clone, Debug)]
pub struct TrustedGetterSigned {
    pub getter: TrustedGetter,
    pub signature: Signature,
}

/// A query, public or signed.
#[allow(non_camel_case_types)]
#[derive(Clone, Debug)]
pub enum Getter {
    public(PublicGetter),
    trusted(TrustedGetterSigned),
}

/// What the runtime keeps of one account.
#[derive(Clone, Copy, Debug, PartialEq, Eq, Structural)]
pub struct AccountInfo {
    pub nonce: u32,
    pub free: u128,
    pub reserved: u128,
}

/// The part of the runtime's state that getters read. Where an account, an
/// address or a storage slot appears more than once, its first entry counts.
#[derive(Clone, Debug)]
pub struct RuntimeState {
    pub accounts: Vec<(AccountId, AccountInfo)>,
    pub evm_codes: Vec<([u8; 20], Vec<u8>)>,
    pub evm_storages: Vec<([u8; 20], [u8; 32], [u8; 32])>,
}

/// What answering a getter came to.
#[derive(Clone, Debug)]
pub enum Execution {
    /// The encoded answer, or `None` where the state holds no entry.
    Value(Option<Vec<u8>>),
    /// A market query, whose datasets and matching the host supplies.
    Host(TrustedGetter),
    /// An EVM query while EVM support is switched off.
    Unsupported,
    /// A trusted getter whose signature does not verify.
    Rejected,
}

/// `Execution` with its byte strings as sequences.
pub enum ExecutionView {
    Value(Option<Seq<u8>>),
    Host(TrustedGetter),
    Unsupported,
    Rejected,
}

impl Execution {
    pub open spec fn view(&self) -> ExecutionView {
        match self {
            Execution::Value(None) => ExecutionView::Value(None),
            Execution::Value(Some(v)) => ExecutionView::Value(Some(v@)),
            Execution::Host(g) => ExecutionView::Host(*g),
            Execution::Unsupported => ExecutionView::Unsupported,
            Execution::Rejected => ExecutionView::Rejected,
        }
    }
}

/// The first entry for `who` in `s`.
pub open spec fn account_entry(s: Seq<(AccountId, AccountInfo)>, who: Seq<u8>) -> Option<AccountInfo>
    decreases s.len(),
{
    if s.len() == 0 {
        None
    } else if s[0].0@ == who {
        Some(s[0].1)
    } else {
        account_entry(s.drop_first(), who)
    }
}

/// The account info of `who`; an account the runtime has never seen has all
/// counts at zero.
pub open spec fn account_info(st: RuntimeState, who: Seq<u8>) -> AccountInfo {
    match account_entry(st.accounts@, who) {
        Some(info) => info,
        None => AccountInfo { nonce: 0, free: 0, reserved: 0 },
    }
}

/// The first code stored for `addr`.
pub open spec fn code_entry(s: Seq<([u8; 20], Vec<u8>)>, addr: Seq<u8>) -> Option<Seq<u8>>
    decreases s.len(),
{
    if s.len() == 0 {
        None
    } else if s[0].0@ == addr {
        Some(s[0].1@)
    } else {
        code_entry(s.drop_first(), addr)
    }
}

/// The first value stored for slot `index` of `addr`.
pub open spec fn storage_entry(
    s: Seq<([u8; 20], [u8; 32], [u8; 32])>,
    addr: Seq<u8>,
    index: Seq<u8>,
) -> Option<Seq<u8>>
    decreases s.len(),
{
    if s.len() == 0 {
        None
    } else if s[0].0@ == addr && s[0].1@ == index {
        Some(s[0].2@)
    } else {
        storage_entry(s.drop_first(), addr, index)
    }
}

/// The EVM address of an account: its first 20 bytes.
pub open spec fn evm_address(who: Seq<u8>) -> Seq<u8> {
    who.subrange(0, 20)
}

/// The account that an EVM address maps to: the Blake2 digest of `"evm:"`
/// followed by the address.
pub open spec fn evm_mapped_account(addr: Seq<u8>) -> Seq<u8> {
    blake2_256_of(seq![0x65u8, 0x76u8, 0x6du8, 0x3au8] + addr)
}

impl TrustedGetter {
    /// The account that authorises the query.
    pub open spec fn sender(&self) -> AccountId {
        match self {
            TrustedGetter::free_balance(a) => *a,
            TrustedGetter::reserved_balance(a) => *a,
            TrustedGetter::nonce(a) => *a,
            TrustedGetter::evm_nonce(a) => *a,
            TrustedGetter::evm_account_codes(a, _) => *a,
            TrustedGetter::evm_account_storages(a, _, _) => *a,
            TrustedGetter::pay_as_bid(a, _) => *a,
            TrustedGetter::custom_fair(a, _, _) => *a,
            TrustedGetter::get_market_results(a, _) => *a,
            TrustedGetter::pay_as_bid_proof(a, _, _) => *a,
        }
    }

    /// Every text field fits a 32-bit length prefix.
    pub open spec fn wf(&self) -> bool {
        match self {
            TrustedGetter::pay_as_bid(_, f) => utf8(*f).len() <= u32::MAX,
            TrustedGetter::custom_fair(_, f, g) => utf8(*f).len() <= u32::MAX && utf8(*g).len()
                <= u32::MAX,
            TrustedGetter::get_market_results(_, t) => utf8(*t).len() <= u32::MAX,
            TrustedGetter::pay_as_bid_proof(_, t, a) => utf8(*t).len() <= u32::MAX && utf8(
                *a,
            ).len() <= u32::MAX,
            _ => true,
        }
    }

    /// The encoding that the sender signs: the variant's index, then its fields.
    pub open spec fn encoded(&self) -> Seq<u8> {
        match self {
            TrustedGetter::free_balance(a) => seq![0u8] + a@,
            TrustedGetter::reserved_balance(a) => seq![1u8] + a@,
            TrustedGetter::nonce(a) => seq![2u8] + a@,
            TrustedGetter::evm_nonce(a) => seq![3u8] + a@,
            TrustedGetter::evm_account_codes(a, e) => seq![4u8] + a@ + e@,
            TrustedGetter::evm_account_storages(a, e, i) => seq![5u8] + a@ + e@ + i@,
            TrustedGetter::pay_as_bid(a, f) => seq![6u8] + a@ + with_len(utf8(*f)),
            TrustedGetter::custom_fair(a, f, g) => seq![7u8] + a@ + with_len(utf8(*f)) + with_len(
                utf8(*g),
            ),
            TrustedGetter::get_market_results(a, t) => seq![8u8] + a@ + with_len(utf8(*t)),
            TrustedGetter::pay_as_bid_proof(a, t, x) => seq![9u8] + a@ + with_len(utf8(*t))
                + with_len(utf8(*x)),
        }
    }

    /// Whether the query is one of the EVM ones.
    pub open spec fn is_evm(&self) -> bool {
        self is evm_nonce || self is evm_account_codes || self is evm_account_storages
    }

    /// A field-by-field copy.
    pub fn duplicate(&self) -> (r: Self)
        ensures
            r == *self,
    {
        match self {
            TrustedGetter::free_balance(a) => TrustedGetter::free_balance(*a),
            TrustedGetter::reserved_balance(a) => TrustedGetter::reserved_balance(*a),
            TrustedGetter::nonce(a) => TrustedGetter::nonce(*a),
            TrustedGetter::evm_nonce(a) => TrustedGetter::evm_nonce(*a),
            TrustedGetter::evm_account_codes(a, e) => TrustedGetter::evm_account_codes(*a, *e),
            TrustedGetter::evm_account_storages(a, e, i) => TrustedGetter::evm_account_storages(
                *a,
                *e,
                *i,
            ),
            TrustedGetter::pay_as_bid(a, f) => TrustedGetter::pay_as_bid(*a, f.clone()),
            TrustedGetter::custom_fair(a, f, g) => TrustedGetter::custom_fair(
                *a,
                f.clone(),
                g.clone(),
            ),
            TrustedGetter::get_market_results(a, t) => TrustedGetter::get_market_results(
                *a,
                t.clone(),
            ),
            TrustedGetter::pay_as_bid_proof(a, t, x) => TrustedGetter::pay_as_bid_proof(
                *a,
                t.clone(),
                x.clone(),
            ),
        }
    }

    /// The account that authorises the query.
    pub fn sender_account(&self) -> (r: &AccountId)
        ensures
            *r == self.sender(),
    {
        match self {
            TrustedGetter::free_balance(sender_account) => sender_account,
            TrustedGetter::reserved_balance(sender_account) => sender_account,
            TrustedGetter::nonce(sender_account) => sender_account,
            TrustedGetter::evm_nonce(sender_account) => sender_account,
            TrustedGetter::evm_account_codes(sender_account, _) => sender_account,
            TrustedGetter::evm_account_storages(sender_account, ..) => sender_account,
            TrustedGetter::pay_as_bid(sender_account, _) => sender_account,
            TrustedGetter::custom_fair(sender_account, _, _) => sender_account,
            TrustedGetter::get_market_results(sender_account, _) => sender_account,
            TrustedGetter::pay_as_bid_proof(sender_account, _, _) => sender_account,
        }
    }

    /// The bytes that the sender signs.
    pub fn encode(&self) -> (r: Vec<u8>)
        requires
            self.wf(),
        ensures
            r@ == self.encoded(),
    {
        let mut out: Vec<u8> = Vec::new();
        match self {
            TrustedGetter::free_balance(a) => {
                out.push(0u8);
                push_all(&mut out, a.as_slice());
            },
            TrustedGetter::reserved_balance(a) => {
                out.push(1u8);
                push_all(&mut out, a.as_slice());
            },
            TrustedGetter::nonce(a) => {
                out.push(2u8);
                push_all(&mut out, a.as_slice());
            },
            TrustedGetter::evm_nonce(a) => {
                out.push(3u8);
                push_all(&mut out, a.as_slice());
            },
            TrustedGetter::evm_account_codes(a, e) => {
                out.push(4u8);
                push_all(&mut out, a.as_slice());
                push_all(&mut out, e.as_slice());
            },
            TrustedGetter::evm_account_storages(a, e, i) => {
                out.push(5u8);
                push_all(&mut out, a.as_slice());
                push_all(&mut out, e.as_slice());
                push_all(&mut out, i.as_slice());
            },
            TrustedGetter::pay_as_bid(a, f) => {
                out.push(6u8);
                push_all(&mut out, a.as_slice());
                push_str(&mut out, f);
            },
            TrustedGetter::custom_fair(a, f, g) => {
                out.push(7u8);
                push_all(&mut out, a.as_slice());
                push_str(&mut out, f);
                push_str(&mut out, g);
            },
            TrustedGetter::get_market_results(a, t) => {
                out.push(8u8);
                push_all(&mut out, a.as_slice());
                push_str(&mut out, t);
            },
            TrustedGetter::pay_as_bid_proof(a, t, x) => {
                out.push(9u8);
                push_all(&mut out, a.as_slice());
                push_str(&mut out, t);
                push_str(&mut out, x);
            },
        }
        out
    }

    /// Signs the query with the key pair grown from `seed`. The signature
    /// verifies whenever the query's sender is that pair's public key.
    pub fn sign(&self, seed: &[u8; 32]) -> (r: TrustedGetterSigned)
        requires
            self.wf(),
        ensures
            r.getter == *self,
            r.signature@ == signature_of(seed@, self.encoded()),
            verifies(r.signature@, self.encoded(), public_of(seed@)),
            self.sender()@ == public_of(seed@) ==> r.valid(),
    {
        let payload = self.encode();
        let signature = ed25519_sign(seed, payload.as_slice());
        TrustedGetterSigned { getter: self.duplicate(), signature }
    }
}

impl TrustedGetterSigned {
    /// Whether the signature verifies over the getter's encoding under its
    /// sender's key.
    pub open spec fn valid(&self) -> bool {
        verifies(self.signature@, self.getter.encoded(), self.getter.sender()@)
    }

    pub fn new(getter: TrustedGetter, signature: Signature) -> (r: Self)
        ensures
            r.getter == getter,
            r.signature == signature,
    {
        TrustedGetterSigned { getter, signature }
    }

    pub fn verify_signature(&self) -> (r: bool)
        requires
            self.getter.wf(),
        ensures
            r == self.valid(),
    {
        let payload = self.getter.encode();
        ed25519_verify(&self.signature, payload.as_slice(), self.getter.sender_account())
    }
}

impl RuntimeState {
    /// The first entry for `who`.
    pub fn find_account(&self, who: &AccountId) -> (r: Option<AccountInfo>)
        ensures
            r == account_entry(self.accounts@, who@),
    {
        let mut i: usize = 0;
        assert(self.accounts@.subrange(0, self.accounts@.len() as int) =~= self.accounts@);
        while i < self.accounts.len()
            invariant
                i <= self.accounts@.len(),
                account_entry(self.accounts@, who@) == account_entry(
                    self.accounts@.subrange(i as int, self.accounts@.len() as int),
                    who@,
                ),
            decreases self.accounts@.len() - i,
        {
            let ghost rest = self.accounts@.subrange(i as int, self.accounts@.len() as int);
            assert(rest.drop_first() =~= self.accounts@.subrange(
                i + 1,
                self.accounts@.len() as int,
            ));
            if bytes_eq(self.accounts[i].0.as_slice(), who.as_slice()) {
                return Some(self.accounts[i].1);
            }
            i = i + 1;
        }
        None
    }

    /// The account info of `who`, all zero for an account without an entry.
    pub fn account(&self, who: &AccountId) -> (r: AccountInfo)
        ensures
            r == account_info(*self, who@),
    {
        match self.find_account(who) {
            Some(info) => info,
            None => AccountInfo { nonce: 0, free: 0, reserved: 0 },
        }
    }

    /// The first code stored for `addr`.
    pub fn account_codes(&self, addr: &[u8; 20]) -> (r: Option<Vec<u8>>)
        ensures
            r is None <==> code_entry(self.evm_codes@, addr@) is None,
            r matches Some(v) ==> code_entry(self.evm_codes@, addr@) == Some(v@),
    {
        let mut i: usize = 0;
        assert(self.evm_codes@.subrange(0, self.evm_codes@.len() as int) =~= self.evm_codes@);
        while i < self.evm_codes.len()
            invariant
                i <= self.evm_codes@.len(),
                code_entry(self.evm_codes@, addr@) == code_entry(
                    self.evm_codes@.subrange(i as int, self.evm_codes@.len() as int),
                    addr@,
                ),
            decreases self.evm_codes@.len() - i,
        {
            let ghost rest = self.evm_codes@.subrange(i as int, self.evm_codes@.len() as int);
            assert(rest.drop_first() =~= self.evm_codes@.subrange(
                i + 1,
                self.evm_codes@.len() as int,
            ));
            if bytes_eq(self.evm_codes[i].0.as_slice(), addr.as_slice()) {
                let code = &self.evm_codes[i].1;
                let mut out: Vec<u8> = Vec::new();
                push_all(&mut out, code.as_slice());
                assert(out@ =~= code@);
                return Some(out);
            }
            i = i + 1;
        }
        None
    }

    /// The first value stored for slot `index` of `addr`.
    pub fn account_storages(&self, addr: &[u8; 20], index: &[u8; 32]) -> (r: Option<[u8; 32]>)
        ensures
            r is None <==> storage_entry(self.evm_storages@, addr@, index@) is None,
            r matches Some(v) ==> storage_entry(self.evm_storages@, addr@, index@) == Some(v@),
    {
        let mut i: usize = 0;
        assert(self.evm_storages@.subrange(0, self.evm_storages@.len() as int) =~= self.evm_storages@);
        while i < self.evm_storages.len()
            invariant
                i <= self.evm_storages@.len(),
                storage_entry(self.evm_storages@, addr@, index@) == storage_entry(
                    self.evm_storages@.subrange(i as int, self.evm_storages@.len() as int),
                    addr@,
                    index@,
                ),
            decreases self.evm_storages@.len() - i,
        {
            let ghost rest = self.evm_storages@.subrange(
                i as int,
                self.evm_storages@.len() as int,
            );
            assert(rest.drop_first() =~= self.evm_storages@.subrange(
                i + 1,
                self.evm_storages@.len() as int,
            ));
            if bytes_eq(self.evm_storages[i].0.as_slice(), addr.as_slice()) && bytes_eq(
                self.evm_storages[i].1.as_slice(),
                index.as_slice(),
            ) {
                return Some(self.evm_storages[i].2);
            }
            i = i + 1;
        }
        None
    }
}

/// An EVM code query tells an address with no stored code (`None`) from one
/// whose stored code is empty (`Some` of no bytes).
pub proof fn lemma_absent_vs_empty(s: TrustedGetterSigned, st: RuntimeState)
    requires
        s.valid(),
        s.getter is evm_account_codes,
    ensures
        code_entry(st.evm_codes@, s.getter->evm_account_codes_1@) is None ==> Getter::trusted(
            s,
        ).answer(st, true) == ExecutionView::Value(None),
        code_entry(st.evm_codes@, s.getter->evm_account_codes_1@) == Some(Seq::<u8>::empty())
            ==> Getter::trusted(s).answer(st, true) == ExecutionView::Value(
            Some(Seq::<u8>::empty()),
        ),
{
}

impl Getter {
    /// Every text field of a trusted getter fits a 32-bit length prefix.
    pub open spec fn wf(&self) -> bool {
        match self {
            Getter::public(_) => true,
            Getter::trusted(s) => s.getter.wf(),
        }
    }

    /// The answer to the getter against `st`, with EVM queries served only
    /// where `evm` is set. A trusted getter is answered only if its signature
    /// verifies.
    pub open spec fn answer(&self, st: RuntimeState, evm: bool) -> ExecutionView {
        match self {
            Getter::public(PublicGetter::some_value) => ExecutionView::Value(Some(le_bytes(42, 4))),
            Getter::trusted(s) => if !s.valid() {
                ExecutionView::Rejected
            } else {
                match s.getter {
                    TrustedGetter::free_balance(w) => ExecutionView::Value(
                        Some(le_bytes(account_info(st, w@).free as nat, 16)),
                    ),
                    TrustedGetter::reserved_balance(w) => ExecutionView::Value(
                        Some(le_bytes(account_info(st, w@).reserved as nat, 16)),
                    ),
                    TrustedGetter::nonce(w) => ExecutionView::Value(
                        Some(le_bytes(account_info(st, w@).nonce as nat, 4)),
                    ),
                    TrustedGetter::evm_nonce(w) => if evm {
                        ExecutionView::Value(
                            Some(
                                le_bytes(
                                    account_info(
                                        st,
                                        evm_mapped_account(evm_address(w@)),
                                    ).nonce as nat,
                                    4,
                                ),
                            ),
                        )
                    } else {
                        ExecutionView::Unsupported
                    },
                    TrustedGetter::evm_account_codes(_, e) => if evm {
                        ExecutionView::Value(code_entry(st.evm_codes@, e@))
                    } else {
                        ExecutionView::Unsupported
                    },
                    TrustedGetter::evm_account_storages(_, e, i) => if evm {
                        ExecutionView::Value(storage_entry(st.evm_storages@, e@, i@))
                    } else {
                        ExecutionView::Unsupported
                    },
                    _ => ExecutionView::Host(s.getter),
                }
            },
        }
    }

    /// Answers the getter against `st`. The signature of a trusted getter is
    /// checked before anything is read.
    pub fn execute(self, st: &RuntimeState, evm: bool) -> (r: Execution)
        requires
            self.wf(),
        ensures
            r@ == self.answer(*st, evm),
    {
        match self {
            Getter::public(PublicGetter::some_value) => Execution::Value(Some(encode_le(42, 4))),
            Getter::trusted(g) => {
                if !g.verify_signature() {
                    return Execution::Rejected;
                }
                match g.getter {
                    TrustedGetter::free_balance(who) => {
                        let info = st.account(&who);
                        Execution::Value(Some(encode_le(info.free, 16)))
                    },
                    TrustedGetter::reserved_balance(who) => {
                        let info = st.account(&who);
                        Execution::Value(Some(encode_le(info.reserved, 16)))
                    },
                    TrustedGetter::nonce(who) => {
                        let info = st.account(&who);
                        Execution::Value(Some(encode_le(info.nonce as u128, 4)))
                    },
                    TrustedGetter::evm_nonce(who) => {
                        if !evm {
                            return Execution::Unsupported;
                        }
                        let mut data: Vec<u8> = vec![0x65u8, 0x76u8, 0x6du8, 0x3au8];
                        let mut i: usize = 0;
                        while i < 20
                            invariant
                                i <= 20,
                                data@ == seq![0x65u8, 0x76u8, 0x6du8, 0x3au8] + who@.subrange(
                                    0,
                                    i as int,
                                ),
                            decreases 20 - i,
                        {
                            data.push(who[i]);
                            i = i + 1;
                            assert(data@ =~= seq![0x65u8, 0x76u8, 0x6du8, 0x3au8]
                                + who@.subrange(0, i as int));
                        }
                        let mapped = blake2_256(data.as_slice());
                        let info = st.account(&mapped);
                        Execution::Value(Some(encode_le(info.nonce as u128, 4)))
                    },
                    TrustedGetter::evm_account_codes(_, addr) => {
                        if !evm {
                            return Execution::Unsupported;
                        }
                        Execution::Value(st.account_codes(&addr))
                    },
                    TrustedGetter::evm_account_storages(_, addr, index) => {
                        if !evm {
                            return Execution::Unsupported;
                        }
                        match st.account_storages(&addr, &index) {
                            Some(v) => {
                                let mut out: Vec<u8> = Vec::new();
                                push_all(&mut out, v.as_slice());
                                assert(out@ =~= v@);
                                Execution::Value(Some(out))
                            },
                            None => Execution::Value(None),
                        }
                    },
                    other => Execution::Host(other),
                }
            },
        }
    }

    pub fn get_storage_hashes_to_update(self) -> (r: Vec<Vec<u8>>)
        ensures
            r@.len() == 0,
    {
        Vec::new()
    }
}

impl From<PublicGetter> for Getter {
    fn from(item: PublicGetter) -> (r: Getter) {
        Getter::public(item)
    }
}

impl vstd::std_specs::convert::FromSpecImpl<PublicGetter> for Getter {
    open spec fn obeys_from_spec() -> bool {
        true
    }

    open spec fn from_spec(item: PublicGetter) -> Getter {
        Getter::public(item)
    }
}

impl From<TrustedGetterSigned> for Getter {
    fn from(item: TrustedGetterSigned) -> (r: Getter) {
        Getter::trusted(item)
    }
}

impl vstd::std_specs::convert::FromSpecImpl<TrustedGetterSigned> for Getter {
    open spec fn obeys_from_spec() -> bool {
        true
    }

    open spec fn from_spec(item: TrustedGetterSigned) -> Getter {
        Getter::trusted(item)
    }
}

} // verus!
