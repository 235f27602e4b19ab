//! The protected counter state: one unsigned counter per account, the update
//! that a counter call makes to it, and its sealed byte form.

use vstd::prelude::*;
use crate::keys::{blake2_256, blake2_256_of};
use crate::secrets::{composed, compose_extrinsic, confirm_call, UncheckedExtrinsic};
use crate::scale::{with_len, bytes_eq, copy_range, encode_le, le_bytes, le_value, push_all, read_le};

verus! {

/// Fuel that one counter call's bytecode may burn, start function included.
pub const COUNTER_CALL_FUEL: u64 = 10_000_000;

/// Relies on wasmi 0.51 with fuel metering: `Config::consume_fuel`,
/// `Store::set_fuel`, `Linker::instantiate_and_start` with no imports,
/// `Instance::get_typed_func` and `TypedFunc::call`. Every instruction burns
/// fuel, so the call returns on every module; running out of fuel is a trap and
/// gives `None`, as does a module that does not load, start or export
/// `function` as `(i32, i32) -> i32`. What an export returns can depend on the
/// machine (the bit patterns of float NaNs), so nothing is stated of it.
#[verifier::external_body]
fn invoke_counter_export(module: &[u8], function: &str, a: i32, b: i32, fuel: u64) -> (r: Option<
    i32,
>) {
    let mut config = wasmi::Config::default();
    config.consume_fuel(true);
    let engine = wasmi::Engine::new(&config);
    let loaded = wasmi::Module::new(&engine, module).ok()?;
    let mut store = wasmi::Store::new(&engine, ());
    store.set_fuel(fuel).ok()?;
    let linker = wasmi::Linker::<()>::new(&engine);
    let instance = linker.instantiate_and_start(&mut store, &loaded).ok()?;
    let export = instance.get_typed_func::<(i32, i32), i32>(&store, function).ok()?;
    export.call(&mut store, (a, b)).ok()
}

/// The counters, one entry per account name (its UTF-8 bytes). Where a name
/// appears twice, its first entry counts.
#[derive(Clone, Debug)]
pub struct CounterState {
    pub entries: Vec<(Vec<u8>, u32)>,
}

/// Why a counter call was refused.
#[derive(Clone, Copy, Debug, PartialEq, Eq, Structural)]
pub enum CounterError {
    /// The client's digest of the bytecode module differs from the worker's.
    IntegrityMismatch,
    /// The sealed state is not in sealed form.
    CorruptState,
    /// The state already holds as many accounts as its sealed form can count.
    StateFull,
}

/// The counter of `k` in `s`: its first entry, or zero.
pub open spec fn value_of(s: Seq<(Vec<u8>, u32)>, k: Seq<u8>) -> u32
    decreases s.len(),
{
    if s.len() == 0 {
        0
    } else if s[0].0@ == k {
        s[0].1
    } else {
        value_of(s.drop_first(), k)
    }
}

/// The entries in sealed form: each name's length and bytes, then its
/// counter, with lengths and counters as four little-endian bytes.
pub open spec fn entries_bytes(s: Seq<(Vec<u8>, u32)>) -> Seq<u8>
    decreases s.len(),
{
    if s.len() == 0 {
        seq![]
    } else {
        le_bytes(s[0].0@.len(), 4) + s[0].0@ + le_bytes(s[0].1 as nat, 4) + entries_bytes(
            s.drop_first(),
        )
    }
}

/// The counter of `k` once a call for `account` has had the outcome
/// `outcome`.
pub open spec fn value_after(old: CounterState, account: Seq<u8>, outcome: Option<i32>, k: Seq<u8>) -> u32 {
    match call_result(outcome) {
        Some(v) => if k == account {
            v
        } else {
            old.value(k)
        },
        None => old.value(k),
    }
}

/// `after` is `before` once a call for `account` has had the outcome
/// `outcome`.
pub open spec fn applied(before: CounterState, after: CounterState, account: Seq<u8>, outcome: Option<i32>) -> bool {
    forall|k: Seq<u8>| #[trigger] after.value(k) == value_after(before, account, outcome, k)
}

/// The result that a counter call's bytecode returned, as the new counter.
pub open spec fn call_result(outcome: Option<i32>) -> Option<u32> {
    match outcome {
        Some(v) => Some(v as u32),
        None => None,
    }
}

proof fn lemma_value_of_first(s: Seq<(Vec<u8>, u32)>, k: Seq<u8>, i: int)
    requires
        0 <= i < s.len(),
        s[i].0@ == k,
        forall|j: int| 0 <= j < i ==> s[j].0@ != k,
    ensures
        value_of(s, k) == s[i].1,
    decreases i,
{
    if i > 0 {
        lemma_value_of_first(s.drop_first(), k, i - 1);
    }
}

proof fn lemma_value_of_absent(s: Seq<(Vec<u8>, u32)>, k: Seq<u8>)
    requires
        forall|j: int| 0 <= j < s.len() ==> s[j].0@ != k,
    ensures
        value_of(s, k) == 0,
    decreases s.len(),
{
    if s.len() > 0 {
        lemma_value_of_absent(s.drop_first(), k);
    }
}

proof fn lemma_value_of_update(s: Seq<(Vec<u8>, u32)>, t: Seq<(Vec<u8>, u32)>, i: int, k: Seq<u8>)
    requires
        s.len() == t.len(),
        0 <= i < s.len(),
        forall|j: int| 0 <= j < s.len() ==> s[j].0@ == t[j].0@,
        forall|j: int| 0 <= j < s.len() && j != i ==> s[j].1 == t[j].1,
        s[i].0@ != k,
    ensures
        value_of(t, k) == value_of(s, k),
    decreases s.len(),
{
    if s.len() > 0 && i > 0 {
        lemma_value_of_update(s.drop_first(), t.drop_first(), i - 1, k);
    } else if s.len() > 0 && i == 0 && s.len() > 1 {
        lemma_value_of_same(s.drop_first(), t.drop_first(), k);
    }
}

proof fn lemma_value_of_same(s: Seq<(Vec<u8>, u32)>, t: Seq<(Vec<u8>, u32)>, k: Seq<u8>)
    requires
        s.len() == t.len(),
        forall|j: int| 0 <= j < s.len() ==> s[j].0@ == t[j].0@ && s[j].1 == t[j].1,
    ensures
        value_of(t, k) == value_of(s, k),
    decreases s.len(),
{
    if s.len() > 0 {
        lemma_value_of_same(s.drop_first(), t.drop_first(), k);
    }
}

proof fn lemma_value_of_push(s: Seq<(Vec<u8>, u32)>, e: (Vec<u8>, u32), k: Seq<u8>)
    ensures
        (exists|j: int| 0 <= j < s.len() && s[j].0@ == k) ==> value_of(s.push(e), k) == value_of(
            s,
            k,
        ),
        (forall|j: int| 0 <= j < s.len() ==> s[j].0@ != k) ==> value_of(s.push(e), k) == if e.0@
            == k {
            e.1
        } else {
            0
        },
    decreases s.len(),
{
    if s.len() == 0 {
        assert(s.push(e).drop_first() =~= s);
        assert(s.push(e)[0] == e);
        reveal_with_fuel(value_of, 2);
    } else {
        assert(s.push(e)[0] == s[0]);
        assert(s.push(e).drop_first() =~= s.drop_first().push(e));
        lemma_value_of_push(s.drop_first(), e, k);
        if s[0].0@ != k {
            if exists|j: int| 0 <= j < s.len() && s[j].0@ == k {
                let w = choose|j: int| 0 <= j < s.len() && s[j].0@ == k;
                assert(s.drop_first()[w - 1] == s[w]);
            }
            if forall|j: int| 0 <= j < s.len() ==> s[j].0@ != k {
                assert forall|j: int| 0 <= j < s.drop_first().len() implies s.drop_first()[j].0@
                    != k by {
                    assert(s.drop_first()[j] == s[j + 1]);
                }
            }
        }
    }
}

impl CounterState {
    /// The counter of `account`.
    pub open spec fn value(&self, account: Seq<u8>) -> u32 {
        value_of(self.entries@, account)
    }

    /// Names fit a four-byte length and there are few enough entries to
    /// count in four bytes.
    pub open spec fn sealable(&self) -> bool {
        &&& self.entries@.len() <= u32::MAX
        &&& forall|j: int| 0 <= j < self.entries@.len() ==> self.entries@[j].0@.len() <= u32::MAX
    }

    /// The sealed form of the state.
    pub open spec fn sealed(&self) -> Seq<u8> {
        le_bytes(self.entries@.len(), 4) + entries_bytes(self.entries@)
    }

    /// A state with no counters.
    pub fn new() -> (r: Self)
        ensures
            forall|k: Seq<u8>| r.value(k) == 0,
            r.entries@.len() == 0,
    {
        CounterState { entries: Vec::new() }
    }

    /// The counter of `account`; zero for an account without one.
    pub fn get(&self, account: &[u8]) -> (r: u32)
        ensures
            r == self.value(account@),
    {
        let mut i: usize = 0;
        while i < self.entries.len()
            invariant
                i <= self.entries@.len(),
                forall|j: int| 0 <= j < i ==> self.entries@[j].0@ != account@,
            decreases self.entries@.len() - i,
        {
            if bytes_eq(self.entries[i].0.as_slice(), account) {
                proof {
                    lemma_value_of_first(self.entries@, account@, i as int);
                }
                return self.entries[i].1;
            }
            i = i + 1;
        }
        proof {
            lemma_value_of_absent(self.entries@, account@);
        }
        0
    }

    /// Sets the counter of `account` to `v`, leaving every other counter.
    pub fn set(&mut self, account: &[u8], v: u32)
        ensures
            final(self).value(account@) == v,
            forall|k: Seq<u8>| k != account@ ==> #[trigger] final(self).value(k) == old(self).value(
                k,
            ),
            final(self).entries@.len() <= old(self).entries@.len() + 1,
            forall|j: int|
                0 <= j < final(self).entries@.len() ==> #[trigger] final(self).entries@[j].0@
                    == account@ || (j < old(self).entries@.len() && final(self).entries@[j].0@
                    == old(self).entries@[j].0@),
    {
        let ghost s = old(self).entries@;
        let mut i: usize = 0;
        while i < self.entries.len()
            invariant
                i <= self.entries@.len(),
                self.entries@ == s,
                s == old(self).entries@,
                forall|j: int| 0 <= j < i ==> s[j].0@ != account@,
            decreases self.entries@.len() - i,
        {
            if bytes_eq(self.entries[i].0.as_slice(), account) {
                let name = copy_range(account, 0, account.len());
                assert(account@.subrange(0, account@.len() as int) =~= account@);
                self.entries.set(i, (name, v));
                assert(self.entries@[i as int].0@ == s[i as int].0@);
                proof {
                    let t = self.entries@;
                    assert forall|j: int| 0 <= j < s.len() implies s[j].0@ == t[j].0@ && (j != i
                        ==> s[j].1 == t[j].1) by {
                        if j != i {
                            assert(t[j] == s[j]);
                        }
                    }
                    lemma_value_of_first(t, account@, i as int);
                    assert forall|k: Seq<u8>| k != account@ implies #[trigger] value_of(t, k)
                        == value_of(s, k) by {
                        lemma_value_of_update(s, t, i as int, k);
                    }
                }
                return;
            }
            i = i + 1;
        }
        let name = copy_range(account, 0, account.len());
        assert(account@.subrange(0, account@.len() as int) =~= account@);
        self.entries.push((name, v));
        proof {
            lemma_value_of_push(s, (name, v), account@);
            assert forall|k: Seq<u8>| k != account@ implies #[trigger] value_of(s.push((name, v)), k)
                == value_of(s, k) by {
                lemma_value_of_push(s, (name, v), k);
                if forall|j: int| 0 <= j < s.len() ==> s[j].0@ != k {
                    lemma_value_of_absent(s, k);
                }
            }
        }
    }

    /// Applies the outcome of a counter call for `account`: an integer result
    /// becomes the account's counter; any other outcome changes nothing.
    pub fn apply_call_outcome(&mut self, account: &[u8], outcome: Option<i32>)
        ensures
            forall|k: Seq<u8>| #[trigger]
                final(self).value(k) == value_after(*old(self), account@, outcome, k),
            final(self).entries@.len() <= old(self).entries@.len() + 1,
            forall|j: int|
                0 <= j < final(self).entries@.len() ==> #[trigger] final(self).entries@[j].0@
                    == account@ || (j < old(self).entries@.len() && final(self).entries@[j].0@
                    == old(self).entries@[j].0@),
    {
        match outcome {
            Some(v) => self.set(account, v as u32),
            None => {},
        }
    }

    /// Runs a counter call: checks that the client's digest of the bytecode
    /// module matches the worker's, then calls the module's `function` with the
    /// account's counter and `amount` and applies the outcome. On a mismatch
    /// nothing changes.
    pub fn call_counter(
        &mut self,
        account: &[u8],
        amount: u32,
        client_hash: &[u8; 32],
        worker_hash: &[u8; 32],
        module: &[u8],
        function: &str,
    ) -> (r: Result<(), CounterError>)
        ensures
            client_hash@ != worker_hash@ ==> r == Err::<(), CounterError>(
                CounterError::IntegrityMismatch,
            ) && final(self).entries@ == old(self).entries@,
            client_hash@ == worker_hash@ ==> r is Ok && exists|outcome: Option<i32>| #[trigger]
                applied(*old(self), *final(self), account@, outcome),
            final(self).entries@.len() <= old(self).entries@.len() + 1,
            forall|j: int|
                0 <= j < final(self).entries@.len() ==> #[trigger] final(self).entries@[j].0@
                    == account@ || (j < old(self).entries@.len() && final(self).entries@[j].0@
                    == old(self).entries@[j].0@),
    {
        if !bytes_eq(client_hash.as_slice(), worker_hash.as_slice()) {
            return Err(CounterError::IntegrityMismatch);
        }
        let current = self.get(account);
        let outcome = invoke_counter_export(
            module,
            function,
            current as i32,
            amount as i32,
            COUNTER_CALL_FUEL,
        );
        self.apply_call_outcome(account, outcome);
        assert(applied(*old(self), *self, account@, outcome));
        Ok(())
    }

    /// The sealed form of the state.
    pub fn to_bytes(&self) -> (r: Vec<u8>)
        requires
            self.sealable(),
        ensures
            r@ == self.sealed(),
    {
        let mut out = encode_le(self.entries.len() as u128, 4);
        let ghost s = self.entries@;
        let mut i: usize = 0;
        assert(s.skip(0) =~= s);
        while i < self.entries.len()
            invariant
                i <= s.len(),
                self.entries@ == s,
                self.sealable(),
                out@ + entries_bytes(s.skip(i as int)) == self.sealed(),
            decreases s.len() - i,
        {
            let ghost before = out@;
            let name = &self.entries[i].0;
            let mut len_bytes = encode_le(name.len() as u128, 4);
            out.append(&mut len_bytes);
            push_all(&mut out, name.as_slice());
            let mut value_bytes = encode_le(self.entries[i].1 as u128, 4);
            out.append(&mut value_bytes);
            assert(s.skip(i as int).drop_first() =~= s.skip(i + 1));
            assert(out@ + entries_bytes(s.skip(i + 1)) =~= before + entries_bytes(
                s.skip(i as int),
            ));
            i = i + 1;
        }
        assert(s.skip(i as int) =~= seq![]);
        assert(out@ =~= out@ + entries_bytes(s.skip(i as int)));
        out
    }

    /// Reads a state back from its sealed form. Every sealed form of a
    /// sealable state reads back to that state's entries; what is not a
    /// sealed form gives `None`.
    pub fn from_bytes(b: &[u8]) -> (r: Option<Self>)
        ensures
            r matches Some(st) ==> st.sealed() == b@ && st.sealable(),
            forall|st: CounterState| #[trigger] st.sealed() == b@ && st.sealable() ==> (r matches Some(
                x,
            ) && entries_view(x.entries@) == entries_view(st.entries@)),
    {
        let len: usize = b.len();
        if len < 4 {
            assert forall|st: CounterState| #[trigger] st.sealed() == b@ && st.sealable() implies false by {
                lemma_sealed_whole(st);
            }
            return None;
        }
        let count = read_le(b, 0, 4);
        proof {
            crate::scale::lemma_le_value_bound(b@.subrange(0, 4));
            reveal_with_fuel(crate::scale::pow256, 5);
        }
        let mut entries: Vec<(Vec<u8>, u32)> = Vec::new();
        let mut pos: usize = 4;
        let mut i: u64 = 0;
        assert(b@.subrange(4, 4) =~= entries_bytes(entries@));
        assert forall|st: CounterState| #[trigger] st.sealed() == b@ && st.sealable() implies read_so_far(
            st,
            count,
            entries@,
            0,
            4,
        ) by {
            lemma_sealed_whole(st);
            assert(st.entries@.subrange(0, 0) =~= seq![]);
            assert(entries_view(entries@) =~= entries_view(st.entries@.subrange(0, 0)));
        }
        while i < count
            invariant
                4 <= pos <= len == b@.len(),
                i <= count,
                count as nat == le_value(b@.subrange(0, 4)),
                entries@.len() == i,
                b@.subrange(4, pos as int) == entries_bytes(entries@),
                count <= u32::MAX,
                forall|j: int| 0 <= j < entries@.len() ==> #[trigger] entries@[j].0@.len() <= u32::MAX,
                forall|st: CounterState| #[trigger] st.sealed() == b@ && st.sealable() ==> read_so_far(
                    st,
                    count,
                    entries@,
                    i as int,
                    pos as int,
                ),
            decreases count - i,
        {
            if len - pos < 4 {
                assert forall|st: CounterState| #[trigger] st.sealed() == b@ && st.sealable() implies false by {
                    lemma_sealed_layout(st, i as int);
                }
                return None;
            }
            let name_len = read_le(b, pos, 4);
            proof {
                crate::scale::lemma_le_value_bound(b@.subrange(pos as int, pos + 4));
                reveal_with_fuel(crate::scale::pow256, 5);
                assert forall|st: CounterState| #[trigger] st.sealed() == b@ && st.sealable() implies name_len
                    == st.entries@[i as int].0@.len() by {
                    lemma_sealed_layout(st, i as int);
                    crate::scale::lemma_le_round_trip(st.entries@[i as int].0@.len(), 4);
                }
            }
            if name_len > (len - pos - 4) as u64 || len - pos - 4 - (name_len as usize) < 4 {
                assert forall|st: CounterState| #[trigger] st.sealed() == b@ && st.sealable() implies false by {
                    lemma_sealed_layout(st, i as int);
                }
                return None;
            }
            let name = copy_range(b, pos + 4, pos + 4 + name_len as usize);
            let value = read_le(b, pos + 4 + name_len as usize, 4);
            let ghost old_entries = entries@;
            let next: usize = pos + 8 + name_len as usize;
            proof {
                lemma_le_bytes_of_value(b@.subrange(pos as int, pos + 4));
                lemma_le_bytes_of_value(b@.subrange(pos + 4 + name_len, next as int));
                lemma_entries_bytes_push(old_entries, (name, value as u32));
            }
            assert(value < 0x1_0000_0000) by {
                crate::scale::lemma_le_value_bound(b@.subrange(pos + 4 + name_len, next as int));
                reveal_with_fuel(crate::scale::pow256, 5);
            }
            entries.push((name, value as u32));
            assert(b@.subrange(4, next as int) =~= b@.subrange(4, pos as int) + (b@.subrange(
                pos as int,
                pos + 4,
            ) + b@.subrange(pos + 4, pos + 4 + name_len) + b@.subrange(
                pos + 4 + name_len,
                next as int,
            )));
            proof {
                assert forall|st: CounterState| #[trigger] st.sealed() == b@ && st.sealable() implies read_so_far(
                    st,
                    count,
                    entries@,
                    i + 1,
                    next as int,
                ) by {
                    let se = st.entries@;
                    lemma_sealed_layout(st, i as int);
                    reveal_with_fuel(crate::scale::pow256, 5);
                    crate::scale::lemma_le_round_trip(se[i as int].1 as nat, 4);
                    assert(value == se[i as int].1);
                    assert(name@ == se[i as int].0@);
                    assert(read_so_far(st, count, old_entries, i as int, pos as int));
                    let ev = entries_view(entries@);
                    let tv = entries_view(se.subrange(0, i + 1));
                    let ov = entries_view(old_entries);
                    let pv = entries_view(se.subrange(0, i as int));
                    assert(ov == pv);
                    assert forall|j: int| 0 <= j < ev.len() implies ev[j] == tv[j] by {
                        if j < i {
                            assert(ov[j] == pv[j]);
                            assert(entries@[j] == old_entries[j]);
                        }
                    }
                    assert(ev =~= tv);
                }
            }
            pos = next;
            i = i + 1;
        }
        if pos != len {
            assert forall|st: CounterState| #[trigger] st.sealed() == b@ && st.sealable() implies false by {
                lemma_sealed_whole(st);
                assert(st.entries@.subrange(0, st.entries@.len() as int) =~= st.entries@);
            }
            return None;
        }
        let st = CounterState { entries };
        proof {
            lemma_le_bytes_of_value(b@.subrange(0, 4));
            assert(b@ =~= b@.subrange(0, 4) + b@.subrange(4, len as int));
            assert forall|w: CounterState| #[trigger] w.sealed() == b@ && w.sealable() implies entries_view(
                st.entries@,
            ) == entries_view(w.entries@) by {
                assert(w.entries@.subrange(0, w.entries@.len() as int) =~= w.entries@);
            }
        }
        Some(st)
    }
}


/// The entries with their names as byte sequences.
pub open spec fn entries_view(s: Seq<(Vec<u8>, u32)>) -> Seq<(Seq<u8>, u32)> {
    s.map_values(|e: (Vec<u8>, u32)| (e.0@, e.1))
}

proof fn lemma_entries_bytes_split(s: Seq<(Vec<u8>, u32)>, i: int)
    requires
        0 <= i <= s.len(),
    ensures
        entries_bytes(s) == entries_bytes(s.subrange(0, i)) + entries_bytes(s.subrange(i, s.len() as int)),
    decreases i,
{
    if i == 0 {
        assert(s.subrange(0, 0) =~= seq![]);
        assert(s.subrange(0, s.len() as int) =~= s);
        assert(entries_bytes(s.subrange(0, 0)) =~= seq![]);
        assert(entries_bytes(s) =~= seq![] + entries_bytes(s));
    } else {
        lemma_entries_bytes_split(s, i - 1);
        let a = s.subrange(0, i - 1);
        let t = s.subrange(i - 1, s.len() as int);
        assert(s.subrange(0, i) =~= a.push(s[i - 1]));
        lemma_entries_bytes_push(a, s[i - 1]);
        assert(t.drop_first() =~= s.subrange(i, s.len() as int));
        assert(t[0] == s[i - 1]);
        assert(entries_bytes(s) =~= entries_bytes(s.subrange(0, i)) + entries_bytes(
            s.subrange(i, s.len() as int),
        ));
    }
}

/// Counters depend on the entries' names and values alone.
proof fn lemma_value_of_view(s: Seq<(Vec<u8>, u32)>, t: Seq<(Vec<u8>, u32)>, k: Seq<u8>)
    requires
        entries_view(s) == entries_view(t),
    ensures
        value_of(s, k) == value_of(t, k),
    decreases s.len(),
{
    assert(entries_view(s).len() == s.len());
    assert(entries_view(t).len() == t.len());
    if s.len() > 0 {
        assert(entries_view(s)[0] == entries_view(t)[0]);
        assert(entries_view(s.drop_first()) =~= entries_view(s).drop_first());
        assert(entries_view(t.drop_first()) =~= entries_view(t).drop_first());
        lemma_value_of_view(s.drop_first(), t.drop_first(), k);
    }
}

/// Where the fields of entry `i` lie in a sealed state.
proof fn lemma_sealed_layout(st: CounterState, i: int)
    requires
        st.sealable(),
        0 <= i < st.entries@.len(),
    ensures
        ({
            let s = st.entries@;
            let p = 4 + entries_bytes(s.subrange(0, i)).len() as int;
            let n = s[i].0@.len() as int;
            &&& st.sealed().len() >= p + 8 + n
            &&& st.sealed().subrange(p, p + 4) == le_bytes(n as nat, 4)
            &&& st.sealed().subrange(p + 4, p + 4 + n) == s[i].0@
            &&& st.sealed().subrange(p + 4 + n, p + 8 + n) == le_bytes(s[i].1 as nat, 4)
            &&& 4 + entries_bytes(s.subrange(0, i + 1)).len() == p + 8 + n
        }),
{
    let s = st.entries@;
    let n = s[i].0@.len() as int;
    lemma_entries_bytes_split(s, i);
    let rest = s.subrange(i, s.len() as int);
    assert(rest[0] == s[i]);
    assert(rest.drop_first() =~= s.subrange(i + 1, s.len() as int));
    let block = le_bytes(n as nat, 4) + s[i].0@ + le_bytes(s[i].1 as nat, 4);
    crate::scale::lemma_le_bytes_len(n as nat, 4);
    crate::scale::lemma_le_bytes_len(s[i].1 as nat, 4);
    crate::scale::lemma_le_bytes_len(s.len(), 4);
    assert(entries_bytes(rest) == block + entries_bytes(rest.drop_first()));
    let head = le_bytes(s.len(), 4) + entries_bytes(s.subrange(0, i));
    assert(st.sealed() =~= head + (block + entries_bytes(rest.drop_first())));
    let p = head.len() as int;
    assert(st.sealed().subrange(p, p + 4) =~= le_bytes(n as nat, 4));
    assert(st.sealed().subrange(p + 4, p + 4 + n) =~= s[i].0@);
    assert(st.sealed().subrange(p + 4 + n, p + 8 + n) =~= le_bytes(s[i].1 as nat, 4));
    assert(s.subrange(0, i + 1) =~= s.subrange(0, i).push(s[i]));
    lemma_entries_bytes_push(s.subrange(0, i), s[i]);
}

/// The sealed state's length and its leading count.
proof fn lemma_sealed_whole(st: CounterState)
    requires
        st.sealable(),
    ensures
        st.sealed().len() == 4 + entries_bytes(st.entries@).len(),
        st.sealed().subrange(0, 4) == le_bytes(st.entries@.len(), 4),
        le_value(st.sealed().subrange(0, 4)) == st.entries@.len(),
{
    crate::scale::lemma_le_bytes_len(st.entries@.len(), 4);
    assert(st.sealed().subrange(0, 4) =~= le_bytes(st.entries@.len(), 4));
    reveal_with_fuel(crate::scale::pow256, 5);
    crate::scale::lemma_le_round_trip(st.entries@.len(), 4);
}

/// The state read so far agrees with `st` on its first `i` entries.
pub open spec fn read_so_far(st: CounterState, count: u64, entries: Seq<(Vec<u8>, u32)>, i: int, pos: int) -> bool {
    &&& count == st.entries@.len()
    &&& i <= st.entries@.len()
    &&& entries_view(entries) == entries_view(st.entries@.subrange(0, i))
    &&& pos == 4 + entries_bytes(st.entries@.subrange(0, i)).len()
}

/// Four bytes spell their own value in four bytes.
proof fn lemma_le_bytes_of_value(b: Seq<u8>)
    requires
        b.len() == 4,
    ensures
        le_bytes(le_value(b), 4) == b,
{
    crate::scale::lemma_le_value_bound(b);
    reveal_with_fuel(crate::scale::pow256, 5);
    crate::scale::lemma_le_bytes_len(le_value(b), 4);
    crate::scale::lemma_le_round_trip(le_value(b), 4);
    lemma_le_bytes_unique(le_bytes(le_value(b), 4), b);
}

/// Two byte strings of one length that spell the same number are equal.
proof fn lemma_le_bytes_unique(a: Seq<u8>, b: Seq<u8>)
    requires
        a.len() == b.len(),
        le_value(a) == le_value(b),
    ensures
        a == b,
    decreases a.len(),
{
    if a.len() > 0 {
        let ra = le_value(a.drop_first());
        let rb = le_value(b.drop_first());
        assert(a[0] as nat == b[0] as nat && ra == rb) by (nonlinear_arith)
            requires
                a[0] + 256 * ra == b[0] + 256 * rb,
                a[0] < 256,
                b[0] < 256,
        ;
        lemma_le_bytes_unique(a.drop_first(), b.drop_first());
        assert(a =~= seq![a[0]] + a.drop_first());
        assert(b =~= seq![b[0]] + b.drop_first());
    } else {
        assert(a =~= b);
    }
}

proof fn lemma_entries_bytes_push(s: Seq<(Vec<u8>, u32)>, e: (Vec<u8>, u32))
    ensures
        entries_bytes(s.push(e)) == entries_bytes(s) + (le_bytes(e.0@.len(), 4) + e.0@ + le_bytes(
            e.1 as nat,
            4,
        )),
    decreases s.len(),
{
    reveal_with_fuel(entries_bytes, 2);
    if s.len() == 0 {
        assert(s.push(e).drop_first() =~= seq![]);
        assert(entries_bytes(s.push(e)) =~= entries_bytes(s) + (le_bytes(e.0@.len(), 4) + e.0@
            + le_bytes(e.1 as nat, 4)));
    } else {
        assert(s.push(e).drop_first() =~= s.drop_first().push(e));
        lemma_entries_bytes_push(s.drop_first(), e);
        assert(entries_bytes(s.push(e)) =~= entries_bytes(s) + (le_bytes(e.0@.len(), 4) + e.0@
            + le_bytes(e.1 as nat, 4)));
    }
}

/// A counter request as the client sent it: the account's name, the amount
/// to hand to the bytecode, and the client's digest of the bytecode module.
#[derive(Clone, Debug)]
pub struct CounterRequest {
    pub account: Vec<u8>,
    pub amount: u32,
    pub sha256: [u8; 32],
}

/// What the confirmation of a counter call is composed with: the signing
/// seed, the account nonce (32 little-endian bytes), the chain's genesis
/// hash, and the indices of the confirming call in the runtime.
#[derive(Clone, Copy, Debug)]
pub struct ConfirmationContext {
    pub seed: [u8; 32],
    pub nonce: [u8; 32],
    pub genesis_hash: [u8; 32],
    pub pallet: u8,
    pub call: u8,
}

/// The new sealed state and the signed confirmation of a counter call.
#[derive(Clone, Debug)]
pub struct CounterCallOutput {
    pub sealed_state: Vec<u8>,
    pub extrinsic: UncheckedExtrinsic,
}

/// The counter of `account` in the sealed state `sealed_state`.
pub fn get_counter(sealed_state: &[u8], account: &[u8]) -> (r: Result<u32, CounterError>)
    ensures
        r is Err <==> !exists|st: CounterState| #[trigger] st.sealed() == sealed_state@
            && st.sealable(),
        r matches Err(e) ==> e == CounterError::CorruptState,
        r matches Ok(v) ==> forall|st: CounterState| #[trigger] st.sealed() == sealed_state@
            && st.sealable() ==> v == st.value(account@),
{
    match CounterState::from_bytes(sealed_state) {
        Some(st) => {
            let v = st.get(account);
            proof {
                assert forall|w: CounterState| #[trigger] w.sealed() == sealed_state@
                    && w.sealable() implies v == w.value(account@) by {
                    lemma_value_of_view(st.entries@, w.entries@, account@);
                }
            }
            Ok(v)
        },
        None => Err(CounterError::CorruptState),
    }
}

/// Runs a counter call end to end: checks the bytecode digest, unseals the
/// state, calls the bytecode and applies its outcome, reseals the state, and
/// composes the confirmation that carries the digest of the plaintext request.
pub fn call_counter_wasm(
    sealed_state: &[u8],
    request: &CounterRequest,
    plaintext: &[u8],
    module: &[u8],
    function: &str,
    module_hash: &[u8; 32],
    ctx: &ConfirmationContext,
) -> (r: Result<CounterCallOutput, CounterError>)
    requires
        request.account@.len() <= u32::MAX,
    ensures
        request.sha256@ != module_hash@ ==> r == Err::<CounterCallOutput, CounterError>(
            CounterError::IntegrityMismatch,
        ),
        request.sha256@ == module_hash@ && !(exists|st: CounterState| #[trigger] st.sealed()
            == sealed_state@ && st.sealable()) ==> r == Err::<CounterCallOutput, CounterError>(
            CounterError::CorruptState,
        ),
        request.sha256@ == module_hash@ && (exists|st: CounterState| #[trigger] st.sealed()
            == sealed_state@ && st.sealable() && st.entries@.len() < u32::MAX) ==> r is Ok,
        r matches Err(e) ==> e == CounterError::IntegrityMismatch || e == CounterError::CorruptState
            || e == CounterError::StateFull,
        r matches Ok(out) ==> request.sha256@ == module_hash@ && exists|
            after: CounterState,
            outcome: Option<i32>,
        |
            #![trigger after.sealed(), call_result(outcome)]
            after.sealed() == out.sealed_state@ && forall|before: CounterState, k: Seq<u8>|
                #![trigger before.sealed(), after.value(k)]
                before.sealed() == sealed_state@ && before.sealable() ==> after.value(k)
                    == value_after(before, request.account@, outcome, k),
        r matches Ok(out) ==> composed(
            out.extrinsic,
            ctx.seed@,
            seq![ctx.pallet, ctx.call] + with_len(blake2_256_of(plaintext@)),
            ctx.nonce@,
            ctx.genesis_hash@,
        ),
{
    if !bytes_eq(request.sha256.as_slice(), module_hash.as_slice()) {
        return Err(CounterError::IntegrityMismatch);
    }
    let mut st = match CounterState::from_bytes(sealed_state) {
        Some(st) => st,
        None => return Err(CounterError::CorruptState),
    };
    let ghost before = st;
    if st.entries.len() >= 0xffff_ffff {
        proof {
            assert forall|w: CounterState| #[trigger] w.sealed() == sealed_state@ && w.sealable()
                implies w.entries@.len() >= u32::MAX by {
                assert(entries_view(st.entries@).len() == st.entries@.len());
                assert(entries_view(w.entries@).len() == w.entries@.len());
            }
        }
        return Err(CounterError::StateFull);
    }
    let outcome = st.call_counter(
        request.account.as_slice(),
        request.amount,
        &request.sha256,
        module_hash,
        module,
        function,
    );
    assert(outcome is Ok);
    assert(st.sealable());
    let sealed = st.to_bytes();
    proof {
        let o = choose|o: Option<i32>| #[trigger] applied(before, st, request.account@, o);
        assert forall|w: CounterState, k: Seq<u8>| #[trigger] w.sealed() == sealed_state@
            && w.sealable() implies #[trigger] st.value(k) == value_after(
            w,
            request.account@,
            o,
            k,
        ) by {
            lemma_value_of_view(before.entries@, w.entries@, k);
        }
    }
    let call_hash = blake2_256(plaintext);
    let function_bytes = confirm_call(ctx.pallet, ctx.call, call_hash.as_slice());
    let extrinsic = compose_extrinsic(&ctx.seed, function_bytes.as_slice(), &ctx.nonce, &ctx.genesis_hash);
    Ok(CounterCallOutput { sealed_state: sealed, extrinsic })
}

} // verus!
