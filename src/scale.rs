//! The SCALE wire encoding, for the handful of shapes the worker exchanges:
//! fixed-width little-endian integers, compact lengths and length-prefixed
//! byte strings.

use vstd::prelude::*;
use vstd::utf8::encode_utf8;

verus! {

/// 256 to the power `n`.
pub open spec fn pow256(n: nat) -> nat
    decreases n,
{
    if n == 0 {
        1
    } else {
        256 * pow256((n - 1) as nat)
    }
}

/// The `n` low bytes of `v`, least significant first.
pub open spec fn le_bytes(v: nat, n: nat) -> Seq<u8>
    decreases n,
{
    if n == 0 {
        seq![]
    } else {
        seq![(v % 256) as u8] + le_bytes(v / 256, (n - 1) as nat)
    }
}

/// The number that the bytes `b` spell, least significant first.
pub open spec fn le_value(b: Seq<u8>) -> nat
    decreases b.len(),
{
    if b.len() == 0 {
        0
    } else {
        b[0] as nat + 256 * le_value(b.drop_first())
    }
}

/// The compact encoding of a length that fits in 32 bits.
pub open spec fn compact(n: nat) -> Seq<u8> {
    if n < 64 {
        le_bytes(n * 4, 1)
    } else if n < 16384 {
        le_bytes(n * 4 + 1, 2)
    } else if n < 1073741824 {
        le_bytes(n * 4 + 2, 4)
    } else {
        seq![3u8] + le_bytes(n, 4)
    }
}

/// A byte string with its compact length in front.
pub open spec fn with_len(b: Seq<u8>) -> Seq<u8> {
    compact(b.len()) + b
}

/// The compact length at the front of `b`, and how many bytes spell it; `None`
/// where the prefix is cut short or not in its shortest form.
pub open spec fn compact_prefix(b: Seq<u8>) -> Option<(nat, nat)> {
    if b.len() == 0 {
        None
    } else if b[0] % 4 == 0 {
        Some(((b[0] / 4) as nat, 1))
    } else if b[0] % 4 == 1 {
        if b.len() < 2 || le_value(b.subrange(0, 2)) / 4 < 64 {
            None
        } else {
            Some((le_value(b.subrange(0, 2)) / 4, 2))
        }
    } else if b[0] % 4 == 2 {
        if b.len() < 4 || le_value(b.subrange(0, 4)) / 4 < 16384 {
            None
        } else {
            Some((le_value(b.subrange(0, 4)) / 4, 4))
        }
    } else {
        if b[0] != 3 || b.len() < 5 || le_value(b.subrange(1, 5)) < 1073741824 {
            None
        } else {
            Some((le_value(b.subrange(1, 5)), 5))
        }
    }
}

/// The length-prefixed byte string at the front of `b`, and the bytes it took.
pub open spec fn bytes_prefix(b: Seq<u8>) -> Option<(Seq<u8>, nat)> {
    match compact_prefix(b) {
        None => None,
        Some((n, k)) => if k + n <= b.len() {
            Some((b.subrange(k as int, (k + n) as int), k + n))
        } else {
            None
        },
    }
}

pub proof fn lemma_le_value_bound(b: Seq<u8>)
    ensures
        le_value(b) < pow256(b.len()),
    decreases b.len(),
{
    if b.len() > 0 {
        lemma_le_value_bound(b.drop_first());
        let r = le_value(b.drop_first());
        let p = pow256(b.drop_first().len());
        assert(b[0] as nat + 256 * r < 256 * p) by (nonlinear_arith)
            requires
                r < p,
                b[0] < 256,
        ;
    }
}

pub proof fn lemma_le_bytes_len(v: nat, n: nat)
    ensures
        le_bytes(v, n).len() == n,
    decreases n,
{
    if n > 0 {
        lemma_le_bytes_len(v / 256, (n - 1) as nat);
    }
}

/// Spelling a number in `n` bytes and reading it back gives the number, when
/// it fits.
pub proof fn lemma_le_round_trip(v: nat, n: nat)
    requires
        v < pow256(n),
    ensures
        le_value(le_bytes(v, n)) == v,
    decreases n,
{
    if n > 0 {
        let rest = le_bytes(v / 256, (n - 1) as nat);
        let p = pow256((n - 1) as nat);
        assert(v / 256 < p) by (nonlinear_arith)
            requires
                v < 256 * p,
        ;
        lemma_le_round_trip(v / 256, (n - 1) as nat);
        assert(le_bytes(v, n).drop_first() =~= rest);
    }
}

/// The `n` low bytes of `v`, least significant first.
pub fn encode_le(v: u128, n: usize) -> (r: Vec<u8>)
    ensures
        r@ == le_bytes(v as nat, n as nat),
{
    let mut out: Vec<u8> = Vec::new();
    let mut cur: u128 = v;
    let mut i: usize = 0;
    while i < n
        invariant
            i <= n,
            out@ + le_bytes(cur as nat, (n - i) as nat) == le_bytes(v as nat, n as nat),
        decreases n - i,
    {
        let ghost before = out@;
        let ghost rest = le_bytes(cur as nat / 256, (n - i - 1) as nat);
        assert(le_bytes(cur as nat, (n - i) as nat) == seq![(cur as nat % 256) as u8] + rest);
        out.push((cur % 256) as u8);
        cur = cur / 256;
        i = i + 1;
        assert(before + (seq![(v as nat % 256) as u8] + rest) =~= (before + seq![(v as nat
            % 256) as u8]) + rest);
    }
    assert(out@ + le_bytes(cur as nat, 0) =~= out@);
    out
}

/// The number spelled by `b[start..start + n]`, least significant first.
pub fn read_le(b: &[u8], start: usize, n: usize) -> (r: u64)
    requires
        n <= 8,
        start + n <= b@.len(),
    ensures
        r as nat == le_value(b@.subrange(start as int, start + n)),
{
    let len: usize = b.len();
    assert(start + n <= len);
    let mut acc: u64 = 0;
    let mut i: usize = start + n;
    while i > start
        invariant
            start <= i <= start + n,
            start + n <= b@.len(),
            n <= 8,
            acc as nat == le_value(b@.subrange(i as int, start + n)),
        decreases i,
    {
        let ghost tail = b@.subrange(i as int, start + n);
        proof {
            lemma_le_value_bound(tail);
            lemma_pow256_mono((start + n - i) as nat, 7);
            reveal_with_fuel(pow256, 9);
        }
        assert(b@.subrange(i - 1, start + n).drop_first() =~= tail);
        assert(acc * 256 + b[i - 1] < pow256(8)) by (nonlinear_arith)
            requires
                acc < pow256(7),
                b[i - 1] < 256,
                pow256(8) == 256 * pow256(7),
        ;
        acc = acc * 256 + b[i - 1] as u64;
        i = i - 1;
    }
    acc
}

pub proof fn lemma_pow256_mono(a: nat, b: nat)
    requires
        a <= b,
    ensures
        pow256(a) <= pow256(b),
    decreases b,
{
    if a < b {
        lemma_pow256_mono(a, (b - 1) as nat);
    }
}

/// The compact encoding of `n`.
pub fn encode_compact(n: u32) -> (r: Vec<u8>)
    ensures
        r@ == compact(n as nat),
{
    if n < 64 {
        encode_le(n as u128 * 4, 1)
    } else if n < 16384 {
        encode_le(n as u128 * 4 + 1, 2)
    } else if n < 1073741824 {
        encode_le(n as u128 * 4 + 2, 4)
    } else {
        let mut r: Vec<u8> = vec![3u8];
        let mut tail = encode_le(n as u128, 4);
        r.append(&mut tail);
        r
    }
}

/// Appends `b` to `out` with its compact length in front.
pub fn push_with_len(out: &mut Vec<u8>, b: &[u8])
    requires
        b@.len() <= u32::MAX,
    ensures
        final(out)@ == old(out)@ + with_len(b@),
{
    let len: usize = b.len();
    let mut prefix = encode_compact(len as u32);
    out.append(&mut prefix);
    push_all(out, b);
    assert(old(out)@ + compact(b@.len()) + b@ =~= old(out)@ + with_len(b@));
}

/// Appends the bytes of `b` to `out`.
pub fn push_all(out: &mut Vec<u8>, b: &[u8])
    ensures
        final(out)@ == old(out)@ + b@,
{
    let mut i: usize = 0;
    while i < b.len()
        invariant
            i <= b@.len(),
            out@ == old(out)@ + b@.subrange(0, i as int),
        decreases b@.len() - i,
    {
        out.push(b[i]);
        i = i + 1;
        assert(out@ =~= old(out)@ + b@.subrange(0, i as int));
    }
    assert(b@.subrange(0, b@.len() as int) =~= b@);
}

/// The compact length at `b[at..]` and the offset just past it.
pub fn read_compact(b: &[u8], at: usize) -> (r: Option<(u64, usize)>)
    requires
        at <= b@.len(),
    ensures
        r is None <==> compact_prefix(b@.skip(at as int)) is None,
        r matches Some((v, next)) ==> compact_prefix(b@.skip(at as int)) == Some(
            (v as nat, (next - at) as nat),
        ) && at < next <= b@.len() && v <= u32::MAX,
{
    let ghost t = b@.skip(at as int);
    let len: usize = b.len();
    if at == len {
        return None;
    }
    let b0 = b[at];
    if b0 % 4 == 0 {
        Some(((b0 / 4) as u64, at + 1))
    } else if b0 % 4 == 1 {
        if len - at < 2 {
            return None;
        }
        let v = read_le(b, at, 2);
        proof {
            lemma_le_value_bound(b@.subrange(at as int, at + 2));
            reveal_with_fuel(pow256, 3);
        }
        assert(b@.subrange(at as int, at + 2) =~= t.subrange(0, 2));
        if v / 4 < 64 {
            None
        } else {
            Some((v / 4, at + 2))
        }
    } else if b0 % 4 == 2 {
        if len - at < 4 {
            return None;
        }
        let v = read_le(b, at, 4);
        proof {
            lemma_le_value_bound(b@.subrange(at as int, at + 4));
            reveal_with_fuel(pow256, 5);
        }
        assert(b@.subrange(at as int, at + 4) =~= t.subrange(0, 4));
        if v / 4 < 16384 {
            None
        } else {
            Some((v / 4, at + 4))
        }
    } else {
        if b0 != 3 || len - at < 5 {
            return None;
        }
        let v = read_le(b, at + 1, 4);
        proof {
            lemma_le_value_bound(b@.subrange(at + 1, at + 5));
            reveal_with_fuel(pow256, 5);
        }
        assert(b@.subrange(at + 1, at + 5) =~= t.subrange(1, 5));
        if v < 1073741824 {
            None
        } else {
            Some((v, at + 5))
        }
    }
}

/// The length-prefixed byte string at `b[at..]` and the offset just past it.
pub fn read_bytes(b: &[u8], at: usize) -> (r: Option<(Vec<u8>, usize)>)
    requires
        at <= b@.len(),
    ensures
        r is None <==> bytes_prefix(b@.skip(at as int)) is None,
        r matches Some((v, next)) ==> bytes_prefix(b@.skip(at as int)) == Some(
            (v@, (next - at) as nat),
        ) && at < next <= b@.len(),
{
    let ghost t = b@.skip(at as int);
    let len: usize = b.len();
    match read_compact(b, at) {
        None => None,
        Some((n, next)) => {
            if n > (len - next) as u64 {
                return None;
            }
            let end: usize = next + n as usize;
            let v = copy_range(b, next, end);
            assert(b@.subrange(next as int, end as int) =~= t.subrange(
                (next - at) as int,
                (next - at + n) as int,
            ));
            Some((v, end))
        },
    }
}

/// A copy of `b[start..end]`.
pub fn copy_range(b: &[u8], start: usize, end: usize) -> (r: Vec<u8>)
    requires
        start <= end <= b@.len(),
    ensures
        r@ == b@.subrange(start as int, end as int),
{
    let mut out: Vec<u8> = Vec::new();
    let mut i: usize = start;
    while i < end
        invariant
            start <= i <= end <= b@.len(),
            out@ == b@.subrange(start as int, i as int),
        decreases end - i,
    {
        out.push(b[i]);
        i = i + 1;
        assert(out@ =~= b@.subrange(start as int, i as int));
    }
    out
}

/// The UTF-8 bytes of `s`.
pub open spec fn utf8(s: String) -> Seq<u8> {
    encode_utf8(s@)
}

/// Appends the UTF-8 bytes of `s` to `out` with their compact length in front.
pub fn push_str(out: &mut Vec<u8>, s: &String)
    requires
        utf8(*s).len() <= u32::MAX,
    ensures
        final(out)@ == old(out)@ + with_len(utf8(*s)),
{
    let b: &[u8] = s.as_str().as_bytes();
    push_with_len(out, b);
}

/// Whether the two byte strings are equal.
pub fn bytes_eq(a: &[u8], b: &[u8]) -> (r: bool)
    ensures
        r == (a@ == b@),
{
    if a.len() != b.len() {
        return false;
    }
    let mut i: usize = 0;
    while i < a.len()
        invariant
            i <= a@.len() == b@.len(),
            a@.subrange(0, i as int) == b@.subrange(0, i as int),
        decreases a@.len() - i,
    {
        if a[i] != b[i] {
            assert(a@[i as int] != b@[i as int]);
            return false;
        }
        i = i + 1;
        assert(a@.subrange(0, i as int) =~= b@.subrange(0, i as int));
    }
    assert(a@ =~= a@.subrange(0, i as int));
    assert(b@ =~= b@.subrange(0, i as int));
    true
}

/// The 32 bytes `b[at..at + 32]`.
pub fn read_array32(b: &[u8], at: usize) -> (r: [u8; 32])
    requires
        at + 32 <= b@.len(),
    ensures
        r@ == b@.subrange(at as int, at + 32),
{
    let len: usize = b.len();
    let mut h: [u8; 32] = [0u8; 32];
    let mut i: usize = 0;
    while i < 32
        invariant
            i <= 32,
            at + 32 <= b@.len(),
            len == b@.len(),
            forall|j: int| 0 <= j < i ==> h@[j] == b@[at + j],
        decreases 32 - i,
    {
        h[i] = b[at + i];
        i = i + 1;
    }
    assert(h@ =~= b@.subrange(at as int, at + 32));
    h
}

} // verus!
