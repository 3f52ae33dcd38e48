//! Fixed-width unsigned integers stored in byte buffers.
use vstd::prelude::*;

verus! {

/// `256` raised to `n`.
pub open spec fn pow256(n: nat) -> nat
    decreases n,
{
    if n == 0 {
        1
    } else {
        256 * pow256((n - 1) as nat)
    }
}

/// The unsigned number whose big-endian encoding is `s`.
pub open spec fn be_value(s: Seq<u8>) -> nat
    decreases s.len(),
{
    if s.len() == 0 {
        0
    } else {
        be_value(s.drop_last()) * 256 + s.last() as nat
    }
}

/// The unsigned number whose little-endian encoding is `s`.
pub open spec fn le_value(s: Seq<u8>) -> nat
    decreases s.len(),
{
    if s.len() == 0 {
        0
    } else {
        s[0] as nat + 256 * le_value(s.drop_first())
    }
}

/// `n` bytes hold any value below `256^n`.
pub proof fn lemma_be_value_bound(s: Seq<u8>)
    ensures
        be_value(s) < pow256(s.len()),
    decreases s.len(),
{
    if s.len() > 0 {
        lemma_be_value_bound(s.drop_last());
        let v = be_value(s.drop_last());
        let p = pow256(s.drop_last().len());
        let b = s.last();
        assert(v * 256 + b < p * 256) by (nonlinear_arith)
            requires
                v < p,
                b < 256,
        ;
    }
}

/// `n` bytes hold any value below `256^n`.
pub proof fn lemma_le_value_bound(s: Seq<u8>)
    ensures
        le_value(s) < pow256(s.len()),
    decreases s.len(),
{
    if s.len() > 0 {
        lemma_le_value_bound(s.drop_first());
        let v = le_value(s.drop_first());
        let p = pow256(s.drop_first().len());
        let b = s[0];
        assert(b + 256 * v < 256 * p) by (nonlinear_arith)
            requires
                v < p,
                b < 256,
        ;
    }
}

/// Powers of 256 up to the eighth, for the fixed widths used here.
pub proof fn lemma_pow256_values()
    ensures
        pow256(2) == 0x1_0000,
        pow256(4) == 0x1_0000_0000,
        pow256(8) == 0x1_0000_0000_0000_0000,
{
    reveal_with_fuel(pow256, 9);
}

/// Reads the big-endian number stored in `buf[pos..pos + n]`.
pub fn read_be(buf: &[u8], pos: usize, n: usize) -> (v: u64)
    requires
        n <= 8,
        pos + n <= buf@.len(),
    ensures
        v == be_value(buf@.subrange(pos as int, pos + n)),
{
    let len = buf.len();
    let mut v: u64 = 0;
    let mut i: usize = 0;
    proof {
        lemma_pow256_values();
        assert(buf@.subrange(pos as int, pos as int) =~= Seq::<u8>::empty());
    }
    while i < n
        invariant
            n <= 8,
            pos + n <= buf@.len(),
            len == buf@.len(),
            i <= n,
            v == be_value(buf@.subrange(pos as int, pos + i)),
            pow256(8) == 0x1_0000_0000_0000_0000,
        decreases n - i,
    {
        let ghost s = buf@.subrange(pos as int, pos + i + 1);
        proof {
            assert(s.drop_last() =~= buf@.subrange(pos as int, pos + i));
            lemma_be_value_bound(s);
            lemma_pow256_monotone(s.len(), 8);
        }
        v = v * 256 + buf[pos + i] as u64;
        i = i + 1;
    }
    v
}

/// Reads the little-endian number stored in `buf[pos..pos + n]`.
pub fn read_le(buf: &[u8], pos: usize, n: usize) -> (v: u64)
    requires
        n <= 8,
        pos + n <= buf@.len(),
    ensures
        v == le_value(buf@.subrange(pos as int, pos + n)),
{
    let len = buf.len();
    let mut v: u64 = 0;
    let mut i: usize = n;
    proof {
        lemma_pow256_values();
        assert(buf@.subrange(pos + n, pos + n) =~= Seq::<u8>::empty());
    }
    while i > 0
        invariant
            n <= 8,
            pos + n <= buf@.len(),
            len == buf@.len(),
            i <= n,
            v == le_value(buf@.subrange(pos + i, pos + n)),
            pow256(8) == 0x1_0000_0000_0000_0000,
        decreases i,
    {
        let ghost s = buf@.subrange(pos + i - 1, pos + n);
        proof {
            assert(s.drop_first() =~= buf@.subrange(pos + i, pos + n));
            lemma_le_value_bound(s);
            lemma_pow256_monotone(s.len(), 8);
        }
        v = buf[pos + i - 1] as u64 + 256 * v;
        i = i - 1;
    }
    v
}

/// `256^a <= 256^b` when `a <= b`.
pub proof fn lemma_pow256_monotone(a: nat, b: nat)
    requires
        a <= b,
    ensures
        pow256(a) <= pow256(b),
    decreases b,
{
    if a < b {
        lemma_pow256_monotone(a, (b - 1) as nat);
    }
}

/// The `n`-byte big-endian encoding of `v` (its low `n` bytes).
pub open spec fn be_bytes(v: nat, n: nat) -> Seq<u8>
    decreases n,
{
    if n == 0 {
        Seq::empty()
    } else {
        be_bytes(v / 256, (n - 1) as nat).push((v % 256) as u8)
    }
}

/// Decoding the big-endian encoding of a value that fits gives it back.
pub proof fn lemma_be_roundtrip(v: nat, n: nat)
    requires
        v < pow256(n),
    ensures
        be_bytes(v, n).len() == n,
        be_value(be_bytes(v, n)) == v,
    decreases n,
{
    if n > 0 {
        let q = v / 256;
        let p = pow256((n - 1) as nat);
        assert(q < p) by (nonlinear_arith)
            requires
                v < 256 * p,
                q == v / 256,
        ;
        lemma_be_roundtrip(q, (n - 1) as nat);
        let s = be_bytes(v, n);
        assert(s.drop_last() =~= be_bytes(q, (n - 1) as nat));
        assert(q * 256 + v % 256 == v) by (nonlinear_arith)
            requires
                q == v / 256,
        ;
    }
}

} // verus!
