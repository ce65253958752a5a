//! Little-endian integers and the length-prefixed binary frame layouts.
use vstd::prelude::*;

verus! {

/// 256 to the power `k`.
pub open spec fn pow256(k: nat) -> nat
    decreases k,
{
    if k == 0 {
        1
    } else {
        256 * pow256((k - 1) as nat)
    }
}

/// The unsigned integer that the bytes `b` encode, least significant first.
pub open spec fn le_value(b: Seq<u8>) -> nat
    decreases b.len(),
{
    if b.len() == 0 {
        0
    } else {
        b[0] as nat + 256 * le_value(b.drop_first())
    }
}

pub proof fn lemma_pow256_positive(k: nat)
    ensures
        pow256(k) > 0,
    decreases k,
{
    if k > 0 {
        lemma_pow256_positive((k - 1) as nat);
    }
}

pub proof fn lemma_le_value_bound(b: Seq<u8>)
    ensures
        le_value(b) < pow256(b.len()),
    decreases b.len(),
{
    if b.len() > 0 {
        lemma_le_value_bound(b.drop_first());
        let r = le_value(b.drop_first());
        let p = pow256((b.len() - 1) as nat);
        assert(b[0] as nat + 256 * r < 256 * p) by (nonlinear_arith)
            requires
                r < p,
                b[0] < 256,
        ;
    }
}

pub proof fn lemma_le_value_push(b: Seq<u8>, x: u8)
    ensures
        le_value(b.push(x)) == le_value(b) + pow256(b.len()) * x,
    decreases b.len(),
{
    if b.len() > 0 {
        lemma_le_value_push(b.drop_first(), x);
        assert(b.push(x).drop_first() =~= b.drop_first().push(x));
        let p = pow256((b.len() - 1) as nat);
        let r = le_value(b.drop_first());
        assert(256 * (r + p * x) == 256 * r + (256 * p) * x) by (nonlinear_arith);
        assert(b.push(x)[0] == b[0]);
        assert(pow256(b.len()) == 256 * p);
    } else {
        assert(b.push(x).drop_first() =~= Seq::<u8>::empty());
        assert(le_value(b.push(x)) == x as nat + 256 * le_value(Seq::<u8>::empty()));
        assert(pow256(0) == 1);
    }
}

pub proof fn lemma_pow256_values()
    ensures
        pow256(2) == 0x1_0000,
        pow256(4) == 0x1_0000_0000,
        pow256(7) == 0x100_0000_0000_0000,
        pow256(8) == 0x1_0000_0000_0000_0000,
{
    reveal_with_fuel(pow256, 9);
}

/// Reads the `n`-byte little-endian integer at `offset`.
pub(crate) fn read_le(bytes: &[u8], offset: usize, n: usize) -> (r: u64)
    requires
        n <= 8,
        offset + n <= bytes@.len(),
    ensures
        r as nat == le_value(bytes@.subrange(offset as int, offset + n)),
{
    let len = bytes.len();
    let mut value: u64 = 0;
    let mut i: usize = n;
    proof {
        lemma_pow256_values();
    }
    while i > 0
        invariant
            n <= 8,
            offset + n <= bytes@.len(),
            len == bytes@.len(),
            i <= n,
            value as nat == le_value(bytes@.subrange(offset + i, offset + n)),
            pow256(7) == 0x100_0000_0000_0000,
        decreases i,
    {
        let ghost rest = bytes@.subrange(offset + i, offset + n);
        let ghost cur = bytes@.subrange(offset + i - 1, offset + n);
        proof {
            assert(cur.drop_first() =~= rest);
            lemma_le_value_bound(rest);
            lemma_pow256_monotone(rest.len(), 7);
        }
        value = value * 256 + bytes[offset + (i - 1)] as u64;
        i = i - 1;
    }
    value
}

proof fn lemma_pow256_monotone(a: nat, b: nat)
    requires
        a <= b,
    ensures
        pow256(a) <= pow256(b),
    decreases b,
{
    if a < b {
        lemma_pow256_monotone(a, (b - 1) as nat);
        lemma_pow256_positive((b - 1) as nat);
    }
}

/// Appends the `n`-byte little-endian form of `v`.
pub(crate) fn push_le(out: &mut Vec<u8>, v: u64, n: usize)
    requires
        n <= 8,
        v < pow256(n as nat),
    ensures
        final(out)@.len() == old(out)@.len() + n,
        final(out)@.subrange(0, old(out)@.len() as int) == old(out)@,
        le_value(final(out)@.subrange(old(out)@.len() as int, final(out)@.len() as int)) == v,
        forall|x: int, y: int|
            0 <= x <= y <= old(out)@.len() ==> #[trigger] final(out)@.subrange(x, y) == old(
                out,
            )@.subrange(x, y),
{
    let ghost start = out@.len();
    let mut x: u64 = v;
    let mut i: usize = 0;
    proof {
        assert(out@.subrange(start as int, out@.len() as int) =~= Seq::<u8>::empty());
        assert(le_value(Seq::<u8>::empty()) == 0);
        assert(pow256(0) == 1);
    }
    while i < n
        invariant
            i <= n,
            n <= 8,
            out@.len() == start + i,
            out@.subrange(0, start as int) == old(out)@,
            start == old(out)@.len(),
            x < pow256((n - i) as nat),
            v == le_value(out@.subrange(start as int, out@.len() as int)) + pow256(i as nat) * x,
        decreases n - i,
    {
        let ghost before = out@.subrange(start as int, out@.len() as int);
        let b: u8 = (x % 256) as u8;
        out.push(b);
        proof {
            assert(out@.subrange(start as int, out@.len() as int) =~= before.push(b));
            assert(out@.subrange(0, start as int) =~= old(out)@);
            lemma_le_value_push(before, b);
            let p = pow256(i as nat);
            let q = pow256((n - i - 1) as nat);
            assert(pow256((n - i) as nat) == 256 * q);
            assert(pow256((i + 1) as nat) == 256 * p);
            assert(p * x == p * (x % 256) + (256 * p) * (x / 256)) by (nonlinear_arith);
            assert(x / 256 < q) by (nonlinear_arith)
                requires
                    x < 256 * q,
            ;
        }
        x = x / 256;
        i = i + 1;
    }
    proof {
        assert(x == 0);
        assert forall|a: int, b: int| 0 <= a <= b <= old(out)@.len() implies #[trigger] out@.subrange(
            a,
            b,
        ) == old(out)@.subrange(a, b) by {
            assert(out@.subrange(a, b) =~= out@.subrange(0, start as int).subrange(a, b));
        }
    }
}

/// Appends every byte of `src`.
pub(crate) fn append_bytes(out: &mut Vec<u8>, src: &[u8])
    ensures
        final(out)@ == old(out)@ + src@,
        final(out)@.subrange(old(out)@.len() as int, final(out)@.len() as int) == src@,
        forall|x: int, y: int|
            0 <= x <= y <= old(out)@.len() ==> #[trigger] final(out)@.subrange(x, y) == old(
                out,
            )@.subrange(x, y),
{
    let ghost start = out@;
    let mut i: usize = 0;
    while i < src.len()
        invariant
            i <= src@.len(),
            out@ == start + src@.subrange(0, i as int),
            start == old(out)@,
        decreases src@.len() - i,
    {
        out.push(src[i]);
        i = i + 1;
        proof {
            assert(out@ =~= start + src@.subrange(0, i as int));
        }
    }
    proof {
        assert(src@.subrange(0, src@.len() as int) =~= src@);
        assert(out@.subrange(old(out)@.len() as int, out@.len() as int) =~= src@);
        assert forall|a: int, b: int| 0 <= a <= b <= old(out)@.len() implies #[trigger] out@.subrange(
            a,
            b,
        ) == old(out)@.subrange(a, b) by {
            assert(out@.subrange(a, b) =~= old(out)@.subrange(a, b));
        }
    }
}

/// The bytes of `src` from `start` to `end`, as a new vector.
pub(crate) fn copy_range(src: &[u8], start: usize, end: usize) -> (r: Vec<u8>)
    requires
        start <= end <= src@.len(),
    ensures
        r@ == src@.subrange(start as int, end as int),
{
    let mut r: Vec<u8> = Vec::new();
    append_bytes(&mut r, vstd::slice::slice_subrange(src, start, end));
    proof {
        assert(r@ =~= src@.subrange(start as int, end as int));
    }
    r
}

} // verus!
