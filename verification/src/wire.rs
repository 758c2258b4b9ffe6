//! Big-endian fields and byte-buffer plumbing shared by every framing
//! layer.

use vstd::prelude::*;

verus! {

/// The value of `s` read as one big-endian unsigned integer.
pub open spec fn be_val(s: Seq<u8>) -> nat
    decreases s.len(),
{
    if s.len() == 0 {
        0
    } else {
        (be_val(s.drop_last()) * 256 + s.last()) as nat
    }
}

/// `256 ^ n`: one more than the largest value `n` big-endian bytes can
/// carry.
pub open spec fn pow256(n: nat) -> nat
    decreases n,
{
    if n == 0 {
        1
    } else {
        256 * pow256((n - 1) as nat)
    }
}

/// The values of `pow256` that the wire formats use.
pub proof fn lemma_pow256_values()
    ensures
        pow256(2) == 0x10000,
        pow256(4) == 0x100000000,
        pow256(8) == 0x10000000000000000,
{
    reveal_with_fuel(pow256, 9);
}

/// A big-endian field never outgrows its width.
pub proof fn lemma_be_val_bound(s: Seq<u8>)
    ensures
        be_val(s) < pow256(s.len() as nat),
    decreases s.len(),
{
    if s.len() > 0 {
        lemma_be_val_bound(s.drop_last());
    }
}

/// The `n`-byte big-endian encoding of `v % 256^n`.
pub open spec fn be_bytes(v: nat, n: nat) -> Seq<u8>
    decreases n,
{
    if n == 0 {
        Seq::empty()
    } else {
        be_bytes(v / 256, (n - 1) as nat).push((v % 256) as u8)
    }
}

/// Encoding a value that fits and reading it back gives it back.
pub proof fn lemma_be_bytes_val(v: nat, n: nat)
    ensures
        be_bytes(v, n).len() == n,
        v < pow256(n) ==> be_val(be_bytes(v, n)) == v,
    decreases n,
{
    if n > 0 {
        lemma_be_bytes_val(v / 256, (n - 1) as nat);
        if v < pow256(n) {
            assert(pow256(n) == 256 * pow256((n - 1) as nat));
            assert(v / 256 < pow256((n - 1) as nat)) by (nonlinear_arith)
                requires
                    v < 256 * pow256((n - 1) as nat),
            ;
            assert(be_bytes(v, n).drop_last() =~= be_bytes(v / 256, (n - 1) as nat));
            vstd::arithmetic::div_mod::lemma_fundamental_div_mod(v as int, 256);
        }
    }
}

/// Read the `count`-byte big-endian field at `start` of `v`.
pub fn read_be(v: &Vec<u8>, start: usize, count: usize) -> (r: u64)
    requires
        count <= 8,
        start + count <= v@.len(),
    ensures
        r == be_val(v@.subrange(start as int, start + count)),
{
    proof {
        lemma_pow256_values();
    }
    let vlen = v.len();
    let mut acc: u64 = 0;
    let mut i: usize = 0;
    while i < count
        invariant
            i <= count,
            count <= 8,
            vlen == v@.len(),
            start + count <= vlen,
            acc == be_val(v@.subrange(start as int, start + i)),
            acc < pow256(i as nat),
            pow256(8) == 0x10000000000000000,
        decreases count - i,
    {
        proof {
            assert(v@.subrange(start as int, start + i + 1).drop_last() =~= v@.subrange(
                start as int,
                start + i,
            ));
            assert(pow256((i + 1) as nat) <= pow256(8)) by {
                reveal_with_fuel(pow256, 9);
            };
        }
        acc = acc * 256 + (v[start + i] as u64);
        i = i + 1;
    }
    proof {
        assert(v@.subrange(start as int, start + count) =~= v@.subrange(start as int, start + i));
    }
    acc
}

/// Write `val` as a `count`-byte big-endian field.
pub fn write_be(val: u64, count: usize) -> (r: Vec<u8>)
    requires
        val < pow256(count as nat),
    ensures
        r@.len() == count,
        be_val(r@) == val,
        r@ == be_bytes(val as nat, count as nat),
    decreases count,
{
    if count == 0 {
        Vec::new()
    } else {
        proof {
            assert(val / 256 < pow256((count - 1) as nat)) by {
                assert(pow256(count as nat) == 256 * pow256((count - 1) as nat));
                assert(val < 256 * pow256((count - 1) as nat));
                assert(val / 256 < pow256((count - 1) as nat)) by (nonlinear_arith)
                    requires
                        val < 256 * pow256((count - 1) as nat),
                ;
            };
        }
        let mut r = write_be(val / 256, count - 1);
        let ghost high = r@;
        r.push((val % 256) as u8);
        proof {
            assert(r@.drop_last() =~= high);
            assert(be_val(r@) == (val / 256) * 256 + val % 256);
            vstd::arithmetic::div_mod::lemma_fundamental_div_mod(val as int, 256);
        }
        r
    }
}

/// Whether two byte vectors hold the same bytes.
pub fn bytes_eq(a: &Vec<u8>, b: &Vec<u8>) -> (r: bool)
    ensures
        r == (a@ == b@),
{
    if a.len() != b.len() {
        return false;
    }
    let n = a.len();
    let mut i: usize = 0;
    while i < n
        invariant
            i <= n,
            n == a@.len(),
            n == b@.len(),
            forall|j: int| 0 <= j < i ==> a@[j] == b@[j],
        decreases n - i,
    {
        if a[i] != b[i] {
            return false;
        }
        i = i + 1;
    }
    proof {
        assert(a@ =~= b@);
    }
    true
}

/// Move the first `n` bytes out of `v`, leaving the rest behind.
pub fn take_front(v: &mut Vec<u8>, n: usize) -> (r: Vec<u8>)
    requires
        n <= old(v)@.len(),
    ensures
        r@ == old(v)@.subrange(0, n as int),
        final(v)@ == old(v)@.subrange(n as int, old(v)@.len() as int),
{
    let mut rest = v.split_off(n);
    core::mem::swap(v, &mut rest);
    rest
}

} // verus!
