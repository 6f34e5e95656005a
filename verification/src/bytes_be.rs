//! Big-endian byte strings of bounded integers: the byte-level bedrock of
//! the wire codec, with the encode/decode inverse lemmas.

use vstd::prelude::*;
use vstd::arithmetic::div_mod::{lemma_breakdown, lemma_small_mod};

verus! {

/// `256^n`.
pub open spec fn pow256(n: nat) -> nat
    decreases n,
{
    if n == 0 {
        1
    } else {
        256 * pow256((n - 1) as nat)
    }
}

/// The `n` low-order bytes of `z`, most significant first.
pub open spec fn be_bytes(z: nat, n: nat) -> Seq<u8>
    decreases n,
{
    if n == 0 {
        Seq::empty()
    } else {
        be_bytes(z / 256, (n - 1) as nat).push((z % 256) as u8)
    }
}

/// The unsigned integer read from a big-endian byte string.
pub open spec fn from_be(s: Seq<u8>) -> nat
    decreases s.len(),
{
    if s.len() == 0 {
        0
    } else {
        (from_be(s.drop_last()) * 256 + s.last()) as nat
    }
}

pub proof fn lemma_be_bytes_len(z: nat, n: nat)
    ensures
        be_bytes(z, n).len() == n,
    decreases n,
{
    if n > 0 {
        lemma_be_bytes_len(z / 256, (n - 1) as nat);
    }
}

pub proof fn lemma_from_be_bound(s: Seq<u8>)
    ensures
        from_be(s) < pow256(s.len()),
    decreases s.len(),
{
    if s.len() > 0 {
        lemma_from_be_bound(s.drop_last());
    }
}

/// Reading back the bytes of `z` recovers `z` modulo `256^n`.
pub proof fn lemma_from_be_be_bytes(z: nat, n: nat)
    ensures
        from_be(be_bytes(z, n)) == z % pow256(n),
    decreases n,
{
    if n == 0 {
        assert(z % 1 == 0) by (nonlinear_arith);
    } else {
        let m = (n - 1) as nat;
        lemma_pow256_pos(m);
        lemma_be_bytes_len(z / 256, m);
        assert(be_bytes(z, n).drop_last() =~= be_bytes(z / 256, m));
        lemma_from_be_be_bytes(z / 256, m);
        lemma_breakdown(z as int, 256, pow256(m) as int);
    }
}

/// Reading back the bytes of a small enough `z` recovers `z` exactly.
pub proof fn lemma_from_be_be_bytes_exact(z: nat, n: nat)
    requires
        z < pow256(n),
    ensures
        from_be(be_bytes(z, n)) == z,
{
    lemma_from_be_be_bytes(z, n);
    lemma_small_mod(z, pow256(n));
}

/// The powers of 256 that bound the machine words the codec reads.
pub proof fn lemma_pow256_values()
    ensures
        pow256(0) == 1,
        pow256(1) == 0x100,
        pow256(2) == 0x1_0000,
        pow256(3) == 0x100_0000,
        pow256(4) == 0x1_0000_0000,
        pow256(5) == 0x100_0000_0000,
        pow256(6) == 0x1_0000_0000_0000,
        pow256(7) == 0x100_0000_0000_0000,
        pow256(8) == 0x1_0000_0000_0000_0000,
{
    reveal_with_fuel(pow256, 9);
}

/// The `n` low-order bytes of `z`, most significant first, as a vector.
pub fn be_u64(z: u64, n: usize) -> (r: Vec<u8>)
    requires
        n <= 8,
    ensures
        r@ == be_bytes(z as nat, n as nat),
        r@.len() == n,
    decreases n,
{
    proof {
        lemma_be_bytes_len(z as nat, n as nat);
    }
    if n == 0 {
        Vec::new()
    } else {
        let mut r: Vec<u8> = be_u64(z / 256, n - 1);
        r.push((z % 256) as u8);
        r
    }
}

/// The unsigned integer read from `bytes[lo..hi]`, big-endian.
pub fn read_be_u64(bytes: &[u8], lo: usize, hi: usize) -> (r: u64)
    requires
        lo <= hi <= bytes@.len(),
        hi - lo <= 8,
    ensures
        r as nat == from_be(bytes@.subrange(lo as int, hi as int)),
        (r as nat) < pow256((hi - lo) as nat),
    decreases hi - lo,
{
    proof {
        lemma_pow256_values();
        lemma_from_be_bound(bytes@.subrange(lo as int, hi as int));
    }
    if lo == hi {
        assert(bytes@.subrange(lo as int, hi as int).len() == 0);
        0
    } else {
        let prefix: u64 = read_be_u64(bytes, lo, hi - 1);
        proof {
            assert(bytes@.subrange(lo as int, hi as int).drop_last() =~= bytes@.subrange(
                lo as int,
                hi - 1,
            ));
            lemma_from_be_bound(bytes@.subrange(lo as int, hi - 1));
            assert(pow256(((hi - lo) - 1) as nat) <= pow256(7)) by {
                lemma_pow256_pointwise_le(((hi - lo) - 1) as nat, 7);
            }
        }
        let b: u8 = bytes[hi - 1];
        assert(bytes@.subrange(lo as int, hi as int).last() == b);
        prefix * 256 + (b as u64)
    }
}

/// `256^n` is positive.
pub proof fn lemma_pow256_pos(n: nat)
    ensures
        pow256(n) > 0,
    decreases n,
{
    if n > 0 {
        lemma_pow256_pos((n - 1) as nat);
    }
}

/// `256^a <= 256^b` when `a <= b`.
pub proof fn lemma_pow256_pointwise_le(a: nat, b: nat)
    requires
        a <= b,
    ensures
        pow256(a) <= pow256(b),
    decreases b,
{
    if a < b {
        lemma_pow256_pointwise_le(a, (b - 1) as nat);
    }
}

/// The 32-bit big-endian word at `bytes[at..at + 4]`.
pub fn read_u32_at(bytes: &[u8], at: usize) -> (r: u32)
    requires
        at + 4 <= bytes@.len(),
    ensures
        r as nat == from_be(bytes@.subrange(at as int, at + 4)),
{
    proof {
        lemma_pow256_values();
    }
    let n: usize = bytes.len();
    let r: u64 = read_be_u64(bytes, at, at + 4);
    r as u32
}

} // verus!
