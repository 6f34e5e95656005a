//! Signed variable-length integers: a zigzag step that folds the sign into
//! an unsigned value, and a variable-length unsigned layout whose first
//! byte announces, through its leading one bits, how many extra bytes
//! follow. The duration codec reads and writes three of these in a row.

use vstd::prelude::*;
use vstd::arithmetic::div_mod::{lemma_fundamental_div_mod, lemma_multiply_divide_lt};
use crate::bytes_be::{
    be_bytes, be_u64, from_be, lemma_be_bytes_len, lemma_from_be_be_bytes,
    lemma_from_be_be_bytes_exact, lemma_pow256_values, pow256, read_be_u64,
};

verus! {

/// Fold the sign of `n` into the low bit: `0, -1, 1, -2, 2, ...` become
/// `0, 1, 2, 3, 4, ...`.
pub open spec fn zigzag(n: i64) -> u64 {
    if n >= 0 {
        (2 * n) as u64
    } else {
        (2 * (-(n + 1)) + 1) as u64
    }
}

/// Undo `zigzag`.
pub open spec fn unzigzag(z: u64) -> i64 {
    if z % 2 == 0 {
        (z / 2) as i64
    } else {
        (-1 - (z / 2)) as i64
    }
}

/// The two folds are inverse.
pub proof fn lemma_unzigzag_zigzag(n: i64)
    ensures
        unzigzag(zigzag(n)) == n,
{
    if n >= 0 {
        assert((2 * (n as int)) % 2 == 0 && (2 * (n as int)) / 2 == n as int);
    } else {
        let w = -(n as int + 1);
        assert((2 * w + 1) % 2 == 1 && (2 * w + 1) / 2 == w);
    }
}

/// Number of extra bytes after the first byte in the encoding of `z`:
/// the smallest count whose capacity of `7 * (count + 1)` payload bits
/// holds `z`, up to eight extra bytes for a full 64-bit value.
pub open spec fn vint_extra(z: u64) -> nat {
    if z < 0x80 {
        0
    } else if z < 0x4000 {
        1
    } else if z < 0x20_0000 {
        2
    } else if z < 0x1000_0000 {
        3
    } else if z < 0x8_0000_0000 {
        4
    } else if z < 0x400_0000_0000 {
        5
    } else if z < 0x2_0000_0000_0000 {
        6
    } else if z < 0x100_0000_0000_0000 {
        7
    } else {
        8
    }
}

/// First-byte marker for `e` extra bytes: `e` leading one bits.
pub open spec fn vint_base(e: nat) -> u8 {
    if e == 0 {
        0
    } else if e == 1 {
        0x80
    } else if e == 2 {
        0xC0
    } else if e == 3 {
        0xE0
    } else if e == 4 {
        0xF0
    } else if e == 5 {
        0xF8
    } else if e == 6 {
        0xFC
    } else if e == 7 {
        0xFE
    } else {
        0xFF
    }
}

/// Count of extra bytes announced by a first byte.
pub open spec fn byte_extra(b0: u8) -> nat {
    if b0 < 0x80 {
        0
    } else if b0 < 0xC0 {
        1
    } else if b0 < 0xE0 {
        2
    } else if b0 < 0xF0 {
        3
    } else if b0 < 0xF8 {
        4
    } else if b0 < 0xFC {
        5
    } else if b0 < 0xFE {
        6
    } else if b0 == 0xFE {
        7
    } else {
        8
    }
}

/// Total byte length of the encoding of `z`.
pub open spec fn vint_len(z: u64) -> nat {
    1 + vint_extra(z)
}

/// The variable-length encoding of `z`: a marker byte carrying the high
/// bits, then the low bytes big-endian.
pub open spec fn spec_vint_encode(z: u64) -> Seq<u8> {
    let e = vint_extra(z);
    if e == 8 {
        seq![0xFFu8] + be_bytes(z as nat, 8)
    } else {
        seq![(vint_base(e) + (z as nat) / pow256(e)) as u8] + be_bytes(z as nat, e)
    }
}

/// Read one variable-length unsigned integer starting at `i`; `None` when
/// the bytes run out before the announced count.
pub open spec fn spec_vint_decode(s: Seq<u8>, i: nat) -> Option<(u64, nat)> {
    if i >= s.len() {
        Option::None
    } else {
        let b0 = s[i as int];
        let e = byte_extra(b0);
        if i + 1 + e > s.len() {
            Option::None
        } else {
            let hi = (b0 as nat - vint_base(e) as nat) as nat;
            let rest = from_be(s.subrange(i as int + 1, (i + 1 + e) as int));
            Option::Some((((hi * pow256(e) + rest) as nat) as u64, (1 + e) as nat))
        }
    }
}

/// Decoding an encoded value embedded in a larger byte string recovers
/// the value and consumes exactly its length.
pub proof fn lemma_vint_round_trip(s: Seq<u8>, i: nat, z: u64)
    requires
        i + vint_len(z) <= s.len(),
        s.subrange(i as int, (i + vint_len(z)) as int) == spec_vint_encode(z),
    ensures
        spec_vint_decode(s, i) == Option::Some((z, vint_len(z))),
{
    lemma_pow256_values();
    let e = vint_extra(z);
    let enc = spec_vint_encode(z);
    lemma_be_bytes_len(z as nat, if e == 8 { 8 } else { e });
    assert(enc.len() == 1 + e);
    let b0 = s[i as int];
    assert(b0 == enc[0]);
    if e == 8 {
        assert(b0 == 0xFF);
        assert(byte_extra(b0) == 8);
        assert forall|k: int| 0 <= k < 8 implies s.subrange(i as int + 1, i as int + 9)[k] == be_bytes(
            z as nat,
            8,
        )[k] by {
            assert(s.subrange(i as int, i as int + 9)[k + 1] == s[i + 1 + k]);
            assert(enc[k + 1] == be_bytes(z as nat, 8)[k]);
        }
        assert(s.subrange(i as int + 1, i as int + 9) =~= be_bytes(z as nat, 8));
        lemma_from_be_be_bytes_exact(z as nat, 8);
    } else {
        let p = pow256(e);
        let hi = (z as nat) / p;
        // z below the capacity for e extra bytes puts the quotient below
        // the next marker's distance.
        if e == 0 {
            lemma_multiply_divide_lt(z as int, p as int, 0x80);
        } else if e == 1 {
            lemma_multiply_divide_lt(z as int, p as int, 0x40);
        } else if e == 2 {
            lemma_multiply_divide_lt(z as int, p as int, 0x20);
        } else if e == 3 {
            lemma_multiply_divide_lt(z as int, p as int, 0x10);
        } else if e == 4 {
            lemma_multiply_divide_lt(z as int, p as int, 0x8);
        } else if e == 5 {
            lemma_multiply_divide_lt(z as int, p as int, 0x4);
        } else if e == 6 {
            lemma_multiply_divide_lt(z as int, p as int, 0x2);
        } else {
            lemma_multiply_divide_lt(z as int, p as int, 0x1);
        }
        assert(vint_base(e) + hi < 256);
        assert(b0 == vint_base(e) + hi);
        assert(byte_extra(b0) == e);
        assert forall|k: int| 0 <= k < e implies s.subrange(i as int + 1, (i + 1 + e) as int)[k]
            == be_bytes(z as nat, e)[k] by {
            assert(s.subrange(i as int, (i + 1 + e) as int)[k + 1] == s[i + 1 + k]);
            assert(enc[k + 1] == be_bytes(z as nat, e)[k]);
        }
        assert(s.subrange(i as int + 1, (i + 1 + e) as int) =~= be_bytes(z as nat, e));
        lemma_from_be_be_bytes(z as nat, e);
        lemma_fundamental_div_mod(z as int, p as int);
    }
}

/// Fold the sign of `n` into the low bit.
pub fn zigzag_of(n: i64) -> (r: u64)
    ensures
        r == zigzag(n),
{
    if n >= 0 {
        (n as u64) * 2
    } else {
        ((-(n + 1)) as u64) * 2 + 1
    }
}

/// Undo the sign fold.
pub fn unzigzag_of(z: u64) -> (r: i64)
    ensures
        r == unzigzag(z),
{
    if z % 2 == 0 {
        (z / 2) as i64
    } else {
        -1 - ((z / 2) as i64)
    }
}

/// Marker byte for `e` extra bytes.
fn vint_base_of(e: usize) -> (r: u8)
    requires
        e <= 8,
    ensures
        r == vint_base(e as nat),
{
    if e == 0 {
        0
    } else if e == 1 {
        0x80
    } else if e == 2 {
        0xC0
    } else if e == 3 {
        0xE0
    } else if e == 4 {
        0xF0
    } else if e == 5 {
        0xF8
    } else if e == 6 {
        0xFC
    } else if e == 7 {
        0xFE
    } else {
        0xFF
    }
}

/// `256^e` as a machine word, for the byte counts a marker can announce
/// short of a full value.
fn pow256_of(e: usize) -> (r: u64)
    requires
        e <= 7,
    ensures
        r as nat == pow256(e as nat),
{
    proof {
        lemma_pow256_values();
    }
    if e == 0 {
        1
    } else if e == 1 {
        0x100
    } else if e == 2 {
        0x1_0000
    } else if e == 3 {
        0x100_0000
    } else if e == 4 {
        0x1_0000_0000
    } else if e == 5 {
        0x100_0000_0000
    } else if e == 6 {
        0x1_0000_0000_0000
    } else {
        0x100_0000_0000_0000
    }
}

/// Append the variable-length encoding of `z` to `out`.
pub fn vint_encode(out: &mut Vec<u8>, z: u64)
    ensures
        final(out)@ == old(out)@ + spec_vint_encode(z),
{
    let e: usize = if z < 0x80 {
        0
    } else if z < 0x4000 {
        1
    } else if z < 0x20_0000 {
        2
    } else if z < 0x1000_0000 {
        3
    } else if z < 0x8_0000_0000 {
        4
    } else if z < 0x400_0000_0000 {
        5
    } else if z < 0x2_0000_0000_0000 {
        6
    } else if z < 0x100_0000_0000_0000 {
        7
    } else {
        8
    };
    proof {
        lemma_pow256_values();
    }
    if e == 8 {
        out.push(0xFF);
        let mut tail: Vec<u8> = be_u64(z, 8);
        out.append(&mut tail);
        assert(final(out)@ =~= old(out)@ + spec_vint_encode(z));
    } else {
        let p: u64 = pow256_of(e);
        let hi: u64 = z / p;
        proof {
            lemma_multiply_divide_lt(z as int, p as int, 0x100_0000_0000_0000);
            if e == 0 {
                lemma_multiply_divide_lt(z as int, p as int, 0x80);
            } else if e == 1 {
                lemma_multiply_divide_lt(z as int, p as int, 0x40);
            } else if e == 2 {
                lemma_multiply_divide_lt(z as int, p as int, 0x20);
            } else if e == 3 {
                lemma_multiply_divide_lt(z as int, p as int, 0x10);
            } else if e == 4 {
                lemma_multiply_divide_lt(z as int, p as int, 0x8);
            } else if e == 5 {
                lemma_multiply_divide_lt(z as int, p as int, 0x4);
            } else if e == 6 {
                lemma_multiply_divide_lt(z as int, p as int, 0x2);
            } else {
                lemma_multiply_divide_lt(z as int, p as int, 0x1);
            }
        }
        out.push(vint_base_of(e) + (hi as u8));
        let mut tail: Vec<u8> = be_u64(z, e);
        out.append(&mut tail);
        assert(final(out)@ =~= old(out)@ + spec_vint_encode(z));
    }
}

/// Join the high bits from the marker byte with `e` extra bytes.
fn vint_combine(hi: u64, e: usize, rest: u64) -> (r: u64)
    requires
        e <= 7,
        hi < 0x80,
        (rest as nat) < pow256(e as nat),
    ensures
        r as nat == (hi as nat) * pow256(e as nat) + rest,
{
    proof {
        lemma_pow256_values();
    }
    if e == 0 {
        hi + rest
    } else if e == 1 {
        hi * 0x100 + rest
    } else if e == 2 {
        hi * 0x1_0000 + rest
    } else if e == 3 {
        hi * 0x100_0000 + rest
    } else if e == 4 {
        hi * 0x1_0000_0000 + rest
    } else if e == 5 {
        hi * 0x100_0000_0000 + rest
    } else if e == 6 {
        hi * 0x1_0000_0000_0000 + rest
    } else {
        hi * 0x100_0000_0000_0000 + rest
    }
}

/// Read one variable-length unsigned integer starting at `i`.
#[verifier::rlimit(50)]
pub fn vint_decode(bytes: &[u8], i: usize) -> (r: Option<(u64, usize)>)
    ensures
        match r {
            Option::Some((v, c)) => {
                &&& spec_vint_decode(bytes@, i as nat) == Option::Some((v, c as nat))
                &&& 1 <= c <= 9
                &&& i + c <= bytes@.len()
            },
            Option::None => spec_vint_decode(bytes@, i as nat) is None,
        },
{
    let n: usize = bytes.len();
    if i >= n {
        return Option::None;
    }
    let b0: u8 = bytes[i];
    let e: usize = if b0 < 0x80 {
        0
    } else if b0 < 0xC0 {
        1
    } else if b0 < 0xE0 {
        2
    } else if b0 < 0xF0 {
        3
    } else if b0 < 0xF8 {
        4
    } else if b0 < 0xFC {
        5
    } else if b0 < 0xFE {
        6
    } else if b0 == 0xFE {
        7
    } else {
        8
    };
    assert(e == byte_extra(b0));
    if n - i - 1 < e {
        return Option::None;
    }
    proof {
        lemma_pow256_values();
    }
    let rest: u64 = read_be_u64(bytes, i + 1, i + 1 + e);
    if e == 8 {
        Option::Some((rest, 9))
    } else {
        let hi: u64 = (b0 - vint_base_of(e)) as u64;
        assert(hi < 0x80);
        let val: u64 = vint_combine(hi, e, rest);
        Option::Some((val, 1 + e))
    }
}

} // verus!
