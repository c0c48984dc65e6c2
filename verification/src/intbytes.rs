//! Minimal-width signed big-endian integer encoding.
//!
//! The ledger's value language encodes integers as big-endian two's
//! complement byte strings with all redundant leading bytes stripped:
//! zero is the empty string, and a leading zero byte is kept only when
//! the next byte's high bit is set (dropping it would flip the sign).
//! Coin amounts and oracle fees travel in this encoding.

use vstd::prelude::*;

verus! {

/// 256 raised to a small power.
pub open spec fn pow256(k: nat) -> nat
    decreases k,
{
    if k == 0 {
        1
    } else {
        256 * pow256((k - 1) as nat)
    }
}

/// The unsigned value of a big-endian byte string.
pub open spec fn be_value(b: Seq<u8>) -> nat
    decreases b.len(),
{
    if b.len() == 0 {
        0
    } else {
        be_value(b.drop_last()) * 256 + b.last() as nat
    }
}

/// The shortest big-endian byte string for an unsigned value; empty for zero.
pub open spec fn be_digits(v: nat) -> Seq<u8>
    decreases v,
{
    if v == 0 {
        seq![]
    } else {
        be_digits(v / 256).push((v % 256) as u8)
    }
}

/// The minimal signed big-endian encoding of an unsigned 64-bit value:
/// the shortest unsigned form, with one zero byte prepended when the
/// leading digit would read as a sign bit.
pub open spec fn int_bytes(v: u64) -> Seq<u8> {
    let d = be_digits(v as nat);
    if d.len() > 0 && d[0] >= 0x80 {
        seq![0u8] + d
    } else {
        d
    }
}

/// The unsigned 64-bit value a byte string denotes, if it denotes one:
/// `None` when the string is negative (high bit of the first byte set)
/// or exceeds `u64::MAX`.  Redundant leading zero bytes are accepted.
pub open spec fn atom_u64(b: Seq<u8>) -> Option<u64> {
    if b.len() > 0 && b[0] >= 0x80 {
        None
    } else if be_value(b) > u64::MAX {
        None
    } else {
        Some(be_value(b) as u64)
    }
}

fn be_digits_exec(v: u64) -> (r: Vec<u8>)
    ensures
        r@ == be_digits(v as nat),
    decreases v,
{
    if v == 0 {
        Vec::new()
    } else {
        let mut r = be_digits_exec(v / 256);
        r.push((v % 256) as u8);
        r
    }
}

/// Encodes a value in minimal signed big-endian form.
pub fn int_to_bytes(v: u64) -> (r: Vec<u8>)
    ensures
        r@ == int_bytes(v),
{
    let mut d = be_digits_exec(v);
    if d.len() > 0 && d[0] >= 0x80 {
        d.insert(0, 0u8);
        assert(d@ =~= seq![0u8] + be_digits(v as nat));
    }
    d
}

/// Decodes a byte string as an unsigned 64-bit value.
pub fn bytes_to_u64(b: &Vec<u8>) -> (r: Option<u64>)
    ensures
        r == atom_u64(b@),
{
    if b.len() > 0 && b[0] >= 0x80 {
        return None;
    }
    let mut i: usize = 0;
    while i < b.len() && b[i] == 0
        invariant
            i <= b.len(),
            forall|j: int| 0 <= j < i ==> b@[j] == 0,
        decreases b.len() - i,
    {
        i += 1;
    }
    proof {
        lemma_be_value_skip_zeros(b@, i as int);
    }
    if b.len() - i > 8 {
        proof {
            lemma_be_value_lower(b@.skip(i as int));
            lemma_pow256_mono(8, (b@.len() - i - 1) as nat);
            assert(pow256(8) == 0x1_0000_0000_0000_0000) by {
                reveal_with_fuel(pow256, 9);
            }
        }
        return None;
    }
    let start: usize = i;
    let mut acc: u64 = 0;
    while i < b.len()
        invariant
            start <= i <= b.len(),
            b.len() - start <= 8,
            acc == be_value(b@.subrange(start as int, i as int)),
            acc < pow256((i - start) as nat),
        decreases b.len() - i,
    {
        proof {
            lemma_pow256_mono((i - start) as nat, 7);
            assert(pow256(8) == 0x1_0000_0000_0000_0000) by {
                reveal_with_fuel(pow256, 9);
            }
            assert(pow256(7) == 0x100_0000_0000_0000) by {
                reveal_with_fuel(pow256, 8);
            }
            assert(b@.subrange(start as int, i as int + 1).drop_last() =~= b@.subrange(
                start as int,
                i as int,
            ));
        }
        acc = acc * 256 + (b[i] as u64);
        i += 1;
    }
    proof {
        assert(b@.subrange(start as int, b@.len() as int) =~= b@.skip(start as int));
    }
    Some(acc)
}

/// Leading zero bytes do not change the value.
proof fn lemma_be_value_skip_zeros(b: Seq<u8>, k: int)
    requires
        0 <= k <= b.len(),
        forall|j: int| 0 <= j < k ==> b[j] == 0,
    ensures
        be_value(b) == be_value(b.skip(k)),
    decreases b.len(),
{
    if k < b.len() {
        if b.len() > 0 {
            assert(b.drop_last().skip(k) =~= b.skip(k).drop_last());
            lemma_be_value_skip_zeros(b.drop_last(), k);
        }
    } else {
        lemma_be_value_all_zero(b);
        assert(b.skip(k) =~= Seq::<u8>::empty());
    }
}

proof fn lemma_be_value_all_zero(b: Seq<u8>)
    requires
        forall|j: int| 0 <= j < b.len() ==> b[j] == 0,
    ensures
        be_value(b) == 0,
    decreases b.len(),
{
    if b.len() > 0 {
        lemma_be_value_all_zero(b.drop_last());
    }
}

/// A string whose first byte is nonzero is at least 256^(len-1).
proof fn lemma_be_value_lower(b: Seq<u8>)
    requires
        b.len() > 0,
        b[0] != 0,
    ensures
        be_value(b) >= pow256((b.len() - 1) as nat),
    decreases b.len(),
{
    if b.len() > 1 {
        lemma_be_value_lower(b.drop_last());
    }
}

proof fn lemma_pow256_mono(a: nat, b: nat)
    requires
        a <= b,
    ensures
        pow256(a) <= pow256(b),
    decreases b,
{
    if a < b {
        lemma_pow256_mono(a, (b - 1) as nat);
    }
}

/// The shortest big-endian form reads back as the value it encodes.
pub proof fn lemma_be_digits_value(v: nat)
    ensures
        be_value(be_digits(v)) == v,
    decreases v,
{
    if v != 0 {
        lemma_be_digits_value(v / 256);
        assert(be_digits(v).drop_last() =~= be_digits(v / 256));
    }
}

/// The minimal signed big-endian encoding of a signed 64-bit value: a
/// non-negative value encodes as its unsigned form; a negative one as
/// the shortest big-endian two's complement suffix whose first byte
/// keeps the sign bit set.
pub open spec fn int_bytes_i64(v: i64) -> Seq<u8> {
    if v >= 0 {
        int_bytes(v as u64)
    } else {
        let u = v as u64;
        let b0: u8 = (u >> 56) as u8;
        let b1: u8 = (u >> 48) as u8;
        let b2: u8 = (u >> 40) as u8;
        let b3: u8 = (u >> 32) as u8;
        let b4: u8 = (u >> 24) as u8;
        let b5: u8 = (u >> 16) as u8;
        let b6: u8 = (u >> 8) as u8;
        let b7: u8 = u as u8;
        if v >= -0x80 {
            seq![b7]
        } else if v >= -0x8000 {
            seq![b6, b7]
        } else if v >= -0x80_0000 {
            seq![b5, b6, b7]
        } else if v >= -0x8000_0000 {
            seq![b4, b5, b6, b7]
        } else if v >= -0x80_0000_0000 {
            seq![b3, b4, b5, b6, b7]
        } else if v >= -0x8000_0000_0000 {
            seq![b2, b3, b4, b5, b6, b7]
        } else if v >= -0x80_0000_0000_0000 {
            seq![b1, b2, b3, b4, b5, b6, b7]
        } else {
            seq![b0, b1, b2, b3, b4, b5, b6, b7]
        }
    }
}

/// Encodes a signed value in minimal signed big-endian form.
pub fn int_to_bytes_i64(v: i64) -> (r: Vec<u8>)
    ensures
        r@ == int_bytes_i64(v),
{
    if v >= 0 {
        int_to_bytes(v as u64)
    } else {
        let u = v as u64;
        let b0: u8 = (u >> 56) as u8;
        let b1: u8 = (u >> 48) as u8;
        let b2: u8 = (u >> 40) as u8;
        let b3: u8 = (u >> 32) as u8;
        let b4: u8 = (u >> 24) as u8;
        let b5: u8 = (u >> 16) as u8;
        let b6: u8 = (u >> 8) as u8;
        let b7: u8 = u as u8;
        let r: Vec<u8> = if v >= -0x80 {
            vec![b7]
        } else if v >= -0x8000 {
            vec![b6, b7]
        } else if v >= -0x80_0000 {
            vec![b5, b6, b7]
        } else if v >= -0x8000_0000 {
            vec![b4, b5, b6, b7]
        } else if v >= -0x80_0000_0000 {
            vec![b3, b4, b5, b6, b7]
        } else if v >= -0x8000_0000_0000 {
            vec![b2, b3, b4, b5, b6, b7]
        } else if v >= -0x80_0000_0000_0000 {
            vec![b1, b2, b3, b4, b5, b6, b7]
        } else {
            vec![b0, b1, b2, b3, b4, b5, b6, b7]
        };
        assert(r@ =~= int_bytes_i64(v));
        r
    }
}

/// Decoding inverts encoding: the minimal signed form of `v` reads back
/// as `v`.
pub proof fn lemma_int_bytes_roundtrip(v: u64)
    ensures
        atom_u64(int_bytes(v)) == Some(v),
{
    let d = be_digits(v as nat);
    lemma_be_digits_value(v as nat);
    if d.len() > 0 && d[0] >= 0x80 {
        let b = seq![0u8] + d;
        assert(b.skip(1) =~= d);
        lemma_be_value_skip_zeros(b, 1);
    }
}

} // verus!
