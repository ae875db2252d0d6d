//! Single-bit reads and writes on a packed byte sequence.
//!
//! Bits are numbered from the least-significant bit of each byte upward,
//! byte 0 first: bit `i` lives in byte `i / 8` at position `i % 8`.

use vstd::prelude::*;

verus! {

/// True when bit `k` of byte `b` is 1, counting from the least-significant bit.
pub open spec fn byte_bit(b: u8, k: u8) -> bool
    recommends
        k < 8,
{
    (b >> k) & 1 == 1
}

/// Bit `i` of a packed byte sequence, LSB-first within each byte, byte 0 first.
pub open spec fn nth_bit(bytes: Seq<u8>, i: int) -> bool
    recommends
        0 <= i < bytes.len() * 8,
{
    byte_bit(bytes[i / 8], (i % 8) as u8)
}

/// Read bit `i` of `bytes`.
pub fn get_bit(bytes: &Vec<u8>, i: i64) -> (r: bool)
    requires
        0 <= i < bytes@.len() * 8,
    ensures
        r == nth_bit(bytes@, i as int),
{
    let n: usize = bytes.len();
    let iu: u64 = i as u64;
    let idx64: u64 = iu / 8;
    let k: u8 = (iu % 8) as u8;
    proof {
        assert(idx64 < n);
    }
    let idx: usize = idx64 as usize;
    proof {
        assert(idx == i as int / 8);
        assert(k == (i as int % 8) as u8);
    }
    (bytes[idx] >> k) & 1 == 1
}

/// Bit `i` of `pre` with byte `i / 8` replaced by `nb` reads as `value`, and
/// every other bit of `pre` keeps its value, provided `nb` agrees with the old
/// byte everywhere but at position `i % 8`, where it holds `value`.
proof fn lemma_bit_splice(pre: Seq<u8>, nb: u8, i: int, value: bool)
    requires
        0 <= i < pre.len() * 8,
        byte_bit(nb, (i % 8) as u8) == value,
        forall|m: u8| m < 8 && m != (i % 8) as u8 ==> byte_bit(nb, m) == byte_bit(
            pre[i / 8],
            m,
        ),
    ensures
        nth_bit(pre.update(i / 8, nb), i) == value,
        forall|j: int|
            0 <= j < pre.len() * 8 && j != i ==> nth_bit(pre.update(i / 8, nb), j) == nth_bit(
                pre,
                j,
            ),
{
    let post = pre.update(i / 8, nb);
    assert(0 <= i / 8 < pre.len() && 0 <= i % 8 < 8);
    assert(nth_bit(post, i) == value);
    assert forall|j: int| 0 <= j < pre.len() * 8 && j != i implies nth_bit(post, j) == nth_bit(
        pre,
        j,
    ) by {
        assert(0 <= j / 8 < pre.len() && 0 <= j % 8 < 8);
        if j / 8 == i / 8 {
            vstd::arithmetic::div_mod::lemma_fundamental_div_mod(j, 8);
            vstd::arithmetic::div_mod::lemma_fundamental_div_mod(i, 8);
            assert(j % 8 != i % 8);
            assert(byte_bit(nb, (j % 8) as u8) == byte_bit(pre[j / 8], (j % 8) as u8));
        } else {
            assert(post[j / 8] == pre[j / 8]);
        }
    }
}

/// Force bit `i` of `bytes` to 1, leaving every other bit unchanged.
pub fn set_bit(bytes: &mut Vec<u8>, i: i64)
    requires
        0 <= i < old(bytes)@.len() * 8,
    ensures
        final(bytes)@.len() == old(bytes)@.len(),
        nth_bit(final(bytes)@, i as int),
        forall|j: int|
            0 <= j < old(bytes)@.len() * 8 && j != i ==> nth_bit(final(bytes)@, j) == nth_bit(
                old(bytes)@,
                j,
            ),
{
    let ghost pre = bytes@;
    let n: usize = bytes.len();
    let iu: u64 = i as u64;
    let idx64: u64 = iu / 8;
    let k: u8 = (iu % 8) as u8;
    proof {
        assert(idx64 < n);
    }
    let idx: usize = idx64 as usize;
    let b: u8 = bytes[idx];
    let nb: u8 = b | (1u8 << k);
    bytes[idx] = nb;
    proof {
        assert(idx == i as int / 8 && k == (i as int % 8) as u8);
        assert(((b | (1u8 << k)) >> k) & 1 == 1) by (bit_vector)
            requires
                k < 8,
        ;
        assert(forall|m: u8|
            m < 8 && m != k ==> (((b | (1u8 << k)) >> m) & 1 == (b >> m) & 1)) by (bit_vector)
            requires
                k < 8,
        ;
        lemma_bit_splice(pre, nb, i as int, true);
    }
}

/// Force bit `i` of `bytes` to 0, leaving every other bit unchanged.
pub fn unset_bit(bytes: &mut Vec<u8>, i: i64)
    requires
        0 <= i < old(bytes)@.len() * 8,
    ensures
        final(bytes)@.len() == old(bytes)@.len(),
        !nth_bit(final(bytes)@, i as int),
        forall|j: int|
            0 <= j < old(bytes)@.len() * 8 && j != i ==> nth_bit(final(bytes)@, j) == nth_bit(
                old(bytes)@,
                j,
            ),
{
    let ghost pre = bytes@;
    let n: usize = bytes.len();
    let iu: u64 = i as u64;
    let idx64: u64 = iu / 8;
    let k: u8 = (iu % 8) as u8;
    proof {
        assert(idx64 < n);
    }
    let idx: usize = idx64 as usize;
    let b: u8 = bytes[idx];
    let nb: u8 = b & !(1u8 << k);
    bytes[idx] = nb;
    proof {
        assert(idx == i as int / 8 && k == (i as int % 8) as u8);
        assert(((b & !(1u8 << k)) >> k) & 1 == 0) by (bit_vector)
            requires
                k < 8,
        ;
        assert(forall|m: u8|
            m < 8 && m != k ==> (((b & !(1u8 << k)) >> m) & 1 == (b >> m) & 1)) by (bit_vector)
            requires
                k < 8,
        ;
        lemma_bit_splice(pre, nb, i as int, false);
    }
}

/// In a sequence of all-ones bytes, every addressable bit reads as set.
pub proof fn lemma_all_ones_bits(bytes: Seq<u8>)
    requires
        forall|j: int| 0 <= j < bytes.len() ==> bytes[j] == 255u8,
    ensures
        forall|i: int| 0 <= i < bytes.len() * 8 ==> nth_bit(bytes, i),
{
    assert forall|i: int| 0 <= i < bytes.len() * 8 implies nth_bit(bytes, i) by {
        assert(0 <= i / 8 < bytes.len() && 0 <= i % 8 < 8);
        let k = (i % 8) as u8;
        assert((255u8 >> k) & 1 == 1) by (bit_vector)
            requires
                k < 8,
        ;
    }
}

} // verus!
