//! A fixed-capacity, densely packed bit vector over a padded byte buffer.

use vstd::prelude::*;

use crate::bit_util;
use crate::buffer::Buffer;
use vstd::std_specs::convert::FromSpec;

verus! {

/// Index error returned by the range-checked bitmap operations.
#[derive(Clone, Copy, Debug, PartialEq, Eq, Structural)]
pub enum BitmapError {
    IndexOutOfRange,
}

/// A packed array of boolean flags, one bit per position, LSB-first within
/// each byte of the backing buffer.
///
/// Viewed as the sequence of backing bytes; bit `i` of the bitmap is
/// `bit_util::nth_bit(self@, i)`.
#[derive(Clone, Debug)]
pub struct Bitmap {
    pub bits: Buffer,
}

impl View for Bitmap {
    type V = Seq<u8>;

    open spec fn view(&self) -> Seq<u8> {
        self.bits@
    }
}

/// Fill a fresh vector with `len` bytes of all-ones.
fn ones(len: usize) -> (v: Vec<u8>)
    ensures
        v@.len() == len,
        forall|j: int| 0 <= j < len ==> v@[j] == 255u8,
{
    let mut v: Vec<u8> = Vec::new();
    let mut i: usize = 0;
    while i < len
        invariant
            i <= len,
            v@.len() == i,
            forall|j: int| 0 <= j < i ==> v@[j] == 255u8,
        decreases len - i,
    {
        v.push(255);
        i = i + 1;
    }
    v
}

/// Byte length of a bitmap allocated for `num_bits` bits: `ceil(num_bits / 8)`
/// rounded up to the next multiple of 64.
pub open spec fn padded_byte_len(num_bits: usize) -> int {
    ((num_bits + 7) / 8 + 63) / 64 * 64
}

impl Bitmap {
    /// Allocate a bitmap able to hold at least `num_bits` bits: the byte
    /// length is `ceil(num_bits / 8)` padded up to the next multiple of 64,
    /// and every byte starts as all-ones, so every bit reads as set.
    pub fn new(num_bits: usize) -> (bitmap: Bitmap)
        ensures
            bitmap@.len() == padded_byte_len(num_bits),
            bitmap@.len() % 64 == 0,
            bitmap@.len() * 8 >= num_bits,
            forall|j: int| 0 <= j < bitmap@.len() ==> bitmap@[j] == 255u8,
            forall|i: int| 0 <= i < bitmap@.len() * 8 ==> bit_util::nth_bit(bitmap@, i),
    {
        let num_bytes: usize = num_bits / 8 + if num_bits % 8 > 0 {
            1usize
        } else {
            0usize
        };
        proof {
            vstd::arithmetic::div_mod::lemma_fundamental_div_mod(num_bits as int, 8);
            assert(num_bytes * 8 >= num_bits);
            let q = num_bits as int / 8;
            let rem = num_bits as int % 8;
            if rem == 0 {
                vstd::arithmetic::div_mod::lemma_fundamental_div_mod_converse(
                    num_bits + 7,
                    8,
                    q,
                    7,
                );
            } else {
                vstd::arithmetic::div_mod::lemma_fundamental_div_mod_converse(
                    num_bits + 7,
                    8,
                    q + 1,
                    rem - 1,
                );
            }
            assert(num_bytes == (num_bits + 7) / 8);
        }
        let r: usize = num_bytes % 64;
        let len: usize = if r == 0 {
            num_bytes
        } else {
            num_bytes + (64 - r)
        };
        proof {
            vstd::arithmetic::div_mod::lemma_fundamental_div_mod(num_bytes as int, 64);
            let q = num_bytes as int / 64;
            if r == 0 {
                vstd::arithmetic::div_mod::lemma_mod_multiples_basic(q, 64);
                vstd::arithmetic::div_mod::lemma_fundamental_div_mod_converse(
                    num_bytes + 63,
                    64,
                    q,
                    63,
                );
            } else {
                assert(len == 64 * (q + 1));
                vstd::arithmetic::div_mod::lemma_mod_multiples_basic(q + 1, 64);
                vstd::arithmetic::div_mod::lemma_fundamental_div_mod_converse(
                    num_bytes + 63,
                    64,
                    q + 1,
                    r - 1,
                );
            }
            assert(len == padded_byte_len(num_bits));
        }
        let v: Vec<u8> = ones(len);
        let bitmap = Bitmap { bits: Buffer::from(v) };
        proof {
            bit_util::lemma_all_ones_bits(bitmap@);
        }
        bitmap
    }

    /// Byte length of the backing buffer (the padded capacity, not the bit
    /// count requested at construction, which is not retained).
    pub fn len(&self) -> (n: usize)
        ensures
            n == self@.len(),
    {
        self.bits.len()
    }

    /// Read bit `i`. The index must be within the buffer's bit capacity.
    pub fn is_set(&self, i: i64) -> (r: bool)
        requires
            0 <= i < self@.len() * 8,
        ensures
            r == bit_util::nth_bit(self@, i as int),
    {
        bit_util::get_bit(self.bits.data(), i)
    }

    /// Force bit `i` to 1, leaving every other bit unchanged. The exclusive
    /// borrow of the bitmap gives the single-writer access this needs.
    pub fn set(&mut self, i: i64)
        requires
            0 <= i < old(self)@.len() * 8,
        ensures
            final(self)@.len() == old(self)@.len(),
            bit_util::nth_bit(final(self)@, i as int),
            forall|j: int|
                0 <= j < old(self)@.len() * 8 && j != i ==> bit_util::nth_bit(final(self)@, j)
                    == bit_util::nth_bit(old(self)@, j),
    {
        bit_util::set_bit(&mut self.bits.data, i)
    }

    /// Force bit `i` to 0, leaving every other bit unchanged. The exclusive
    /// borrow of the bitmap gives the single-writer access this needs.
    pub fn unset(&mut self, i: i64)
        requires
            0 <= i < old(self)@.len() * 8,
        ensures
            final(self)@.len() == old(self)@.len(),
            !bit_util::nth_bit(final(self)@, i as int),
            forall|j: int|
                0 <= j < old(self)@.len() * 8 && j != i ==> bit_util::nth_bit(final(self)@, j)
                    == bit_util::nth_bit(old(self)@, j),
    {
        bit_util::unset_bit(&mut self.bits.data, i)
    }

    /// Reinitialize every byte of the buffer to all-ones, discarding all prior
    /// mutations while preserving the byte length: afterwards every
    /// addressable bit reads as set.
    pub fn reset(&mut self)
        ensures
            final(self)@.len() == old(self)@.len(),
            forall|j: int| 0 <= j < final(self)@.len() ==> final(self)@[j] == 255u8,
            forall|i: int|
                0 <= i < final(self)@.len() * 8 ==> bit_util::nth_bit(final(self)@, i),
    {
        let len: usize = self.bits.len();
        let v: Vec<u8> = ones(len);
        self.bits = Buffer::from(v);
        proof {
            bit_util::lemma_all_ones_bits(self@);
        }
    }

    /// Range-checked read of bit `i`: its value for an index within the bit
    /// capacity, and `IndexOutOfRange` for any other index.
    pub fn try_is_set(&self, i: i64) -> (r: Result<bool, BitmapError>)
        ensures
            0 <= i < self@.len() * 8 ==> r == Ok::<bool, BitmapError>(
                bit_util::nth_bit(self@, i as int),
            ),
            !(0 <= i < self@.len() * 8) ==> r == Err::<bool, BitmapError>(
                BitmapError::IndexOutOfRange,
            ),
    {
        if i >= 0 && self.in_capacity(i) {
            Ok(self.is_set(i))
        } else {
            Err(BitmapError::IndexOutOfRange)
        }
    }

    /// Range-checked variant of `set`: forces bit `i` to 1 and reports
    /// `IndexOutOfRange`, changing nothing, for an index out of capacity.
    pub fn try_set(&mut self, i: i64) -> (r: Result<(), BitmapError>)
        ensures
            final(self)@.len() == old(self)@.len(),
            0 <= i < old(self)@.len() * 8 ==> (r == Ok::<(), BitmapError>(())
                && bit_util::nth_bit(final(self)@, i as int) && (forall|j: int|
                0 <= j < old(self)@.len() * 8 && j != i ==> bit_util::nth_bit(final(self)@, j)
                    == bit_util::nth_bit(old(self)@, j))),
            !(0 <= i < old(self)@.len() * 8) ==> (r == Err::<(), BitmapError>(
                BitmapError::IndexOutOfRange,
            ) && final(self)@ == old(self)@),
    {
        if i >= 0 && self.in_capacity(i) {
            self.set(i);
            Ok(())
        } else {
            Err(BitmapError::IndexOutOfRange)
        }
    }

    /// Range-checked variant of `unset`: forces bit `i` to 0 and reports
    /// `IndexOutOfRange`, changing nothing, for an index out of capacity.
    pub fn try_unset(&mut self, i: i64) -> (r: Result<(), BitmapError>)
        ensures
            final(self)@.len() == old(self)@.len(),
            0 <= i < old(self)@.len() * 8 ==> (r == Ok::<(), BitmapError>(())
                && !bit_util::nth_bit(final(self)@, i as int) && (forall|j: int|
                0 <= j < old(self)@.len() * 8 && j != i ==> bit_util::nth_bit(final(self)@, j)
                    == bit_util::nth_bit(old(self)@, j))),
            !(0 <= i < old(self)@.len() * 8) ==> (r == Err::<(), BitmapError>(
                BitmapError::IndexOutOfRange,
            ) && final(self)@ == old(self)@),
    {
        if i >= 0 && self.in_capacity(i) {
            self.unset(i);
            Ok(())
        } else {
            Err(BitmapError::IndexOutOfRange)
        }
    }

    /// True when the nonnegative index `i` addresses a bit of the buffer.
    fn in_capacity(&self, i: i64) -> (r: bool)
        requires
            i >= 0,
        ensures
            r == (i < self@.len() * 8),
    {
        let iu: u64 = i as u64;
        let len: usize = self.bits.len();
        proof {
            vstd::arithmetic::div_mod::lemma_fundamental_div_mod(iu as int, 8);
        }
        iu / 8 < len as u64
    }
}

impl From<Buffer> for Bitmap {
    /// Wrap an already-materialized buffer verbatim: no padding, no rewrite,
    /// no copy — the wrapped content is trusted as-is.
    fn from(buf: Buffer) -> (bitmap: Bitmap) {
        Bitmap { bits: buf }
    }
}

impl vstd::std_specs::convert::FromSpecImpl<Buffer> for Bitmap {
    open spec fn obeys_from_spec() -> bool {
        true
    }

    open spec fn from_spec(buf: Buffer) -> Bitmap {
        Bitmap { bits: buf }
    }
}

/// Law: wrapping a buffer copies nothing. The bitmap built from `buf` views
/// exactly `buf`'s bytes, so every bit `i` reads back the source buffer's bit
/// pattern under the LSB-first convention.
pub proof fn lemma_wrap_round_trip(buf: Buffer, i: int)
    requires
        0 <= i < buf@.len() * 8,
    ensures
        Bitmap::from_spec(buf)@ == buf@,
        bit_util::nth_bit(Bitmap::from_spec(buf)@, i) == bit_util::nth_bit(buf@, i),
        <Bitmap as FromSpec<Buffer>>::obeys_from_spec(),
{
}

impl PartialEq for Bitmap {
    /// Two bitmaps are equal when their buffers hold the same bytes.
    fn eq(&self, other: &Bitmap) -> (r: bool) {
        self.bits == other.bits
    }
}

impl vstd::std_specs::cmp::PartialEqSpecImpl for Bitmap {
    open spec fn obeys_eq_spec() -> bool {
        true
    }

    open spec fn eq_spec(&self, other: &Bitmap) -> bool {
        self@ == other@
    }
}

} // verus!
