use vstd::prelude::*;

verus! {

/// Bit manipulation helper functions for integer types
pub trait BitManipulation: Sized {
    /// Number of bits in the implementing type
    spec fn bit_width() -> u8;

    /// The value of the bit at `index`, little-endian bit order
    spec fn spec_get_bit(self, index: u8) -> bool;

    /// gets the value of the bit at the specified index
    fn get_bit(&self, index: u8) -> (r: bool)
        requires
            index < Self::bit_width(),
        ensures
            r == self.spec_get_bit(index),
    ;

    /// sets the value of the bit at the specified index
    fn set_bit(&mut self, index: u8, value: bool)
        requires
            index < Self::bit_width(),
        ensures
            forall|i: u8|
                i < Self::bit_width() ==> final (self).spec_get_bit(i) == (if i == index {
                    value
                } else {
                    old(self).spec_get_bit(i)
                }),
    ;

    /// gets the value of the bit at the specified index, with the value being
    /// treated as a big endian integer
    fn get_bit_big_endian(&self, index: u8) -> (r: bool)
        requires
            index < Self::bit_width(),
        ensures
            r == self.spec_get_bit((Self::bit_width() - 1 - index) as u8),
    ;
}

pub trait IntAlign {
    /// The value with its low two bits cleared
    spec fn spec_align4(self) -> u32;

    fn align4(&self) -> (r: u32)
        ensures
            r == self.spec_align4(),
    ;
}

/// Clearing the low two bits of a word is the same as rounding it down to a
/// multiple of four.
pub proof fn lemma_align4_is_round_down(v: u32)
    by (bit_vector)
    ensures
        v & 0xFFFF_FFFCu32 == (v / 4) * 4,
        (v & 0xFFFF_FFFCu32) % 4 == 0,
        v & 0xFFFF_FFFCu32 <= v,
{
}

impl IntAlign for u32 {
    open spec fn spec_align4(self) -> u32 {
        self & 0xFFFF_FFFCu32
    }

    fn align4(&self) -> (r: u32) {
        (*self) & 0xFFFF_FFFCu32
    }
}

impl BitManipulation for u32 {
    open spec fn bit_width() -> u8 {
        32
    }

    open spec fn spec_get_bit(self, index: u8) -> bool {
        self & (1u32 << index) != 0
    }

    fn get_bit(&self, index: u8) -> (r: bool) {
        (*self) & (1u32 << index) > 0
    }

    fn get_bit_big_endian(&self, index: u8) -> (r: bool) {
        (*self) & (1u32 << (31 - index)) > 0
    }

    fn set_bit(&mut self, index: u8, value: bool) {
        proof {
            lemma_set_bit_u32(*self, index, value);
        }
        if value {
            *self = *self | (1u32 << index);
        } else {
            *self = *self & (0xFFFF_FFFFu32 ^ (1u32 << index));
        }
    }
}

proof fn lemma_set_bit_u32(x: u32, index: u8, value: bool)
    by (bit_vector)
    requires
        index < 32,
    ensures
        forall|i: u8|
            i < 32 ==> ((if value {
                x | (1u32 << index)
            } else {
                x & (0xFFFF_FFFFu32 ^ (1u32 << index))
            }) & (1u32 << i) != 0) == (if i == index {
                value
            } else {
                x & (1u32 << i) != 0
            }),
{
}

impl BitManipulation for u64 {
    open spec fn bit_width() -> u8 {
        64
    }

    open spec fn spec_get_bit(self, index: u8) -> bool {
        self & (1u64 << index) != 0
    }

    fn get_bit(&self, index: u8) -> (r: bool) {
        (*self) & (1u64 << index) > 0
    }

    fn get_bit_big_endian(&self, index: u8) -> (r: bool) {
        (*self) & (1u64 << (63 - index)) > 0
    }

    fn set_bit(&mut self, index: u8, value: bool) {
        proof {
            lemma_set_bit_u64(*self, index, value);
        }
        if value {
            *self = *self | (1u64 << index);
        } else {
            *self = *self & (0xFFFF_FFFF_FFFF_FFFFu64 ^ (1u64 << index));
        }
    }
}

proof fn lemma_set_bit_u64(x: u64, index: u8, value: bool)
    by (bit_vector)
    requires
        index < 64,
    ensures
        forall|i: u8|
            i < 64 ==> ((if value {
                x | (1u64 << index)
            } else {
                x & (0xFFFF_FFFF_FFFF_FFFFu64 ^ (1u64 << index))
            }) & (1u64 << i) != 0) == (if i == index {
                value
            } else {
                x & (1u64 << i) != 0
            }),
{
}

impl BitManipulation for u16 {
    open spec fn bit_width() -> u8 {
        16
    }

    open spec fn spec_get_bit(self, index: u8) -> bool {
        self & (1u16 << index) != 0
    }

    fn get_bit(&self, index: u8) -> (r: bool) {
        *self & (1u16 << index) > 0
    }

    fn get_bit_big_endian(&self, index: u8) -> (r: bool) {
        (*self) & (1u16 << (15 - index)) > 0
    }

    fn set_bit(&mut self, index: u8, value: bool) {
        proof {
            lemma_set_bit_u16(*self, index, value);
        }
        if value {
            *self = *self | (1u16 << index);
        } else {
            *self = *self & (0xFFFFu16 ^ (1u16 << index));
        }
    }
}

proof fn lemma_set_bit_u16(x: u16, index: u8, value: bool)
    by (bit_vector)
    requires
        index < 16,
    ensures
        forall|i: u8|
            i < 16 ==> ((if value {
                x | (1u16 << index)
            } else {
                x & (0xFFFFu16 ^ (1u16 << index))
            }) & (1u16 << i) != 0) == (if i == index {
                value
            } else {
                x & (1u16 << i) != 0
            }),
{
}

impl BitManipulation for u8 {
    open spec fn bit_width() -> u8 {
        8
    }

    open spec fn spec_get_bit(self, index: u8) -> bool {
        self & (1u8 << index) != 0
    }

    fn get_bit(&self, index: u8) -> (r: bool) {
        (*self) & (1u8 << index) > 0
    }

    fn get_bit_big_endian(&self, index: u8) -> (r: bool) {
        (*self) & (1u8 << (7 - index)) > 0
    }

    fn set_bit(&mut self, index: u8, value: bool) {
        proof {
            lemma_set_bit_u8(*self, index, value);
        }
        if value {
            *self = *self | (1u8 << index);
        } else {
            *self = *self & (0xFFu8 ^ (1u8 << index));
        }
    }
}

proof fn lemma_set_bit_u8(x: u8, index: u8, value: bool)
    by (bit_vector)
    requires
        index < 8,
    ensures
        forall|i: u8|
            i < 8 ==> ((if value {
                x | (1u8 << index)
            } else {
                x & (0xFFu8 ^ (1u8 << index))
            }) & (1u8 << i) != 0) == (if i == index {
                value
            } else {
                x & (1u8 << i) != 0
            }),
{
}

/// The two's-complement value of the low `size` bits of `data`.
pub open spec fn spec_sign_extend32(data: u32, size: u32) -> int
    recommends
        0 < size <= 32,
{
    let low = (data as int) % (vstd::arithmetic::power2::pow2(size as nat) as int);
    if low >= vstd::arithmetic::power2::pow2((size - 1) as nat) {
        low - vstd::arithmetic::power2::pow2(size as nat)
    } else {
        low
    }
}

/// Sign extend a `size`-bit number (stored in a u32) to an i32.
pub fn sign_extend32(data: u32, size: u32) -> (r: i32)
    requires
        0 < size <= 32,
    ensures
        r as int == spec_sign_extend32(data, size),
{
    proof {
        vstd::arithmetic::power2::lemma2_to64();
        vstd::bits::lemma_u64_shl_is_mul(1u64, size as u64);
        vstd::bits::lemma_u64_shl_is_mul(1u64, (size - 1) as u64);
        vstd::arithmetic::power2::lemma_pow2_strictly_increases((size - 1) as nat, size as nat);
        vstd::arithmetic::power2::lemma_pow2_pos(size as nat);
        vstd::arithmetic::power2::lemma_pow2_pos((size - 1) as nat);
    }
    let bound: u64 = 1u64 << size;
    let low: u64 = (data as u64) % bound;
    let half: u64 = 1u64 << (size - 1);
    if low >= half {
        ((low as i64) - (bound as i64)) as i32
    } else {
        low as i32
    }
}

} // verus!
