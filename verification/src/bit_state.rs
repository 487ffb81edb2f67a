//! The single-owner bit vector: full-value replacement with transition
//! reporting, plus plain single-bit accessors without any reporting.
//!
//! The trait is implemented by every supported unsigned word width; each
//! implementation is specified through its value zero-extended to `u128`.

use crate::bits::changed_indices;
use crate::bits::lowered_indices;
use crate::bits::nth_bit;
use crate::bits::raised_indices;
use vstd::prelude::*;

verus! {

pub trait BitState<T>: Sized + Copy {
    /// The value of this bit vector, zero-extended to 128 bits.
    spec fn word(&self) -> u128;

    /// The value of an argument vector, zero-extended to 128 bits.
    spec fn word_of(t: T) -> u128;

    /// The width of the vector, in bits.
    spec fn width() -> u8;

    /// No supported vector is wider than 128 bits.
    proof fn width_le_128()
        ensures
            0 < Self::width() <= 128,
    ;

    /// Replaces the whole vector, with no transition reporting.
    fn set(&mut self, new: T)
        ensures
            final(self).word() == Self::word_of(new),
    ;

    /// Replaces the whole vector and returns the ascending lists of raised
    /// and lowered bit indices, or `None` when the value did not change.
    fn set_with_changes(&mut self, new: T) -> (r: Option<(Vec<u8>, Vec<u8>)>)
        ensures
            final(self).word() == Self::word_of(new),
            old(self).word() == Self::word_of(new) ==> r is None && *final(self) == *old(self),
            old(self).word() != Self::word_of(new) ==> (r matches Some(lists)
                && lists.0@ == raised_indices(old(self).word(), Self::word_of(new), Self::width())
                && lists.1@ == lowered_indices(
                old(self).word(),
                Self::word_of(new),
                Self::width(),
            )),
    ;

    /// Sets bit `n`, with no transition reporting.
    fn set_bit(&mut self, n: u8)
        requires
            n < Self::width(),
        ensures
            final(self).word() == old(self).word() | (1u128 << (n as u128)),
    ;

    /// Clears bit `n`, with no transition reporting.
    fn clear_bit(&mut self, n: u8)
        requires
            n < Self::width(),
        ensures
            final(self).word() == old(self).word() & !(1u128 << (n as u128)),
    ;

    /// True when bit `n` is set.
    fn get_bit(&self, n: u8) -> (b: bool)
        requires
            n < Self::width(),
        ensures
            b == nth_bit(self.word(), n),
    ;

    /// Resets the whole vector to zero, with no transition reporting.
    fn reset(&mut self)
        ensures
            final(self).word() == 0,
    ;

    /// The all-zero vector.
    fn zeroed() -> (r: Self)
        ensures
            r.word() == 0,
    ;
}

impl BitState<u8> for u8 {
    open spec fn word(&self) -> u128 {
        *self as u128
    }

    open spec fn word_of(t: u8) -> u128 {
        t as u128
    }

    open spec fn width() -> u8 {
        8
    }

    proof fn width_le_128() {
    }

    fn set(&mut self, new: u8) {
        *self = new;
    }

    fn set_with_changes(&mut self, new: u8) -> (r: Option<(Vec<u8>, Vec<u8>)>) {
        if *self == new {
            return None;
        }
        let lists = changed_indices(*self as u128, new as u128, 8);
        *self = new;
        Some(lists)
    }

    fn set_bit(&mut self, n: u8) {
        proof {
            lemma_u8_casts();
        }
        *self = *self | (1u8 << n);
    }

    fn clear_bit(&mut self, n: u8) {
        proof {
            lemma_u8_casts();
        }
        *self = *self & !(1u8 << n);
    }

    fn get_bit(&self, n: u8) -> (b: bool) {
        proof {
            lemma_u8_casts();
        }
        (*self & (1u8 << n)) != 0
    }

    fn reset(&mut self) {
        *self = 0;
    }

    fn zeroed() -> (r: u8) {
        0
    }
}

impl BitState<u16> for u16 {
    open spec fn word(&self) -> u128 {
        *self as u128
    }

    open spec fn word_of(t: u16) -> u128 {
        t as u128
    }

    open spec fn width() -> u8 {
        16
    }

    proof fn width_le_128() {
    }

    fn set(&mut self, new: u16) {
        *self = new;
    }

    fn set_with_changes(&mut self, new: u16) -> (r: Option<(Vec<u8>, Vec<u8>)>) {
        if *self == new {
            return None;
        }
        let lists = changed_indices(*self as u128, new as u128, 16);
        *self = new;
        Some(lists)
    }

    fn set_bit(&mut self, n: u8) {
        proof {
            lemma_u16_casts();
        }
        *self = *self | (1u16 << n);
    }

    fn clear_bit(&mut self, n: u8) {
        proof {
            lemma_u16_casts();
        }
        *self = *self & !(1u16 << n);
    }

    fn get_bit(&self, n: u8) -> (b: bool) {
        proof {
            lemma_u16_casts();
        }
        (*self & (1u16 << n)) != 0
    }

    fn reset(&mut self) {
        *self = 0;
    }

    fn zeroed() -> (r: u16) {
        0
    }
}

impl BitState<u32> for u32 {
    open spec fn word(&self) -> u128 {
        *self as u128
    }

    open spec fn word_of(t: u32) -> u128 {
        t as u128
    }

    open spec fn width() -> u8 {
        32
    }

    proof fn width_le_128() {
    }

    fn set(&mut self, new: u32) {
        *self = new;
    }

    fn set_with_changes(&mut self, new: u32) -> (r: Option<(Vec<u8>, Vec<u8>)>) {
        if *self == new {
            return None;
        }
        let lists = changed_indices(*self as u128, new as u128, 32);
        *self = new;
        Some(lists)
    }

    fn set_bit(&mut self, n: u8) {
        proof {
            lemma_u32_casts();
        }
        *self = *self | (1u32 << n);
    }

    fn clear_bit(&mut self, n: u8) {
        proof {
            lemma_u32_casts();
        }
        *self = *self & !(1u32 << n);
    }

    fn get_bit(&self, n: u8) -> (b: bool) {
        proof {
            lemma_u32_casts();
        }
        (*self & (1u32 << n)) != 0
    }

    fn reset(&mut self) {
        *self = 0;
    }

    fn zeroed() -> (r: u32) {
        0
    }
}

impl BitState<u64> for u64 {
    open spec fn word(&self) -> u128 {
        *self as u128
    }

    open spec fn word_of(t: u64) -> u128 {
        t as u128
    }

    open spec fn width() -> u8 {
        64
    }

    proof fn width_le_128() {
    }

    fn set(&mut self, new: u64) {
        *self = new;
    }

    fn set_with_changes(&mut self, new: u64) -> (r: Option<(Vec<u8>, Vec<u8>)>) {
        if *self == new {
            return None;
        }
        let lists = changed_indices(*self as u128, new as u128, 64);
        *self = new;
        Some(lists)
    }

    fn set_bit(&mut self, n: u8) {
        proof {
            lemma_u64_casts();
        }
        *self = *self | (1u64 << n);
    }

    fn clear_bit(&mut self, n: u8) {
        proof {
            lemma_u64_casts();
        }
        *self = *self & !(1u64 << n);
    }

    fn get_bit(&self, n: u8) -> (b: bool) {
        proof {
            lemma_u64_casts();
        }
        (*self & (1u64 << n)) != 0
    }

    fn reset(&mut self) {
        *self = 0;
    }

    fn zeroed() -> (r: u64) {
        0
    }
}

impl BitState<u128> for u128 {
    open spec fn word(&self) -> u128 {
        *self
    }

    open spec fn word_of(t: u128) -> u128 {
        t
    }

    open spec fn width() -> u8 {
        128
    }

    proof fn width_le_128() {
    }

    fn set(&mut self, new: u128) {
        *self = new;
    }

    fn set_with_changes(&mut self, new: u128) -> (r: Option<(Vec<u8>, Vec<u8>)>) {
        if *self == new {
            return None;
        }
        let lists = changed_indices(*self, new, 128);
        *self = new;
        Some(lists)
    }

    fn set_bit(&mut self, n: u8) {
        proof {
            lemma_u128_casts();
        }
        *self = *self | (1u128 << n);
    }

    fn clear_bit(&mut self, n: u8) {
        proof {
            lemma_u128_casts();
        }
        *self = *self & !(1u128 << n);
    }

    fn get_bit(&self, n: u8) -> (b: bool) {
        proof {
            lemma_u128_casts();
        }
        (*self & (1u128 << n)) != 0
    }

    fn reset(&mut self) {
        *self = 0;
    }

    fn zeroed() -> (r: u128) {
        0
    }
}

/// How `u8` single-bit operations look after zero-extension to `u128`.
proof fn lemma_u8_casts()
    by (bit_vector)
    ensures
        forall|o: u8, n: u8|
            n < 8 ==> #[trigger] ((o | (1u8 << n)) as u128) == (o as u128) | (1u128 << (
            n as u128)),
        forall|o: u8, n: u8|
            n < 8 ==> #[trigger] ((o & !(1u8 << n)) as u128) == (o as u128) & !(1u128 << (
            n as u128)),
        forall|o: u8, n: u8|
            n < 8 ==> (#[trigger] (o & (1u8 << n)) != 0 <==> ((o as u128) >> (n as u128)) & 1
                == 1),
{
}

/// How `u16` single-bit operations look after zero-extension to `u128`.
proof fn lemma_u16_casts()
    by (bit_vector)
    ensures
        forall|o: u16, n: u8|
            n < 16 ==> #[trigger] ((o | (1u16 << n)) as u128) == (o as u128) | (1u128 << (
            n as u128)),
        forall|o: u16, n: u8|
            n < 16 ==> #[trigger] ((o & !(1u16 << n)) as u128) == (o as u128) & !(1u128 << (
            n as u128)),
        forall|o: u16, n: u8|
            n < 16 ==> (#[trigger] (o & (1u16 << n)) != 0 <==> ((o as u128) >> (n as u128)) & 1
                == 1),
{
}

/// How `u32` single-bit operations look after zero-extension to `u128`.
proof fn lemma_u32_casts()
    by (bit_vector)
    ensures
        forall|o: u32, n: u8|
            n < 32 ==> #[trigger] ((o | (1u32 << n)) as u128) == (o as u128) | (1u128 << (
            n as u128)),
        forall|o: u32, n: u8|
            n < 32 ==> #[trigger] ((o & !(1u32 << n)) as u128) == (o as u128) & !(1u128 << (
            n as u128)),
        forall|o: u32, n: u8|
            n < 32 ==> (#[trigger] (o & (1u32 << n)) != 0 <==> ((o as u128) >> (n as u128)) & 1
                == 1),
{
}

/// How `u64` single-bit operations look after zero-extension to `u128`.
proof fn lemma_u64_casts()
    by (bit_vector)
    ensures
        forall|o: u64, n: u8|
            n < 64 ==> #[trigger] ((o | (1u64 << n)) as u128) == (o as u128) | (1u128 << (
            n as u128)),
        forall|o: u64, n: u8|
            n < 64 ==> #[trigger] ((o & !(1u64 << n)) as u128) == (o as u128) & !(1u128 << (
            n as u128)),
        forall|o: u64, n: u8|
            n < 64 ==> (#[trigger] (o & (1u64 << n)) != 0 <==> ((o as u128) >> (n as u128)) & 1
                == 1),
{
}

/// How `u128` single-bit operations relate to shifts by a widened index.
proof fn lemma_u128_casts()
    by (bit_vector)
    ensures
        forall|o: u128, n: u8|
            n < 128 ==> #[trigger] (o | (1u128 << n)) == o | (1u128 << (n as u128)),
        forall|o: u128, n: u8|
            n < 128 ==> #[trigger] (o & !(1u128 << n)) == o & !(1u128 << (n as u128)),
        forall|o: u128, n: u8|
            n < 128 ==> (#[trigger] (o & (1u128 << n)) != 0 <==> (o >> (n as u128)) & 1 == 1),
{
}

} // verus!
