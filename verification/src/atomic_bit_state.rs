//! The atomic bit vector: the same operation surface as the plain one, but
//! the word lives in a `core::sync::atomic` integer and every mutation is a
//! single atomic instruction or a compare-and-swap.
//!
//! vstd declares the atomic types but gives their operations no value
//! semantics, so each operation this module needs is taken on trust, behind
//! one wrapper function per operation and width. The cells built on this
//! trait hold their atomic word exclusively: every mutating method takes
//! `&mut self`, so no other thread can touch the word between two of its
//! operations. Under that exclusive access each wrapper contract states
//! exactly what the standard library documents for the operation: what the
//! cell holds afterwards, and that the returned value is what the cell held
//! before. The contents of each atomic type are given a name by an
//! uninterpreted spec function, and every wrapper's contract speaks of it.

use core::sync::atomic::AtomicU16;
use core::sync::atomic::AtomicU32;
use core::sync::atomic::AtomicU64;
use core::sync::atomic::AtomicU8;
use core::sync::atomic::Ordering;
use vstd::prelude::*;

verus! {

/// The value held by an `AtomicU8`.
pub uninterp spec fn stored_u8(a: AtomicU8) -> u8;

/// Relies on `core::sync::atomic::AtomicU8::new`: the returned cell holds
/// the given value.
#[verifier::external_body]
fn atomic_u8_new(v: u8) -> (r: AtomicU8)
    ensures
        stored_u8(r) == v,
{
    AtomicU8::new(v)
}

/// Relies on `core::sync::atomic::AtomicU8::load`: returns the held value.
#[verifier::external_body]
fn atomic_u8_load(a: &AtomicU8) -> (r: u8)
    ensures
        r == stored_u8(*a),
{
    AtomicU8::load(a, Ordering::Acquire)
}

/// Relies on `core::sync::atomic::AtomicU8::store`: replaces the held value.
#[verifier::external_body]
fn atomic_u8_store(a: &mut AtomicU8, v: u8)
    ensures
        stored_u8(*final(a)) == v,
{
    AtomicU8::store(a, v, Ordering::Release);
}

/// Relies on `core::sync::atomic::AtomicU8::compare_exchange`: when the held
/// value equals `current` it is replaced by `new` and returned as `Ok`;
/// otherwise the cell is unchanged and the held value is returned as `Err`.
#[verifier::external_body]
fn atomic_u8_compare_exchange(a: &mut AtomicU8, current: u8, new: u8) -> (r: Result<u8, u8>)
    ensures
        stored_u8(*old(a)) == current ==> r is Ok,
        r matches Ok(prev) ==> prev == current && stored_u8(*old(a)) == current
            && stored_u8(*final(a)) == new,
        r matches Err(seen) ==> stored_u8(*old(a)) != current && seen == stored_u8(*old(a))
            && stored_u8(*final(a)) == stored_u8(*old(a)),
{
    AtomicU8::compare_exchange(a, current, new, Ordering::AcqRel, Ordering::Acquire)
}

/// Relies on `core::sync::atomic::AtomicU8::fetch_or`: ors the mask into the
/// held value and returns the previously held value.
#[verifier::external_body]
fn atomic_u8_fetch_or(a: &mut AtomicU8, mask: u8) -> (r: u8)
    ensures
        r == stored_u8(*old(a)),
        stored_u8(*final(a)) == stored_u8(*old(a)) | mask,
{
    AtomicU8::fetch_or(a, mask, Ordering::AcqRel)
}

/// Relies on `core::sync::atomic::AtomicU8::fetch_and`: ands the mask into
/// the held value and returns the previously held value.
#[verifier::external_body]
fn atomic_u8_fetch_and(a: &mut AtomicU8, mask: u8) -> (r: u8)
    ensures
        r == stored_u8(*old(a)),
        stored_u8(*final(a)) == stored_u8(*old(a)) & mask,
{
    AtomicU8::fetch_and(a, mask, Ordering::AcqRel)
}

/// An atomic cell of type `T` holding a word of unsigned type `U`, modelled
/// by its value zero-extended to 128 bits.
pub trait AtomicBitState<T, U: Copy>: Sized {
    /// The value currently held by the cell, zero-extended to 128 bits.
    spec fn model(&self) -> u128;

    /// The value of a plain word of type `U`, zero-extended to 128 bits.
    spec fn word_of(u: U) -> u128;

    /// The width of the word, in bits.
    spec fn width() -> u8;

    /// The mask with every bit of the word's width set.
    spec fn full_mask() -> u128;

    /// No supported atomic word is wider than 64 bits.
    proof fn width_le_64()
        ensures
            0 < Self::width() <= 64,
            Self::full_mask() == (1u128 << (Self::width() as u128)) - 1,
    ;

    /// The cell's value never exceeds the word's width.
    proof fn model_bounded(&self)
        ensures
            self.model() == self.model() & Self::full_mask(),
    ;

    /// A cell holding zero.
    fn new_cell() -> (r: Self)
        ensures
            r.model() == 0,
    ;

    /// Atomically reads the word.
    fn load(&self) -> (r: U)
        ensures
            Self::word_of(r) == self.model(),
    ;

    /// Atomically replaces the word.
    fn store(&mut self, v: U)
        ensures
            final(self).model() == Self::word_of(v),
    ;

    /// Atomically replaces the word with `new` when it still equals
    /// `current`, returning the previously held word on success and the
    /// conflicting held word on failure.
    fn compare_exchange(&mut self, current: U, new: U) -> (r: Result<U, U>)
        ensures
            old(self).model() == Self::word_of(current) ==> r is Ok,
            r matches Ok(prev) ==> old(self).model() == Self::word_of(current)
                && final(self).model() == Self::word_of(new)
                && Self::word_of(prev) == Self::word_of(current),
            r matches Err(seen) ==> old(self).model() != Self::word_of(current)
                && final(self).model() == old(self).model()
                && Self::word_of(seen) == old(self).model(),
    ;

    /// Atomically ors `mask` into the word, returning the previously held
    /// word.
    fn fetch_or(&mut self, mask: U) -> (r: U)
        ensures
            Self::word_of(r) == old(self).model(),
            final(self).model() == old(self).model() | Self::word_of(mask),
    ;

    /// Atomically ands `mask` into the word, returning the previously held
    /// word.
    fn fetch_and(&mut self, mask: U) -> (r: U)
        ensures
            Self::word_of(r) == old(self).model(),
            final(self).model() == old(self).model() & Self::word_of(mask),
    ;

    /// The word zero-extended to 128 bits.
    fn widen(u: U) -> (r: u128)
        ensures
            r == Self::word_of(u),
    ;

    /// The word with exactly bit `bit` set.
    fn mask_of(bit: u8) -> (r: U)
        requires
            bit < Self::width(),
        ensures
            Self::word_of(r) == 1u128 << (bit as u128),
    ;

    /// The word with every bit but `bit` set.
    fn inv_mask_of(bit: u8) -> (r: U)
        requires
            bit < Self::width(),
        ensures
            Self::word_of(r) == !(1u128 << (bit as u128)) & Self::full_mask(),
    ;

    /// The all-zero word.
    fn zero_of() -> (r: U)
        ensures
            Self::word_of(r) == 0,
    ;

    /// The width of the word, as a run-time value.
    fn width_value() -> (r: u8)
        ensures
            r == Self::width(),
    ;
}

/// Facts about `u8` words seen as 128-bit values.
proof fn lemma_atomic_u8_casts()
    by (bit_vector)
    ensures
        (1u128 << 8) - 1 == 0xff,
        forall|v: u8| #[trigger] (v as u128) == (v as u128) & 0xff,
        forall|b: u8| b < 8 ==> #[trigger] ((1u8 << b) as u128) == 1u128 << (b as u128),
        forall|b: u8|
            b < 8 ==> #[trigger] ((!(1u8 << b)) as u128) == !(1u128 << (b as u128)) & 0xff,
        forall|a: u8, m: u8| #[trigger] ((a | m) as u128) == (a as u128) | (m as u128),
        forall|a: u8, m: u8| #[trigger] ((a & m) as u128) == (a as u128) & (m as u128),
{
}

impl AtomicBitState<AtomicU8, u8> for AtomicU8 {
    open spec fn model(&self) -> u128 {
        stored_u8(*self) as u128
    }

    open spec fn word_of(u: u8) -> u128 {
        u as u128
    }

    open spec fn width() -> u8 {
        8
    }

    open spec fn full_mask() -> u128 {
        0xff
    }

    proof fn width_le_64() {
        lemma_atomic_u8_casts();
    }

    proof fn model_bounded(&self) {
        lemma_atomic_u8_casts();
    }

    fn new_cell() -> (r: AtomicU8) {
        atomic_u8_new(0)
    }

    fn load(&self) -> (r: u8) {
        atomic_u8_load(self)
    }

    fn store(&mut self, v: u8) {
        atomic_u8_store(self, v);
    }

    fn compare_exchange(&mut self, current: u8, new: u8) -> (r: Result<u8, u8>) {
        atomic_u8_compare_exchange(self, current, new)
    }

    fn fetch_or(&mut self, mask: u8) -> (r: u8) {
        proof {
            lemma_atomic_u8_casts();
        }
        atomic_u8_fetch_or(self, mask)
    }

    fn fetch_and(&mut self, mask: u8) -> (r: u8) {
        proof {
            lemma_atomic_u8_casts();
        }
        atomic_u8_fetch_and(self, mask)
    }

    fn widen(u: u8) -> (r: u128) {
        u as u128
    }

    fn mask_of(bit: u8) -> (r: u8) {
        proof {
            lemma_atomic_u8_casts();
        }
        1u8 << bit
    }

    fn inv_mask_of(bit: u8) -> (r: u8) {
        proof {
            lemma_atomic_u8_casts();
        }
        !(1u8 << bit)
    }

    fn zero_of() -> (r: u8) {
        0
    }

    fn width_value() -> (r: u8) {
        8
    }
}

/// The value held by an `AtomicU16`.
pub uninterp spec fn stored_u16(a: AtomicU16) -> u16;

/// Relies on `core::sync::atomic::AtomicU16::new`: the returned cell holds
/// the given value.
#[verifier::external_body]
fn atomic_u16_new(v: u16) -> (r: AtomicU16)
    ensures
        stored_u16(r) == v,
{
    AtomicU16::new(v)
}

/// Relies on `core::sync::atomic::AtomicU16::load`: returns the held value.
#[verifier::external_body]
fn atomic_u16_load(a: &AtomicU16) -> (r: u16)
    ensures
        r == stored_u16(*a),
{
    AtomicU16::load(a, Ordering::Acquire)
}

/// Relies on `core::sync::atomic::AtomicU16::store`: replaces the held value.
#[verifier::external_body]
fn atomic_u16_store(a: &mut AtomicU16, v: u16)
    ensures
        stored_u16(*final(a)) == v,
{
    AtomicU16::store(a, v, Ordering::Release);
}

/// Relies on `core::sync::atomic::AtomicU16::compare_exchange`: when the held
/// value equals `current` it is replaced by `new` and returned as `Ok`;
/// otherwise the cell is unchanged and the held value is returned as `Err`.
#[verifier::external_body]
fn atomic_u16_compare_exchange(a: &mut AtomicU16, current: u16, new: u16) -> (r: Result<u16, u16>)
    ensures
        stored_u16(*old(a)) == current ==> r is Ok,
        r matches Ok(prev) ==> prev == current && stored_u16(*old(a)) == current
            && stored_u16(*final(a)) == new,
        r matches Err(seen) ==> stored_u16(*old(a)) != current && seen == stored_u16(*old(a))
            && stored_u16(*final(a)) == stored_u16(*old(a)),
{
    AtomicU16::compare_exchange(a, current, new, Ordering::AcqRel, Ordering::Acquire)
}

/// Relies on `core::sync::atomic::AtomicU16::fetch_or`: ors the mask into the
/// held value and returns the previously held value.
#[verifier::external_body]
fn atomic_u16_fetch_or(a: &mut AtomicU16, mask: u16) -> (r: u16)
    ensures
        r == stored_u16(*old(a)),
        stored_u16(*final(a)) == stored_u16(*old(a)) | mask,
{
    AtomicU16::fetch_or(a, mask, Ordering::AcqRel)
}

/// Relies on `core::sync::atomic::AtomicU16::fetch_and`: ands the mask into
/// the held value and returns the previously held value.
#[verifier::external_body]
fn atomic_u16_fetch_and(a: &mut AtomicU16, mask: u16) -> (r: u16)
    ensures
        r == stored_u16(*old(a)),
        stored_u16(*final(a)) == stored_u16(*old(a)) & mask,
{
    AtomicU16::fetch_and(a, mask, Ordering::AcqRel)
}

/// Facts about `u16` words seen as 128-bit values.
proof fn lemma_atomic_u16_casts()
    by (bit_vector)
    ensures
        (1u128 << 16) - 1 == 0xffff,
        forall|v: u16| #[trigger] (v as u128) == (v as u128) & 0xffff,
        forall|b: u8| b < 16 ==> #[trigger] ((1u16 << b) as u128) == 1u128 << (b as u128),
        forall|b: u8|
            b < 16 ==> #[trigger] ((!(1u16 << b)) as u128) == !(1u128 << (b as u128)) & 0xffff,
        forall|a: u16, m: u16| #[trigger] ((a | m) as u128) == (a as u128) | (m as u128),
        forall|a: u16, m: u16| #[trigger] ((a & m) as u128) == (a as u128) & (m as u128),
{
}

impl AtomicBitState<AtomicU16, u16> for AtomicU16 {
    open spec fn model(&self) -> u128 {
        stored_u16(*self) as u128
    }

    open spec fn word_of(u: u16) -> u128 {
        u as u128
    }

    open spec fn width() -> u8 {
        16
    }

    open spec fn full_mask() -> u128 {
        0xffff
    }

    proof fn width_le_64() {
        lemma_atomic_u16_casts();
    }

    proof fn model_bounded(&self) {
        lemma_atomic_u16_casts();
    }

    fn new_cell() -> (r: AtomicU16) {
        atomic_u16_new(0)
    }

    fn load(&self) -> (r: u16) {
        atomic_u16_load(self)
    }

    fn store(&mut self, v: u16) {
        atomic_u16_store(self, v);
    }

    fn compare_exchange(&mut self, current: u16, new: u16) -> (r: Result<u16, u16>) {
        atomic_u16_compare_exchange(self, current, new)
    }

    fn fetch_or(&mut self, mask: u16) -> (r: u16) {
        proof {
            lemma_atomic_u16_casts();
        }
        atomic_u16_fetch_or(self, mask)
    }

    fn fetch_and(&mut self, mask: u16) -> (r: u16) {
        proof {
            lemma_atomic_u16_casts();
        }
        atomic_u16_fetch_and(self, mask)
    }

    fn widen(u: u16) -> (r: u128) {
        u as u128
    }

    fn mask_of(bit: u8) -> (r: u16) {
        proof {
            lemma_atomic_u16_casts();
        }
        1u16 << bit
    }

    fn inv_mask_of(bit: u8) -> (r: u16) {
        proof {
            lemma_atomic_u16_casts();
        }
        !(1u16 << bit)
    }

    fn zero_of() -> (r: u16) {
        0
    }

    fn width_value() -> (r: u8) {
        16
    }
}

/// The value held by an `AtomicU32`.
pub uninterp spec fn stored_u32(a: AtomicU32) -> u32;

/// Relies on `core::sync::atomic::AtomicU32::new`: the returned cell holds
/// the given value.
#[verifier::external_body]
fn atomic_u32_new(v: u32) -> (r: AtomicU32)
    ensures
        stored_u32(r) == v,
{
    AtomicU32::new(v)
}

/// Relies on `core::sync::atomic::AtomicU32::load`: returns the held value.
#[verifier::external_body]
fn atomic_u32_load(a: &AtomicU32) -> (r: u32)
    ensures
        r == stored_u32(*a),
{
    AtomicU32::load(a, Ordering::Acquire)
}

/// Relies on `core::sync::atomic::AtomicU32::store`: replaces the held value.
#[verifier::external_body]
fn atomic_u32_store(a: &mut AtomicU32, v: u32)
    ensures
        stored_u32(*final(a)) == v,
{
    AtomicU32::store(a, v, Ordering::Release);
}

/// Relies on `core::sync::atomic::AtomicU32::compare_exchange`: when the held
/// value equals `current` it is replaced by `new` and returned as `Ok`;
/// otherwise the cell is unchanged and the held value is returned as `Err`.
#[verifier::external_body]
fn atomic_u32_compare_exchange(a: &mut AtomicU32, current: u32, new: u32) -> (r: Result<u32, u32>)
    ensures
        stored_u32(*old(a)) == current ==> r is Ok,
        r matches Ok(prev) ==> prev == current && stored_u32(*old(a)) == current
            && stored_u32(*final(a)) == new,
        r matches Err(seen) ==> stored_u32(*old(a)) != current && seen == stored_u32(*old(a))
            && stored_u32(*final(a)) == stored_u32(*old(a)),
{
    AtomicU32::compare_exchange(a, current, new, Ordering::AcqRel, Ordering::Acquire)
}

/// Relies on `core::sync::atomic::AtomicU32::fetch_or`: ors the mask into the
/// held value and returns the previously held value.
#[verifier::external_body]
fn atomic_u32_fetch_or(a: &mut AtomicU32, mask: u32) -> (r: u32)
    ensures
        r == stored_u32(*old(a)),
        stored_u32(*final(a)) == stored_u32(*old(a)) | mask,
{
    AtomicU32::fetch_or(a, mask, Ordering::AcqRel)
}

/// Relies on `core::sync::atomic::AtomicU32::fetch_and`: ands the mask into
/// the held value and returns the previously held value.
#[verifier::external_body]
fn atomic_u32_fetch_and(a: &mut AtomicU32, mask: u32) -> (r: u32)
    ensures
        r == stored_u32(*old(a)),
        stored_u32(*final(a)) == stored_u32(*old(a)) & mask,
{
    AtomicU32::fetch_and(a, mask, Ordering::AcqRel)
}

/// Facts about `u32` words seen as 128-bit values.
proof fn lemma_atomic_u32_casts()
    by (bit_vector)
    ensures
        (1u128 << 32) - 1 == 0xffff_ffff,
        forall|v: u32| #[trigger] (v as u128) == (v as u128) & 0xffff_ffff,
        forall|b: u8| b < 32 ==> #[trigger] ((1u32 << b) as u128) == 1u128 << (b as u128),
        forall|b: u8|
            b < 32 ==> #[trigger] ((!(1u32 << b)) as u128) == !(1u128 << (b as u128)) & 0xffff_ffff,
        forall|a: u32, m: u32| #[trigger] ((a | m) as u128) == (a as u128) | (m as u128),
        forall|a: u32, m: u32| #[trigger] ((a & m) as u128) == (a as u128) & (m as u128),
{
}

impl AtomicBitState<AtomicU32, u32> for AtomicU32 {
    open spec fn model(&self) -> u128 {
        stored_u32(*self) as u128
    }

    open spec fn word_of(u: u32) -> u128 {
        u as u128
    }

    open spec fn width() -> u8 {
        32
    }

    open spec fn full_mask() -> u128 {
        0xffff_ffff
    }

    proof fn width_le_64() {
        lemma_atomic_u32_casts();
    }

    proof fn model_bounded(&self) {
        lemma_atomic_u32_casts();
    }

    fn new_cell() -> (r: AtomicU32) {
        atomic_u32_new(0)
    }

    fn load(&self) -> (r: u32) {
        atomic_u32_load(self)
    }

    fn store(&mut self, v: u32) {
        atomic_u32_store(self, v);
    }

    fn compare_exchange(&mut self, current: u32, new: u32) -> (r: Result<u32, u32>) {
        atomic_u32_compare_exchange(self, current, new)
    }

    fn fetch_or(&mut self, mask: u32) -> (r: u32) {
        proof {
            lemma_atomic_u32_casts();
        }
        atomic_u32_fetch_or(self, mask)
    }

    fn fetch_and(&mut self, mask: u32) -> (r: u32) {
        proof {
            lemma_atomic_u32_casts();
        }
        atomic_u32_fetch_and(self, mask)
    }

    fn widen(u: u32) -> (r: u128) {
        u as u128
    }

    fn mask_of(bit: u8) -> (r: u32) {
        proof {
            lemma_atomic_u32_casts();
        }
        1u32 << bit
    }

    fn inv_mask_of(bit: u8) -> (r: u32) {
        proof {
            lemma_atomic_u32_casts();
        }
        !(1u32 << bit)
    }

    fn zero_of() -> (r: u32) {
        0
    }

    fn width_value() -> (r: u8) {
        32
    }
}

/// The value held by an `AtomicU64`.
pub uninterp spec fn stored_u64(a: AtomicU64) -> u64;

/// Relies on `core::sync::atomic::AtomicU64::new`: the returned cell holds
/// the given value.
#[verifier::external_body]
fn atomic_u64_new(v: u64) -> (r: AtomicU64)
    ensures
        stored_u64(r) == v,
{
    AtomicU64::new(v)
}

/// Relies on `core::sync::atomic::AtomicU64::load`: returns the held value.
#[verifier::external_body]
fn atomic_u64_load(a: &AtomicU64) -> (r: u64)
    ensures
        r == stored_u64(*a),
{
    AtomicU64::load(a, Ordering::Acquire)
}

/// Relies on `core::sync::atomic::AtomicU64::store`: replaces the held value.
#[verifier::external_body]
fn atomic_u64_store(a: &mut AtomicU64, v: u64)
    ensures
        stored_u64(*final(a)) == v,
{
    AtomicU64::store(a, v, Ordering::Release);
}

/// Relies on `core::sync::atomic::AtomicU64::compare_exchange`: when the held
/// value equals `current` it is replaced by `new` and returned as `Ok`;
/// otherwise the cell is unchanged and the held value is returned as `Err`.
#[verifier::external_body]
fn atomic_u64_compare_exchange(a: &mut AtomicU64, current: u64, new: u64) -> (r: Result<u64, u64>)
    ensures
        stored_u64(*old(a)) == current ==> r is Ok,
        r matches Ok(prev) ==> prev == current && stored_u64(*old(a)) == current
            && stored_u64(*final(a)) == new,
        r matches Err(seen) ==> stored_u64(*old(a)) != current && seen == stored_u64(*old(a))
            && stored_u64(*final(a)) == stored_u64(*old(a)),
{
    AtomicU64::compare_exchange(a, current, new, Ordering::AcqRel, Ordering::Acquire)
}

/// Relies on `core::sync::atomic::AtomicU64::fetch_or`: ors the mask into the
/// held value and returns the previously held value.
#[verifier::external_body]
fn atomic_u64_fetch_or(a: &mut AtomicU64, mask: u64) -> (r: u64)
    ensures
        r == stored_u64(*old(a)),
        stored_u64(*final(a)) == stored_u64(*old(a)) | mask,
{
    AtomicU64::fetch_or(a, mask, Ordering::AcqRel)
}

/// Relies on `core::sync::atomic::AtomicU64::fetch_and`: ands the mask into
/// the held value and returns the previously held value.
#[verifier::external_body]
fn atomic_u64_fetch_and(a: &mut AtomicU64, mask: u64) -> (r: u64)
    ensures
        r == stored_u64(*old(a)),
        stored_u64(*final(a)) == stored_u64(*old(a)) & mask,
{
    AtomicU64::fetch_and(a, mask, Ordering::AcqRel)
}

/// Facts about `u64` words seen as 128-bit values.
proof fn lemma_atomic_u64_casts()
    by (bit_vector)
    ensures
        (1u128 << 64) - 1 == 0xffff_ffff_ffff_ffff,
        forall|v: u64| #[trigger] (v as u128) == (v as u128) & 0xffff_ffff_ffff_ffff,
        forall|b: u8| b < 64 ==> #[trigger] ((1u64 << b) as u128) == 1u128 << (b as u128),
        forall|b: u8|
            b < 64 ==> #[trigger] ((!(1u64 << b)) as u128) == !(1u128 << (b as u128)) & 0xffff_ffff_ffff_ffff,
        forall|a: u64, m: u64| #[trigger] ((a | m) as u128) == (a as u128) | (m as u128),
        forall|a: u64, m: u64| #[trigger] ((a & m) as u128) == (a as u128) & (m as u128),
{
}

impl AtomicBitState<AtomicU64, u64> for AtomicU64 {
    open spec fn model(&self) -> u128 {
        stored_u64(*self) as u128
    }

    open spec fn word_of(u: u64) -> u128 {
        u as u128
    }

    open spec fn width() -> u8 {
        64
    }

    open spec fn full_mask() -> u128 {
        0xffff_ffff_ffff_ffff
    }

    proof fn width_le_64() {
        lemma_atomic_u64_casts();
    }

    proof fn model_bounded(&self) {
        lemma_atomic_u64_casts();
    }

    fn new_cell() -> (r: AtomicU64) {
        atomic_u64_new(0)
    }

    fn load(&self) -> (r: u64) {
        atomic_u64_load(self)
    }

    fn store(&mut self, v: u64) {
        atomic_u64_store(self, v);
    }

    fn compare_exchange(&mut self, current: u64, new: u64) -> (r: Result<u64, u64>) {
        atomic_u64_compare_exchange(self, current, new)
    }

    fn fetch_or(&mut self, mask: u64) -> (r: u64) {
        proof {
            lemma_atomic_u64_casts();
        }
        atomic_u64_fetch_or(self, mask)
    }

    fn fetch_and(&mut self, mask: u64) -> (r: u64) {
        proof {
            lemma_atomic_u64_casts();
        }
        atomic_u64_fetch_and(self, mask)
    }

    fn widen(u: u64) -> (r: u128) {
        u as u128
    }

    fn mask_of(bit: u8) -> (r: u64) {
        proof {
            lemma_atomic_u64_casts();
        }
        1u64 << bit
    }

    fn inv_mask_of(bit: u8) -> (r: u64) {
        proof {
            lemma_atomic_u64_casts();
        }
        !(1u64 << bit)
    }

    fn zero_of() -> (r: u64) {
        0
    }

    fn width_value() -> (r: u8) {
        64
    }
}

} // verus!
