//! The transition-detecting state cell over an atomic bit vector. Full-value
//! updates go through a compare-and-swap: the value read last is offered as
//! the expected old value, and on a conflict the operation retries with the
//! witness the failed exchange returned. The raised and lowered bits are then
//! computed from the exact old/new pair that won the exchange, and the
//! handlers run after the swap, outside the atomic operation. Single-bit
//! updates use one fetch-or or fetch-and instruction instead, and decide
//! whether to fire from the pre-mutation snapshot that instruction returns.

use crate::atomic_bit_state::AtomicBitState;
use crate::bits::changed_indices;
use crate::bits::lemma_masked_and;
use crate::bits::lemma_single_bit_clear_idempotent;
use crate::bits::lemma_single_bit_set_idempotent;
use crate::bits::nth_bit;
use crate::bits::test_bit;
use core::marker::PhantomData;
use std::collections::HashMap;
use vstd::prelude::*;

verus! {

broadcast use vstd::std_specs::hash::group_hash_axioms;

/// An atomic bit vector of type `T` over words of type `U`, a map from bit
/// index to flag value, and one handler per transition direction, bound for
/// the cell's lifetime.
pub struct AtomicFlagSet<T, U, V, F1, F2> where
    T: AtomicBitState<T, U>,
    U: Copy,
    F1: Fn(V),
    F2: Fn(V),
 {
    flags: HashMap<u8, V>,
    bit_state: T,
    up_event: F1,
    down_event: F2,
    _phantom: PhantomData<U>,
}

impl<T, U, V, F1, F2> AtomicFlagSet<T, U, V, F1, F2> where
    T: AtomicBitState<T, U>,
    U: Copy,
    V: Clone,
    F1: Fn(V),
    F2: Fn(V),
 {
    /// The bit vector the cell currently holds, zero-extended to 128 bits.
    pub closed spec fn word(&self) -> u128 {
        self.bit_state.model()
    }

    /// The mapping from bit index to flag value.
    pub closed spec fn flag_map(&self) -> Map<u8, V> {
        self.flags@
    }

    /// The cell's invariant: every mapped index lies inside the vector's
    /// width, and the two handlers accept every flag value.
    pub closed spec fn wf(&self) -> bool {
        &&& forall|k: u8| self.flags@.contains_key(k) ==> k < T::width()
        &&& forall|v: V| call_requires(self.up_event, (v,))
        &&& forall|v: V| call_requires(self.down_event, (v,))
    }

    /// Builds a cell seeded at zero from a list of `(bit index, flag value)`
    /// pairs and the two handlers.
    pub fn new(flag_pairs: Vec<(u8, V)>, up_event: F1, down_event: F2) -> (r: Self)
        requires
            forall|i: int| 0 <= i < flag_pairs@.len() ==> (#[trigger] flag_pairs@[i]).0
                < T::width(),
            forall|i: int, j: int|
                0 <= i < j < flag_pairs@.len() ==> flag_pairs@[i].0 != flag_pairs@[j].0,
            forall|v: V| call_requires(up_event, (v,)),
            forall|v: V| call_requires(down_event, (v,)),
        ensures
            r.wf(),
            r.word() == 0,
            forall|i: int|
                0 <= i < flag_pairs@.len() ==> r.flag_map().contains_key(
                    (#[trigger] flag_pairs@[i]).0,
                ) && r.flag_map()[flag_pairs@[i].0] == flag_pairs@[i].1,
            forall|k: u8|
                r.flag_map().contains_key(k) ==> exists|i: int|
                    0 <= i < flag_pairs@.len() && (#[trigger] flag_pairs@[i]).0 == k,
    {
        let ghost all_pairs = flag_pairs@;
        let mut rest = flag_pairs;
        let mut flags: HashMap<u8, V> = HashMap::new();
        while rest.len() > 0
            invariant
                rest@ == all_pairs.take(rest@.len() as int),
                rest@.len() <= all_pairs.len(),
                forall|i: int| 0 <= i < all_pairs.len() ==> (#[trigger] all_pairs[i]).0
                    < T::width(),
                forall|i: int, j: int|
                    0 <= i < j < all_pairs.len() ==> all_pairs[i].0 != all_pairs[j].0,
                forall|i: int|
                    rest@.len() <= i < all_pairs.len() ==> flags@.contains_key(
                        (#[trigger] all_pairs[i]).0,
                    ) && flags@[all_pairs[i].0] == all_pairs[i].1,
                forall|k: u8|
                    flags@.contains_key(k) ==> exists|i: int|
                        rest@.len() <= i < all_pairs.len() && (#[trigger] all_pairs[i]).0 == k,
            decreases rest@.len(),
        {
            let pair = rest.pop().unwrap();
            flags.insert(pair.0, pair.1);
        }
        AtomicFlagSet {
            flags,
            bit_state: T::new_cell(),
            up_event,
            down_event,
            _phantom: PhantomData,
        }
    }

    /// Replaces the whole vector through a compare-and-swap with retry; for
    /// every bit that changed between the old value that won the swap and
    /// `new`, in ascending index order, invokes the matching handler with the
    /// flag value mapped to that bit, raised bits first, then lowered bits.
    /// Equal old and new values invoke no handler and store nothing.
    pub fn set_with_state(&mut self, new: U)
        requires
            old(self).wf(),
        ensures
            final(self).wf(),
            final(self).word() == T::word_of(new),
            final(self).flag_map() == old(self).flag_map(),
    {
        let mut cur = self.bit_state.load();
        loop
            invariant_except_break
                T::word_of(cur) == self.bit_state.model(),
            invariant
                self.wf(),
                self.flag_map() == old(self).flag_map(),
            ensures
                self.wf(),
                self.flag_map() == old(self).flag_map(),
                self.bit_state.model() == T::word_of(new),
            decreases 0nat,
        {
            if T::widen(cur) == T::widen(new) {
                return ;
            }
            match self.bit_state.compare_exchange(cur, new) {
                Ok(_) => { break ; },
                Err(seen) => {
                    // Unreachable while the cell is held exclusively: the
                    // exchange's witness would contradict the loop invariant.
                    cur = seen;
                },
            }
        }
        proof {
            T::width_le_64();
        }
        let lists = changed_indices(T::widen(cur), T::widen(new), T::width_value());
        self.dispatch_raised(&lists.0);
        self.dispatch_lowered(&lists.1);
    }

    /// Invokes the raised handler on the flag value of each listed bit that
    /// has one, in list order.
    fn dispatch_raised(&self, indices: &Vec<u8>)
        requires
            self.wf(),
    {
        let mut i: usize = 0;
        while i < indices.len()
            invariant
                self.wf(),
                i <= indices@.len(),
            decreases indices@.len() - i,
        {
            if let Some(v) = self.flags.get(&indices[i]) {
                (self.up_event)(v.clone());
            }
            i = i + 1;
        }
    }

    /// Invokes the lowered handler on the flag value of each listed bit that
    /// has one, in list order.
    fn dispatch_lowered(&self, indices: &Vec<u8>)
        requires
            self.wf(),
    {
        let mut i: usize = 0;
        while i < indices.len()
            invariant
                self.wf(),
                i <= indices@.len(),
            decreases indices@.len() - i,
        {
            if let Some(v) = self.flags.get(&indices[i]) {
                (self.down_event)(v.clone());
            }
            i = i + 1;
        }
    }

    /// Sets one bit with a single fetch-or; invokes the raised handler with
    /// the bit's flag value only when the bit was clear in the pre-mutation
    /// snapshot and has a flag. A second call in a row is a complete no-op.
    pub fn set_flag(&mut self, flag: u8)
        requires
            old(self).wf(),
            flag < T::width(),
        ensures
            final(self).wf(),
            final(self).word() == old(self).word() | (1u128 << (flag as u128)),
            final(self).flag_map() == old(self).flag_map(),
            nth_bit(old(self).word(), flag) ==> final(self).word() == old(self).word(),
    {
        proof {
            T::width_le_64();
            lemma_single_bit_set_idempotent(self.bit_state.model(), flag);
        }
        let mask = T::mask_of(flag);
        let prev = self.bit_state.fetch_or(mask);
        let was_already_set = test_bit(T::widen(prev), flag);
        if !was_already_set {
            if let Some(v) = self.flags.get(&flag) {
                (self.up_event)(v.clone());
            }
        }
    }

    /// Clears one bit with a single fetch-and; invokes the lowered handler
    /// with the bit's flag value only when the bit was set in the
    /// pre-mutation snapshot and has a flag. A second call in a row is a
    /// complete no-op.
    pub fn reset_flag(&mut self, flag: u8)
        requires
            old(self).wf(),
            flag < T::width(),
        ensures
            final(self).wf(),
            final(self).word() == old(self).word() & !(1u128 << (flag as u128)),
            final(self).flag_map() == old(self).flag_map(),
            !nth_bit(old(self).word(), flag) ==> final(self).word() == old(self).word(),
    {
        proof {
            T::width_le_64();
            self.bit_state.model_bounded();
            lemma_masked_and(
                self.bit_state.model(),
                !(1u128 << (flag as u128)),
                T::full_mask(),
            );
            lemma_single_bit_clear_idempotent(self.bit_state.model(), flag);
        }
        let mask = T::inv_mask_of(flag);
        let prev = self.bit_state.fetch_and(mask);
        let was_already_set = test_bit(T::widen(prev), flag);
        if was_already_set {
            if let Some(v) = self.flags.get(&flag) {
                (self.down_event)(v.clone());
            }
        }
    }

    /// The current value of the vector.
    pub fn get(&self) -> (r: U)
        ensures
            T::word_of(r) == self.word(),
    {
        self.bit_state.load()
    }

    /// Resets the vector to zero without invoking any handler, whatever was
    /// set before.
    pub fn clear(&mut self)
        requires
            old(self).wf(),
        ensures
            final(self).wf(),
            final(self).word() == 0,
            final(self).flag_map() == old(self).flag_map(),
    {
        let zero = T::zero_of();
        self.bit_state.store(zero);
    }

    /// True when the given bit is set.
    pub fn is_set(&self, flag: u8) -> (b: bool)
        requires
            flag < T::width(),
        ensures
            b == nth_bit(self.word(), flag),
    {
        proof {
            T::width_le_64();
        }
        let cur = self.bit_state.load();
        test_bit(T::widen(cur), flag)
    }
}

} // verus!
