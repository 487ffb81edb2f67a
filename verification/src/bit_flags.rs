//! The single-owner transition-detecting state cell with handler dispatch:
//! a bit vector, a mapping from bit index to flag value, and two handlers,
//! one invoked for every raised bit and one for every lowered bit, in
//! ascending bit-index order. Bits without an assigned flag are skipped.

use crate::bit_state::BitState;
use crate::bits::lemma_single_bit_clear_idempotent;
use crate::bits::lemma_single_bit_set_idempotent;
use crate::bits::nth_bit;
use std::collections::HashMap;
use vstd::prelude::*;

verus! {

broadcast use vstd::std_specs::hash::group_hash_axioms;

/// A bit vector of type `T`, a map from bit index to flag value, and one
/// handler per transition direction, bound for the cell's lifetime.
pub struct FlagSet<T, V, F1, F2> where T: BitState<T>, F1: Fn(V), F2: Fn(V) {
    flags: HashMap<u8, V>,
    bit_state: T,
    up_event: F1,
    down_event: F2,
}

impl<T, V, F1, F2> FlagSet<T, V, F1, F2> where
    T: BitState<T>,
    V: Clone,
    F1: Fn(V),
    F2: Fn(V),
 {
    /// The current bit vector, zero-extended to 128 bits.
    pub closed spec fn word(&self) -> u128 {
        self.bit_state.word()
    }

    /// The mapping from bit index to flag value.
    pub closed spec fn flag_map(&self) -> Map<u8, V> {
        self.flags@
    }

    /// The cell's invariant: every mapped index lies inside the vector's
    /// width, and the two handlers accept every flag value.
    pub closed spec fn wf(&self) -> bool {
        &&& forall|k: u8| self.flags@.contains_key(k) ==> k < T::width()
        &&& forall|v: V| call_requires(self.up_event, (v,))
        &&& forall|v: V| call_requires(self.down_event, (v,))
    }

    /// Builds a cell seeded at zero from a list of `(bit index, flag value)`
    /// pairs and the two handlers.
    pub fn new(flag_pairs: Vec<(u8, V)>, up_event: F1, down_event: F2) -> (r: Self)
        requires
            forall|i: int| 0 <= i < flag_pairs@.len() ==> (#[trigger] flag_pairs@[i]).0
                < T::width(),
            forall|i: int, j: int|
                0 <= i < j < flag_pairs@.len() ==> flag_pairs@[i].0 != flag_pairs@[j].0,
            forall|v: V| call_requires(up_event, (v,)),
            forall|v: V| call_requires(down_event, (v,)),
        ensures
            r.wf(),
            r.word() == 0,
            forall|i: int|
                0 <= i < flag_pairs@.len() ==> r.flag_map().contains_key(
                    (#[trigger] flag_pairs@[i]).0,
                ) && r.flag_map()[flag_pairs@[i].0] == flag_pairs@[i].1,
            forall|k: u8|
                r.flag_map().contains_key(k) ==> exists|i: int|
                    0 <= i < flag_pairs@.len() && (#[trigger] flag_pairs@[i]).0 == k,
    {
        let ghost all_pairs = flag_pairs@;
        let mut rest = flag_pairs;
        let mut flags: HashMap<u8, V> = HashMap::new();
        while rest.len() > 0
            invariant
                rest@ == all_pairs.take(rest@.len() as int),
                rest@.len() <= all_pairs.len(),
                forall|i: int| 0 <= i < all_pairs.len() ==> (#[trigger] all_pairs[i]).0
                    < T::width(),
                forall|i: int, j: int|
                    0 <= i < j < all_pairs.len() ==> all_pairs[i].0 != all_pairs[j].0,
                forall|i: int|
                    rest@.len() <= i < all_pairs.len() ==> flags@.contains_key(
                        (#[trigger] all_pairs[i]).0,
                    ) && flags@[all_pairs[i].0] == all_pairs[i].1,
                forall|k: u8|
                    flags@.contains_key(k) ==> exists|i: int|
                        rest@.len() <= i < all_pairs.len() && (#[trigger] all_pairs[i]).0 == k,
            decreases rest@.len(),
        {
            let pair = rest.pop().unwrap();
            flags.insert(pair.0, pair.1);
        }
        FlagSet { flags, bit_state: T::zeroed(), up_event, down_event }
    }

    /// Replaces the whole vector; for every bit that changed, in ascending
    /// index order, invokes the matching handler with the flag value mapped
    /// to that bit, raised bits first, then lowered bits. Equal old and new
    /// values invoke no handler.
    pub fn set_with_state(&mut self, new: T)
        requires
            old(self).wf(),
        ensures
            final(self).wf(),
            final(self).word() == T::word_of(new),
            final(self).flag_map() == old(self).flag_map(),
    {
        let changes = self.bit_state.set_with_changes(new);
        match changes {
            None => {},
            Some(lists) => {
                let (ups, downs) = lists;
                self.dispatch_raised(&ups);
                self.dispatch_lowered(&downs);
            },
        }
    }

    /// Invokes the raised handler on the flag value of each listed bit that
    /// has one, in list order.
    fn dispatch_raised(&self, indices: &Vec<u8>)
        requires
            self.wf(),
    {
        let mut i: usize = 0;
        while i < indices.len()
            invariant
                self.wf(),
                i <= indices@.len(),
            decreases indices@.len() - i,
        {
            if let Some(v) = self.flags.get(&indices[i]) {
                (self.up_event)(v.clone());
            }
            i = i + 1;
        }
    }

    /// Invokes the lowered handler on the flag value of each listed bit that
    /// has one, in list order.
    fn dispatch_lowered(&self, indices: &Vec<u8>)
        requires
            self.wf(),
    {
        let mut i: usize = 0;
        while i < indices.len()
            invariant
                self.wf(),
                i <= indices@.len(),
            decreases indices@.len() - i,
        {
            if let Some(v) = self.flags.get(&indices[i]) {
                (self.down_event)(v.clone());
            }
            i = i + 1;
        }
    }

    /// Sets one bit; invokes the raised handler with the bit's flag value
    /// only when the bit actually changed and has a flag. A second call in
    /// a row is a complete no-op.
    pub fn set_flag(&mut self, flag: u8)
        requires
            old(self).wf(),
            flag < T::width(),
        ensures
            final(self).wf(),
            final(self).word() == old(self).word() | (1u128 << (flag as u128)),
            final(self).flag_map() == old(self).flag_map(),
            nth_bit(old(self).word(), flag) ==> final(self).word() == old(self).word(),
    {
        proof {
            T::width_le_128();
            lemma_single_bit_set_idempotent(self.bit_state.word(), flag);
        }
        if !self.bit_state.get_bit(flag) {
            self.bit_state.set_bit(flag);
            if let Some(v) = self.flags.get(&flag) {
                (self.up_event)(v.clone());
            }
        }
    }

    /// Clears one bit; invokes the lowered handler with the bit's flag value
    /// only when the bit actually changed and has a flag. A second call in
    /// a row is a complete no-op.
    pub fn reset_flag(&mut self, flag: u8)
        requires
            old(self).wf(),
            flag < T::width(),
        ensures
            final(self).wf(),
            final(self).word() == old(self).word() & !(1u128 << (flag as u128)),
            final(self).flag_map() == old(self).flag_map(),
            !nth_bit(old(self).word(), flag) ==> final(self).word() == old(self).word(),
    {
        proof {
            T::width_le_128();
            lemma_single_bit_clear_idempotent(self.bit_state.word(), flag);
        }
        if self.bit_state.get_bit(flag) {
            self.bit_state.clear_bit(flag);
            if let Some(v) = self.flags.get(&flag) {
                (self.down_event)(v.clone());
            }
        }
    }

    /// The current value of the vector.
    pub fn get(&self) -> (r: T)
        ensures
            r.word() == self.word(),
    {
        self.bit_state
    }

    /// Resets the vector to zero without invoking any handler, whatever was
    /// set before.
    pub fn clear(&mut self)
        requires
            old(self).wf(),
        ensures
            final(self).wf(),
            final(self).word() == 0,
            final(self).flag_map() == old(self).flag_map(),
    {
        self.bit_state.reset();
    }

    /// True when the given bit is set.
    pub fn is_set(&self, flag: u8) -> (b: bool)
        requires
            flag < T::width(),
        ensures
            b == nth_bit(self.word(), flag),
    {
        self.bit_state.get_bit(flag)
    }
}

} // verus!
