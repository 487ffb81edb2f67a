//! The mathematical model of a bit vector and the transition detector.
//!
//! Every supported word width (8, 16, 32, 64 and 128 bits) is modelled by
//! zero-extending the word to `u128`, so the whole theory is stated once,
//! over `u128` words together with an explicit width.

use vstd::prelude::*;

verus! {

/// True when bit `i` of `v` is set.
pub open spec fn nth_bit(v: u128, i: u8) -> bool {
    (v >> (i as u128)) & 1 == 1
}

/// Mask of the bits that transition 0 -> 1 when `old_v` is replaced by `new_v`.
pub open spec fn raised_mask(old_v: u128, new_v: u128) -> u128 {
    (old_v ^ new_v) & new_v
}

/// Mask of the bits that transition 1 -> 0 when `old_v` is replaced by `new_v`.
pub open spec fn lowered_mask(old_v: u128, new_v: u128) -> u128 {
    (old_v ^ new_v) & !new_v
}

/// The indices below `w` whose bit is set in `m`, in ascending order.
pub open spec fn bits_below(m: u128, w: u8) -> Seq<u8>
    decreases w,
{
    if w == 0 {
        Seq::empty()
    } else if nth_bit(m, (w - 1) as u8) {
        bits_below(m, (w - 1) as u8).push((w - 1) as u8)
    } else {
        bits_below(m, (w - 1) as u8)
    }
}

/// The ascending list of bit indices below `w` that are raised by the
/// transition from `old_v` to `new_v`.
pub open spec fn raised_indices(old_v: u128, new_v: u128, w: u8) -> Seq<u8> {
    bits_below(raised_mask(old_v, new_v), w)
}

/// The ascending list of bit indices below `w` that are lowered by the
/// transition from `old_v` to `new_v`.
pub open spec fn lowered_indices(old_v: u128, new_v: u128, w: u8) -> Seq<u8> {
    bits_below(lowered_mask(old_v, new_v), w)
}

/// An index is listed by `bits_below` exactly when it is below the width and
/// its bit is set in the mask.
pub proof fn lemma_bits_below_contains(m: u128, w: u8, i: u8)
    ensures
        bits_below(m, w).contains(i) <==> (i < w && nth_bit(m, i)),
    decreases w,
{
    if w == 0 {
    } else {
        let p = (w - 1) as u8;
        lemma_bits_below_contains(m, p, i);
        let s0 = bits_below(m, p);
        if nth_bit(m, p) {
            assert(bits_below(m, w) == s0.push(p));
            if i < w && nth_bit(m, i) {
                if i == p {
                    assert(s0.push(p)[s0.len() as int] == p);
                    assert(s0.push(p).contains(i));
                } else {
                    let j = choose|j: int| 0 <= j < s0.len() && s0[j] == i;
                    assert(s0.push(p)[j] == i);
                    assert(s0.push(p).contains(i));
                }
            }
            if s0.push(p).contains(i) {
                let j = choose|j: int| 0 <= j < s0.push(p).len() && s0.push(p)[j] == i;
                if j < s0.len() {
                    assert(s0[j] == i);
                    assert(s0.contains(i));
                }
            }
        }
    }
}

/// Every index listed by `bits_below` is below the width.
pub proof fn lemma_bits_below_bounded(m: u128, w: u8)
    ensures
        forall|j: int| 0 <= j < bits_below(m, w).len() ==> bits_below(m, w)[j] < w,
    decreases w,
{
    if w == 0 {
    } else {
        let p = (w - 1) as u8;
        lemma_bits_below_bounded(m, p);
        if nth_bit(m, p) {
            assert(bits_below(m, w) == bits_below(m, p).push(p));
        }
    }
}

/// `bits_below` is strictly ascending.
pub proof fn lemma_bits_below_sorted(m: u128, w: u8)
    ensures
        forall|j: int, k: int|
            0 <= j < k < bits_below(m, w).len() ==> bits_below(m, w)[j] < bits_below(m, w)[k],
    decreases w,
{
    if w == 0 {
    } else {
        let p = (w - 1) as u8;
        lemma_bits_below_sorted(m, p);
        lemma_bits_below_bounded(m, p);
        if nth_bit(m, p) {
            assert(bits_below(m, w) == bits_below(m, p).push(p));
        }
    }
}

/// A bit is raised exactly when it was clear before and is set after.
pub proof fn lemma_raised_bit(old_v: u128, new_v: u128, i: u8)
    ensures
        nth_bit(raised_mask(old_v, new_v), i) <==> (!nth_bit(old_v, i) && nth_bit(new_v, i)),
{
    assert((((old_v ^ new_v) & new_v) >> (i as u128)) & 1 == 1 <==> (!((old_v >> (i as u128)) & 1
        == 1) && (new_v >> (i as u128)) & 1 == 1)) by (bit_vector);
}

/// A bit is lowered exactly when it was set before and is clear after.
pub proof fn lemma_lowered_bit(old_v: u128, new_v: u128, i: u8)
    ensures
        nth_bit(lowered_mask(old_v, new_v), i) <==> (nth_bit(old_v, i) && !nth_bit(new_v, i)),
{
    assert((((old_v ^ new_v) & !new_v) >> (i as u128)) & 1 == 1 <==> (((old_v >> (i as u128)) & 1
        == 1) && !((new_v >> (i as u128)) & 1 == 1))) by (bit_vector);
}

/// Transition completeness: the raised list holds exactly the in-width
/// indices whose bit goes from clear to set, the lowered list exactly those
/// whose bit goes from set to clear, both strictly ascending, and no index
/// appears in both lists.
pub proof fn lemma_transition_complete(old_v: u128, new_v: u128, w: u8)
    ensures
        forall|i: u8|
            #[trigger] raised_indices(old_v, new_v, w).contains(i) <==> (i < w && !nth_bit(
                old_v,
                i,
            ) && nth_bit(new_v, i)),
        forall|i: u8|
            #[trigger] lowered_indices(old_v, new_v, w).contains(i) <==> (i < w && nth_bit(
                old_v,
                i,
            ) && !nth_bit(new_v, i)),
        forall|i: u8|
            !(#[trigger] raised_indices(old_v, new_v, w).contains(i) && lowered_indices(
                old_v,
                new_v,
                w,
            ).contains(i)),
        forall|j: int, k: int|
            0 <= j < k < raised_indices(old_v, new_v, w).len() ==> raised_indices(old_v, new_v, w)[j]
                < raised_indices(old_v, new_v, w)[k],
        forall|j: int, k: int|
            0 <= j < k < lowered_indices(old_v, new_v, w).len() ==> lowered_indices(
                old_v,
                new_v,
                w,
            )[j] < lowered_indices(old_v, new_v, w)[k],
{
    assert forall|i: u8|
        #[trigger] raised_indices(old_v, new_v, w).contains(i) <==> (i < w && !nth_bit(old_v, i)
            && nth_bit(new_v, i)) by {
        lemma_bits_below_contains(raised_mask(old_v, new_v), w, i);
        lemma_raised_bit(old_v, new_v, i);
    }
    assert forall|i: u8|
        #[trigger] lowered_indices(old_v, new_v, w).contains(i) <==> (i < w && nth_bit(old_v, i)
            && !nth_bit(new_v, i)) by {
        lemma_bits_below_contains(lowered_mask(old_v, new_v), w, i);
        lemma_lowered_bit(old_v, new_v, i);
    }
    lemma_bits_below_sorted(raised_mask(old_v, new_v), w);
    lemma_bits_below_sorted(lowered_mask(old_v, new_v), w);
}

/// Replacing a value by itself raises and lowers nothing.
pub proof fn lemma_equal_values_change_nothing(v: u128, w: u8)
    ensures
        raised_indices(v, v, w) == Seq::<u8>::empty(),
        lowered_indices(v, v, w) == Seq::<u8>::empty(),
{
    assert((v ^ v) & v == 0 && (v ^ v) & !v == 0) by (bit_vector);
    lemma_zero_mask_has_no_bits(w);
}

/// The zero mask lists no indices.
proof fn lemma_zero_mask_has_no_bits(w: u8)
    ensures
        bits_below(0, w) == Seq::<u8>::empty(),
    decreases w,
{
    if w > 0 {
        let p = (w - 1) as u8;
        lemma_zero_mask_has_no_bits(p);
        assert(!((0u128 >> (p as u128)) & 1 == 1)) by (bit_vector);
    }
}

/// Setting one bit is idempotent: the first call leaves the bit set, and a
/// second call finds it set already, so it changes nothing; setting a bit
/// that is already set is a no-op from the start.
pub proof fn lemma_single_bit_set_idempotent(v: u128, i: u8)
    requires
        i < 128,
    ensures
        nth_bit(v | (1u128 << (i as u128)), i),
        (v | (1u128 << (i as u128))) | (1u128 << (i as u128)) == v | (1u128 << (i as u128)),
        nth_bit(v, i) ==> v | (1u128 << (i as u128)) == v,
{
    assert(((v | (1u128 << (i as u128))) >> (i as u128)) & 1 == 1 && (v | (1u128 << (i as u128)))
        | (1u128 << (i as u128)) == v | (1u128 << (i as u128)) && ((v >> (i as u128)) & 1 == 1
        ==> v | (1u128 << (i as u128)) == v)) by (bit_vector)
        requires
            i < 128,
    ;
}

/// Clearing one bit is idempotent: the first call leaves the bit clear, and a
/// second call finds it clear already, so it changes nothing; clearing a bit
/// that is already clear is a no-op from the start.
pub proof fn lemma_single_bit_clear_idempotent(v: u128, i: u8)
    requires
        i < 128,
    ensures
        !nth_bit(v & !(1u128 << (i as u128)), i),
        (v & !(1u128 << (i as u128))) & !(1u128 << (i as u128)) == v & !(1u128 << (i as u128)),
        !nth_bit(v, i) ==> v & !(1u128 << (i as u128)) == v,
{
    assert(((v & !(1u128 << (i as u128))) >> (i as u128)) & 1 != 1 && (v & !(1u128 << (i
        as u128))) & !(1u128 << (i as u128)) == v & !(1u128 << (i as u128)) && ((v >> (i
        as u128)) & 1 != 1 ==> v & !(1u128 << (i as u128)) == v)) by (bit_vector)
        requires
            i < 128,
    ;
}

/// Computes the ascending lists of raised and lowered bit indices for the
/// transition from `old_v` to `new_v`, looking at the lowest `width` bits.
pub fn changed_indices(old_v: u128, new_v: u128, width: u8) -> (r: (Vec<u8>, Vec<u8>))
    requires
        width <= 128,
    ensures
        r.0@ == raised_indices(old_v, new_v, width),
        r.1@ == lowered_indices(old_v, new_v, width),
{
    let up_mask = (old_v ^ new_v) & new_v;
    let down_mask = (old_v ^ new_v) & !new_v;
    let mut ups: Vec<u8> = Vec::new();
    let mut downs: Vec<u8> = Vec::new();
    let mut pos: u8 = 0;
    while pos < width
        invariant
            pos <= width,
            width <= 128,
            up_mask == raised_mask(old_v, new_v),
            down_mask == lowered_mask(old_v, new_v),
            ups@ == bits_below(up_mask, pos),
            downs@ == bits_below(down_mask, pos),
        decreases width - pos,
    {
        if (up_mask >> (pos as u128)) & 1 == 1 {
            ups.push(pos);
        }
        if (down_mask >> (pos as u128)) & 1 == 1 {
            downs.push(pos);
        }
        pos = pos + 1;
    }
    (ups, downs)
}

/// Anding with a mask already restricted to the bits kept by `f` is the
/// same as anding with the unrestricted mask, for values within `f`.
pub proof fn lemma_masked_and(v: u128, m: u128, f: u128)
    requires
        v == v & f,
    ensures
        v & (m & f) == v & m,
{
    assert(v == v & f ==> v & (m & f) == v & m) by (bit_vector);
}

/// True when bit `i` of `v` is set.
pub fn test_bit(v: u128, i: u8) -> (b: bool)
    requires
        i < 128,
    ensures
        b == nth_bit(v, i),
{
    (v >> (i as u128)) & 1 == 1
}

} // verus!
