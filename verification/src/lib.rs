//! Reactive bit state management: fixed-width bit vectors that report which
//! bits were raised (0 to 1) or lowered (1 to 0) on each full-value update,
//! in ascending bit-index order, plus plain single-bit accessors and an
//! atomic, compare-and-swap based variant of the same cell.

pub mod atomic_bit_flags;
pub mod atomic_bit_state;
pub mod bit_flags;
pub mod bit_state;
pub mod bits;

pub use atomic_bit_flags::AtomicFlagSet;
pub use atomic_bit_state::AtomicBitState;
pub use bit_flags::FlagSet;
pub use bit_state::BitState;
