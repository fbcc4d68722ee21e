//! A small stateful sequence-memory unit: a sliding window of recent
//! key/value pairs plus a fixed bank of associative memory slots with
//! similarity addressing, novelty gating and decay-style updates, read out
//! through scaled-dot-product attention.
//!
//! Scalars are carried as raw IEEE-754 bit patterns (`u64`); the primitive
//! arithmetic steps are trusted (see `scalar`), and everything built from
//! them — the window, the slot bank, the readout and the state digests —
//! is verified against contracts stated over those primitives.

pub mod scalar;
pub mod vecmath;
pub mod unit;
pub mod digest;
pub mod laws;

pub use unit::KVMemV0;
pub use unit::KvError;

pub use scalar::ZERO_BITS;
pub use scalar::ONE_BITS;
pub use scalar::NEG_ONE_BITS;
pub use scalar::NEG_INF_BITS;
