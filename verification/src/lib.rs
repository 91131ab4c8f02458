//! A cloneable, narrowing byte-view reader.
//!
//! [`OwnedRead`] owns a byte buffer through a shared, reference-counted
//! handle and exposes a read/seek interface over a sub-range of its bytes.
//! Clones share the backing allocation without copying it; each clone keeps
//! an independent view that can be advanced and clipped on its own.

mod reader;
mod laws;

pub use reader::OwnedRead;
pub use reader::ReadError;
pub use laws::lemma_advance_monotonicity;
pub use laws::lemma_clip_full_length_noop;
pub use laws::lemma_clone_independence;
pub use laws::lemma_read_advance_equivalence;
