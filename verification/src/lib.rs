//! A verified model of a segmentation-and-recursion proving pipeline for a
//! general-purpose instruction-set virtual machine.
//!
//! An execution is split into bounded segments, each segment is proved on its
//! own, and the per-segment receipts are folded by recursion operations
//! (`lift`, `join`, `resolve`) into one composite receipt whose claim covers
//! the whole run. Recursion programs are identified by a content-derived
//! control ID, which verifiers check against an allow-list.

pub mod claim;
pub mod codec;
pub mod digest;
pub mod executor;
pub mod local;
pub mod program;
pub mod prover;
pub mod receipt;
pub mod recursion;

pub use digest::Digest;
pub use local::LocalProver;
pub use program::Program;
