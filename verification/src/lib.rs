//! Proof-of-spacetime (PoSt) challenge and proof pipeline.
//!
//! Given a set of sealed storage sectors and a random seed the library
//! derives per-sector Merkle-leaf challenges, reshapes per-sector
//! inclusion proofs into the fixed-shape partitions a proving circuit
//! expects, verifies each partition before it is handed out, and merges
//! the resulting partition proof blobs into one output. A streaming
//! calculator computes an incremental Merkle commitment over a byte
//! stream, and a parameter calculator derives circuit setup parameters
//! from high-level configuration.

use vstd::prelude::*;

pub mod errors;
pub mod types;
pub mod params;
pub mod merge;
pub mod reader;
pub mod field;
pub mod challenges;
pub mod partition;
pub mod geometry;

verus! {

} // verus!
