//! Error taxonomy of the proof pipeline.
//!
//! Every failure carries enough context (sector id, expected vs actual
//! counts) to diagnose the call without re-running it.

use vstd::prelude::*;

verus! {

/// All errors the pipeline can surface to a caller.
#[derive(Clone, Copy, Debug, PartialEq, Eq, Structural)]
pub enum PipelineError {
    /// Malformed PoSt/PoRep configuration (for example a challenge count
    /// the sector count does not divide).
    InvalidConfig,
    /// A 32-byte commitment that does not decode to a canonical field
    /// element.
    InvalidCommitment,
    /// A partition chunk index does not exist for the given sector list.
    InvalidInput,
    /// More sectors than `partition_count * sector_count` can hold.
    CapacityExceeded { num_sectors: usize, capacity: usize },
    /// A single-partition call without a partition index.
    MissingPartitionIndex,
    /// No vanilla proof was supplied for a public sector.
    SectorProofNotFound { sector_id: u64 },
    /// A padded partition does not match the circuit arity.
    ShapeMismatch { expected: usize, actual: usize },
    /// The sector's replica material could not be read.
    ReplicaAccess { sector_id: u64 },
    /// Building the inclusion proofs for a sector failed.
    ProofConstruction { sector_id: u64 },
    /// A freshly built partition failed its self-verification.
    PartitionVerificationFailed { partition: usize },
    /// The assembled set of partitions failed its self-verification.
    ProofSetVerificationFailed,
    /// The streamed byte count is not a multiple of the leaf block size.
    IncompleteInput { staged: usize },
    /// A sector byte size that is not a multiple of 32.
    InvalidSectorSize { sector_bytes: u64 },
    /// A sector byte size absent from the configured size table.
    UnknownSectorSize { sector_bytes: u64 },
    /// A tree node count and arity that no well-formed tree has.
    InvalidTreeGeometry { nodes: usize, arity: usize },
}

} // verus!
