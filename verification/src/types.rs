//! Configuration and shape descriptors shared across the pipeline.
//!
//! Sector ids, seeds and commitments are held as plain values: a sector id
//! is a `u64`, a commitment or seed is 32 bytes, and a canonical field
//! element is its unique 32-byte little-endian encoding.

use vstd::prelude::*;

verus! {

/// Bytes per Merkle tree node (and per field element encoding).
pub const NODE_SIZE: u64 = 32;

/// The two proof-of-spacetime variants.
#[derive(Clone, Copy, Debug, PartialEq, Eq, Structural)]
pub enum PoStType {
    Window,
    Winning,
}

/// Protocol API versions that change the challenge-index derivation.
#[derive(Clone, Copy, Debug, PartialEq, Eq, Structural)]
pub enum ApiVersion {
    V1_0_0,
    V1_1_0,
    V1_2_0,
}

/// Optional protocol features of a replication setup.
#[derive(Clone, Copy, Debug, PartialEq, Eq, Structural)]
pub enum ApiFeature {
    SyntheticPoRep,
    NonInteractivePoRep,
}

/// Proof-of-spacetime configuration.
#[derive(Clone, Copy, Debug, PartialEq, Eq, Structural)]
pub struct PoStConfig {
    pub typ: PoStType,
    /// Challenges per sector.
    pub challenge_count: usize,
    /// Sectors per partition.
    pub sector_count: usize,
    /// Padded sector size in bytes.
    pub sector_size: u64,
    pub api_version: ApiVersion,
    pub priority: bool,
}

impl PoStConfig {
    /// A usable configuration: at least one sector per partition, at least
    /// one challenge, and a sector size that holds whole 32-byte nodes.
    pub open spec fn wf(&self) -> bool {
        &&& self.sector_count >= 1
        &&& self.challenge_count >= 1
        &&& self.sector_size >= 32
        &&& self.sector_size % 32 == 0
    }
}

/// Circuit shape descriptor for a proof-of-spacetime instance; immutable
/// once constructed.
#[derive(Clone, Copy, Debug, PartialEq, Eq, Structural)]
pub struct PublicParams {
    pub sector_size: u64,
    pub challenge_count: usize,
    pub sector_count: usize,
    pub api_version: ApiVersion,
}

/// Setup parameters for a proof-of-spacetime instance. The fallback
/// proof-of-spacetime setup turns these into `PublicParams` field by field.
#[derive(Clone, Copy, Debug, PartialEq, Eq, Structural)]
pub struct PoStSetupParams {
    pub sector_size: u64,
    pub challenge_count: usize,
    pub sector_count: usize,
    pub api_version: ApiVersion,
}

/// Per-layer challenge-count schedule of the layered replication proof;
/// computed once per setup call, immutable thereafter.
#[derive(Clone, Copy, Debug, PartialEq, Eq, Structural)]
pub struct LayerChallenges {
    /// Number of replication layers.
    pub layers: usize,
    /// Challenges per partition.
    pub max_count: usize,
    /// Synthetic-challenge mode flag.
    pub use_synthetic: bool,
}

impl LayerChallenges {
    pub fn new(layers: usize, max_count: usize) -> (r: LayerChallenges)
        ensures
            r.layers == layers,
            r.max_count == max_count,
            !r.use_synthetic,
    {
        LayerChallenges { layers, max_count, use_synthetic: false }
    }

    /// Total number of challenges this schedule puts in one partition.
    pub fn challenges_count_all(&self) -> (r: usize)
        ensures
            r == self.max_count,
    {
        self.max_count
    }
}

/// Replication (proof-of-replication) configuration.
#[derive(Clone, Debug, PartialEq, Eq)]
pub struct PoRepConfig {
    /// Padded sector size in bytes.
    pub sector_size: u64,
    /// Number of proof partitions.
    pub partitions: usize,
    pub porep_id: [u8; 32],
    pub api_version: ApiVersion,
    pub api_features: Vec<ApiFeature>,
}

impl PoRepConfig {
    /// Whether the configuration enables the given feature.
    pub fn feature_enabled(&self, feature: ApiFeature) -> (r: bool)
        ensures
            r == self.api_features@.contains(feature),
    {
        let mut i: usize = 0;
        while i < self.api_features.len()
            invariant
                i <= self.api_features@.len(),
                forall|j: int| 0 <= j < i ==> self.api_features@[j] != feature,
            decreases self.api_features@.len() - i,
        {
            if self.api_features[i] == feature {
                assert(self.api_features@.contains(feature));
                return true;
            }
            i = i + 1;
        }
        false
    }
}

/// Setup parameters of the layered replication proof.
#[derive(Clone, Debug, PartialEq, Eq)]
pub struct PoRepSetupParams {
    /// Number of 32-byte nodes per sector.
    pub nodes: usize,
    /// Base degree of the replication graph.
    pub degree: usize,
    /// Expansion degree of the replication graph.
    pub expansion_degree: usize,
    pub porep_id: [u8; 32],
    pub layer_challenges: LayerChallenges,
    pub api_version: ApiVersion,
    pub api_features: Vec<ApiFeature>,
}

} // verus!
