//! Challenge generator: derives deterministic per-sector, per-partition
//! Merkle-leaf challenge indices from a seed.
//!
//! Challenges are never transmitted: prover and verifier re-derive them
//! from the same inputs, so the derivation below calls the verifier's own
//! derivation functions and states their results exactly.

use std::collections::BTreeMap;

use vstd::prelude::*;

use filecoin_hashers::Domain;
use storage_proofs_post::fallback;

use crate::errors::PipelineError;
use crate::field::{as_safe_commitment, is_canonical, FieldElement};
use crate::types::{ApiVersion, PoStConfig, PoStType, PublicParams};

verus! {

/// The 8-byte little-endian integer drawn from the sha256 digest of
/// (seed bytes, sector id, challenge index) by the leaf challenge
/// derivation. A pure function of those inputs.
pub uninterp spec fn leaf_challenge_hash(
    randomness: Seq<u8>,
    sector_id: u64,
    challenge_index: u64,
) -> u64;

/// The challenge ordinal that selects a leaf for (sector, ordinal):
/// protocol versions before the newest spread ordinals across sectors,
/// the newest uses the per-sector ordinal alone.
pub open spec fn spec_challenge_index(
    v: ApiVersion,
    sector_index: int,
    challenge_count: int,
    n: int,
) -> u64 {
    match v {
        ApiVersion::V1_0_0 => (sector_index * challenge_count + n) as u64,
        ApiVersion::V1_1_0 => (sector_index * challenge_count + n) as u64,
        ApiVersion::V1_2_0 => n as u64,
    }
}

/// Relies on storage_proofs_post::fallback::get_challenge_index: by
/// protocol version, `sector_index * challenge_count + n` or `n`.
#[verifier::external_body]
fn get_challenge_index_ext(
    api_version: ApiVersion,
    sector_index: usize,
    challenge_count_per_sector: usize,
    challenge_index: usize,
) -> (r: u64)
    requires
        sector_index * challenge_count_per_sector + challenge_index <= usize::MAX,
    ensures
        r == spec_challenge_index(
            api_version,
            sector_index as int,
            challenge_count_per_sector as int,
            challenge_index as int,
        ),
{
    let v = match api_version {
        ApiVersion::V1_0_0 => storage_proofs_core::api_version::ApiVersion::V1_0_0,
        ApiVersion::V1_1_0 => storage_proofs_core::api_version::ApiVersion::V1_1_0,
        ApiVersion::V1_2_0 => storage_proofs_core::api_version::ApiVersion::V1_2_0,
    };
    fallback::get_challenge_index(v, sector_index, challenge_count_per_sector, challenge_index)
}

/// Relies on storage_proofs_post::fallback::generate_leaf_challenge: the
/// sha256 digest of (seed bytes, sector id, challenge index) read as a
/// little-endian integer, reduced modulo the sector's leaf count.
#[verifier::external_body]
fn generate_leaf_challenge_ext(
    pub_params: &PublicParams,
    randomness: &FieldElement,
    sector_id: u64,
    challenge_index: u64,
) -> (r: u64)
    requires
        randomness.wf(),
        pub_params.sector_size >= 32,
    ensures
        r == leaf_challenge_hash(randomness.bytes@, sector_id, challenge_index) % ((
        pub_params.sector_size / 32) as u64),
{
    let v = match pub_params.api_version {
        ApiVersion::V1_0_0 => storage_proofs_core::api_version::ApiVersion::V1_0_0,
        ApiVersion::V1_1_0 => storage_proofs_core::api_version::ApiVersion::V1_1_0,
        ApiVersion::V1_2_0 => storage_proofs_core::api_version::ApiVersion::V1_2_0,
    };
    let pp = fallback::PublicParams {
        sector_size: pub_params.sector_size,
        challenge_count: pub_params.challenge_count,
        sector_count: pub_params.sector_count,
        api_version: v,
    };
    let dom = <filecoin_hashers::poseidon::PoseidonHasher as filecoin_hashers::Hasher>::Domain::try_from_bytes(
        &randomness.bytes,
    ).expect("canonical field element");
    fallback::generate_leaf_challenge(&pp, dom, sector_id, challenge_index)
}

/// The challenge sequence derived for the sector with id `sector_id`
/// standing at flat position `global_index` of the sector list.
pub open spec fn spec_sector_challenges(
    config: PoStConfig,
    seed: Seq<u8>,
    sector_id: u64,
    global_index: int,
) -> Seq<u64> {
    Seq::new(
        config.challenge_count as nat,
        |n: int|
            (leaf_challenge_hash(
                seed,
                sector_id,
                spec_challenge_index(
                    config.api_version,
                    global_index,
                    config.challenge_count as int,
                    n,
                ),
            ) % ((config.sector_size / 32) as u64)) as u64,
    )
}

/// How many sectors of the list get challenges: a Winning proof has a
/// single partition, so only its first `sector_count` sectors are
/// reached; a Window proof covers the whole list.
pub open spec fn spec_processed(typ: PoStType, num_sectors: int, sector_count: int) -> int {
    if typ == PoStType::Winning {
        if num_sectors < sector_count {
            num_sectors
        } else {
            sector_count
        }
    } else {
        num_sectors
    }
}

/// `i` is the last position of its sector id within the first `bound`
/// positions of the list.
pub open spec fn last_occurrence(ids: Seq<u64>, i: int, bound: int) -> bool {
    forall|j: int| i < j < bound ==> ids[j] != ids[i]
}

/// Generate the leaf challenges per sector id for a Window or Winning
/// proof-of-spacetime: for the sector at flat position `i`, challenge
/// ordinal `n` selects leaf
/// `leaf_challenge_hash(seed, id, index(i, n)) % (sector_size / 32)`.
///
/// The map holds one entry per distinct processed sector id; an id that
/// repeats keeps the challenges of its last processed position.
pub fn generate_fallback_sector_challenges(
    post_config: &PoStConfig,
    randomness: &[u8; 32],
    pub_sectors: &Vec<u64>,
    _prover_id: [u8; 32],
) -> (r: Result<BTreeMap<u64, Vec<u64>>, PipelineError>)
    requires
        post_config.wf(),
        pub_sectors@.len() * post_config.challenge_count + post_config.challenge_count
            <= usize::MAX,
    ensures
        ({
            let processed = spec_processed(
                post_config.typ,
                pub_sectors@.len() as int,
                post_config.sector_count as int,
            );
            match r {
                Ok(m) => {
                    &&& is_canonical(randomness@)
                    &&& pub_sectors@.len() > 0
                    &&& m@.dom() == pub_sectors@.take(processed).to_set()
                    &&& forall|i: int|
                        0 <= i < processed && last_occurrence(pub_sectors@, i, processed)
                            ==> #[trigger] m@[pub_sectors@[i]]@ == spec_sector_challenges(
                            *post_config,
                            randomness@,
                            pub_sectors@[i],
                            i,
                        )
                },
                Err(e) => {
                    &&& (!is_canonical(randomness@) || pub_sectors@.len() == 0)
                    &&& e == if !is_canonical(randomness@) {
                        PipelineError::InvalidCommitment
                    } else {
                        PipelineError::InvalidInput
                    }
                },
            }
        }),
{
    let randomness_safe = as_safe_commitment(randomness)?;

    let pub_params = PublicParams {
        sector_size: post_config.sector_size,
        challenge_count: post_config.challenge_count,
        sector_count: post_config.sector_count,
        api_version: post_config.api_version,
    };

    let num = pub_sectors.len();
    if num == 0 {
        return Err(PipelineError::InvalidInput);
    }

    let processed = if post_config.typ == PoStType::Winning && num > post_config.sector_count {
        post_config.sector_count
    } else {
        num
    };

    let mut sector_challenges: BTreeMap<u64, Vec<u64>> = BTreeMap::new();
    proof {
        broadcast use vstd::laws_cmp::group_laws_cmp;

        assert(pub_sectors@.take(0).to_set() =~= Set::<u64>::empty());
    }
    let mut t: usize = 0;
    while t < processed
        invariant
            post_config.wf(),
            num == pub_sectors@.len(),
            processed == spec_processed(
                post_config.typ,
                pub_sectors@.len() as int,
                post_config.sector_count as int,
            ),
            processed <= num,
            t <= processed,
            num * post_config.challenge_count + post_config.challenge_count <= usize::MAX,
            randomness_safe.wf(),
            randomness_safe.bytes@ == randomness@,
            pub_params == (PublicParams {
                sector_size: post_config.sector_size,
                challenge_count: post_config.challenge_count,
                sector_count: post_config.sector_count,
                api_version: post_config.api_version,
            }),
            sector_challenges@.dom() == pub_sectors@.take(t as int).to_set(),
            forall|i: int|
                0 <= i < t && last_occurrence(pub_sectors@, i, t as int)
                    ==> #[trigger] sector_challenges@[pub_sectors@[i]]@ == spec_sector_challenges(
                    *post_config,
                    randomness@,
                    pub_sectors@[i],
                    i,
                ),
        decreases processed - t,
    {
        let sector = pub_sectors[t];
        let ghost spec_chals = spec_sector_challenges(*post_config, randomness@, sector, t as int);
        let mut challenges: Vec<u64> = Vec::new();
        let mut n: usize = 0;
        while n < post_config.challenge_count
            invariant
                post_config.wf(),
                t < num,
                num == pub_sectors@.len(),
                num * post_config.challenge_count + post_config.challenge_count <= usize::MAX,
                sector == pub_sectors@[t as int],
                randomness_safe.wf(),
                randomness_safe.bytes@ == randomness@,
                pub_params == (PublicParams {
                    sector_size: post_config.sector_size,
                    challenge_count: post_config.challenge_count,
                    sector_count: post_config.sector_count,
                    api_version: post_config.api_version,
                }),
                spec_chals == spec_sector_challenges(*post_config, randomness@, sector, t as int),
                n <= post_config.challenge_count,
                challenges@ == spec_chals.take(n as int),
            decreases post_config.challenge_count - n,
        {
            proof {
                assert((t as int) * post_config.challenge_count + n < num
                    * post_config.challenge_count + post_config.challenge_count)
                    by (nonlinear_arith)
                    requires
                        t < num,
                        n < post_config.challenge_count,
                        post_config.challenge_count >= 1,
                ;
            }
            let challenge_index = get_challenge_index_ext(
                post_config.api_version,
                t,
                post_config.challenge_count,
                n,
            );
            let challenged_leaf = generate_leaf_challenge_ext(
                &pub_params,
                &randomness_safe,
                sector,
                challenge_index,
            );
            challenges.push(challenged_leaf);
            proof {
                assert(challenges@ =~= spec_chals.take(n as int + 1));
            }
            n = n + 1;
        }
        proof {
            assert(challenges@ =~= spec_chals);
            broadcast use vstd::laws_cmp::group_laws_cmp;

        }
        let ghost old_map = sector_challenges@;
        sector_challenges.insert(sector, challenges);
        proof {
            assert(sector_challenges@ == old_map.insert(sector, challenges));
            assert(pub_sectors@.take(t as int + 1) =~= pub_sectors@.take(t as int).push(sector));
            let tk1 = pub_sectors@.take(t as int + 1);
            let tk0 = pub_sectors@.take(t as int);
            assert forall|y: u64| tk1.to_set().contains(y)
                <==> sector_challenges@.dom().contains(y) by {
                if tk1.contains(y) {
                    let j = choose|j: int| 0 <= j < tk1.len() && #[trigger] tk1[j] == y;
                    if j < t {
                        assert(tk0[j] == y);
                        assert(tk0.contains(y));
                    }
                }
                if sector_challenges@.dom().contains(y) {
                    if y == sector {
                        assert(tk1[t as int] == y);
                    } else {
                        assert(old_map.dom().contains(y));
                        assert(tk0.contains(y));
                        let j = choose|j: int| 0 <= j < tk0.len() && #[trigger] tk0[j] == y;
                        assert(tk1[j] == y);
                    }
                }
            }
            assert(sector_challenges@.dom() =~= pub_sectors@.take(t as int + 1).to_set());
        }
        t = t + 1;
    }
    Ok(sector_challenges)
}

} // verus!
