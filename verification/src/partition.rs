//! Partitioning engine: reshapes a flat collection of per-sector vanilla
//! proofs into fixed-size, circuit-shaped partitions, padding by
//! last-entry duplication as the circuit arity requires.
//!
//! The engine is generic over the inclusion-proof payload `P` (the
//! pre-SNARK Merkle inclusion proof, opaque here); it only arranges,
//! duplicates and counts payloads, and never invents one. The
//! self-verification step runs through `confirm_partition_proof`: the
//! caller runs the external proof-scheme checker on an assembled
//! partition and hands its verdict back, and a partition is returned
//! only with a passing verdict.

use vstd::prelude::*;

use crate::errors::PipelineError;
use crate::types::{PoStConfig, PoStType, PublicParams};

verus! {

/// One or more Merkle inclusion proofs for a single sector, with the
/// sector's auxiliary commitments.
#[derive(Clone, Debug)]
pub struct SectorProofData<P> {
    pub inclusion_proofs: Vec<P>,
    pub comm_c: [u8; 32],
    pub comm_r_last: [u8; 32],
}

/// The value of a sector proof: its payloads and commitments.
#[verifier::ext_equal]
pub ghost struct SpdView<P> {
    pub inclusion_proofs: Seq<P>,
    pub comm_c: [u8; 32],
    pub comm_r_last: [u8; 32],
}

/// The value of a sector proof: its payloads and commitments.
pub open spec fn spd_view<P>(s: SectorProofData<P>) -> SpdView<P> {
    SpdView {
        inclusion_proofs: s.inclusion_proofs@,
        comm_c: s.comm_c,
        comm_r_last: s.comm_r_last,
    }
}

/// The values of a row of sector proofs.
pub open spec fn sector_views<P>(s: Seq<SectorProofData<P>>) -> Seq<SpdView<P>> {
    s.map_values(|x: SectorProofData<P>| spd_view(x))
}

/// Appending a sector proof appends its value.
proof fn lemma_sector_views_push<P>(s: Seq<SectorProofData<P>>, e: SectorProofData<P>)
    ensures
        sector_views(s.push(e)) == sector_views(s).push(spd_view(e)),
{
    assert forall|i: int| 0 <= i < s.len() + 1 implies #[trigger] sector_views(s.push(e))[i]
        == sector_views(s).push(spd_view(e))[i] by {
        if i < s.len() {
            assert(s.push(e)[i] == s[i]);
            assert(sector_views(s)[i] == spd_view(s[i]));
        }
    }
    assert(sector_views(s.push(e)) =~= sector_views(s).push(spd_view(e)));
}

/// All vanilla sector proofs of one sector, keyed by its id.
#[derive(Clone, Debug)]
pub struct FallbackSectorProofs<P> {
    pub sector_id: u64,
    pub comm_r: [u8; 32],
    pub sector_proofs: Vec<SectorProofData<P>>,
}

/// One circuit-shaped partition: an ordered row of sector proofs whose
/// exact length the circuit mandates.
#[derive(Clone, Debug)]
pub struct VanillaProof<P> {
    pub sectors: Vec<SectorProofData<P>>,
}

/// A challenged sector as the verifier sees it.
#[derive(Clone, Copy, Debug)]
pub struct PublicSector {
    pub id: u64,
    pub comm_r: [u8; 32],
}

/// Public inputs of one proof call: the seed, the prover, the challenged
/// sectors, and (for a single partition) the partition index.
#[derive(Clone, Debug)]
pub struct PublicInputs {
    pub randomness: [u8; 32],
    pub prover_id: [u8; 32],
    pub sectors: Vec<PublicSector>,
    pub k: Option<usize>,
}

/// Index of the first proof carrying `id`, or -1.
pub open spec fn find_idx<P>(proofs: Seq<FallbackSectorProofs<P>>, id: u64) -> int
    decreases proofs.len(),
{
    if proofs.len() == 0 {
        -1
    } else if proofs[0].sector_id == id {
        0
    } else {
        let r = find_idx(proofs.drop_first(), id);
        if r < 0 {
            -1
        } else {
            r + 1
        }
    }
}

/// `find_idx` returns exactly the first matching position.
proof fn lemma_find_idx_first<P>(proofs: Seq<FallbackSectorProofs<P>>, id: u64, i: int)
    requires
        0 <= i < proofs.len(),
        proofs[i].sector_id == id,
        forall|m: int| 0 <= m < i ==> proofs[m].sector_id != id,
    ensures
        find_idx(proofs, id) == i,
    decreases proofs.len(),
{
    if i == 0 {
    } else {
        assert(proofs[0].sector_id != id);
        lemma_find_idx_first(proofs.drop_first(), id, i - 1);
    }
}

/// When no proof matches, `find_idx` reports -1.
proof fn lemma_find_idx_none<P>(proofs: Seq<FallbackSectorProofs<P>>, id: u64)
    requires
        forall|m: int| 0 <= m < proofs.len() ==> proofs[m].sector_id != id,
    ensures
        find_idx(proofs, id) == -1,
    decreases proofs.len(),
{
    if proofs.len() > 0 {
        lemma_find_idx_none(proofs.drop_first(), id);
    }
}

/// Locate the vanilla proof for a sector id: the first match.
fn find_proof<P>(proofs: &Vec<FallbackSectorProofs<P>>, id: u64) -> (r: Option<usize>)
    ensures
        match r {
            Some(i) => i == find_idx(proofs@, id) && i < proofs@.len() && proofs@[i as int].sector_id
                == id,
            None => find_idx(proofs@, id) == -1,
        },
{
    let mut i: usize = 0;
    while i < proofs.len()
        invariant
            i <= proofs@.len(),
            forall|m: int| 0 <= m < i ==> proofs@[m].sector_id != id,
        decreases proofs@.len() - i,
    {
        if proofs[i].sector_id == id {
            proof {
                lemma_find_idx_first(proofs@, id, i as int);
            }
            return Some(i);
        }
        i = i + 1;
    }
    proof {
        lemma_find_idx_none(proofs@, id);
    }
    None
}

/// The flat row a Window partition is built from: for each public sector
/// of the chunk, in order, all sector proofs of its vanilla proof.
pub open spec fn window_flat<P>(
    ids: Seq<PublicSector>,
    proofs: Seq<FallbackSectorProofs<P>>,
) -> Seq<SpdView<P>>
    decreases ids.len(),
{
    if ids.len() == 0 {
        Seq::empty()
    } else {
        window_flat(ids.drop_last(), proofs) + sector_views(
            proofs[find_idx(proofs, ids.last().id)].sector_proofs@,
        )
    }
}

/// Every public sector of the chunk has a vanilla proof.
pub open spec fn all_found<P>(
    ids: Seq<PublicSector>,
    proofs: Seq<FallbackSectorProofs<P>>,
) -> bool {
    forall|i: int| 0 <= i < ids.len() ==> find_idx(proofs, (#[trigger] ids[i]).id) >= 0
}

/// The shape a Winning proof-of-spacetime demands of its input: exactly
/// one vanilla proof holding exactly one sector proof, and a sector count
/// of one (the sector count doubles as the per-sector challenge proxy).
pub open spec fn winning_shape_ok<P>(
    config: PoStConfig,
    proofs: Seq<FallbackSectorProofs<P>>,
) -> bool {
    &&& proofs.len() == 1
    &&& proofs[0].sector_proofs@.len() == 1
    &&& config.sector_count == 1
}

/// The row a Winning partition is built from: one synthetic sector proof
/// per inclusion proof of `src`, sharing its commitments.
pub open spec fn winning_unrolled<P>(src: SectorProofData<P>) -> Seq<SpdView<P>> {
    Seq::new(
        src.inclusion_proofs@.len(),
        |i: int|
            (SpdView {
                inclusion_proofs: seq![src.inclusion_proofs@[i]],
                comm_c: src.comm_c,
                comm_r_last: src.comm_r_last,
            }),
    )
}

/// Length of a Winning partition after padding: the unrolled row,
/// stretched to the circuit arity where short.
pub open spec fn winning_padded_len<P>(
    proofs: Seq<FallbackSectorProofs<P>>,
    chunk: int,
) -> int {
    let n = winning_unrolled(proofs[0].sector_proofs@[0]).len() as int;
    if n >= chunk {
        n
    } else {
        chunk
    }
}

/// A row padded to `n` entries by repeating its last entry. The genuine
/// prefix is kept unchanged, in order.
pub open spec fn pad_with_last<T>(s: Seq<T>, n: int) -> Seq<T> {
    if s.len() >= n {
        s
    } else {
        s + Seq::new((n - s.len()) as nat, |i: int| s.last())
    }
}

/// Padding never disturbs the genuine entries: the first `k` entries of
/// the padded row are the `k` real entries in their original order, and
/// every padding entry repeats the last real one.
pub proof fn lemma_pad_keeps_genuine<T>(s: Seq<T>, n: int)
    requires
        s.len() >= 1,
    ensures
        pad_with_last(s, n).len() >= s.len(),
        forall|i: int| 0 <= i < s.len() ==> #[trigger] pad_with_last(s, n)[i] == s[i],
        forall|i: int|
            s.len() <= i < pad_with_last(s, n).len() ==> #[trigger] pad_with_last(s, n)[i]
                == s.last(),
{
}

/// Assemble one partition of a Window or Winning proof-of-spacetime.
///
/// Window: for each public sector of this partition's chunk, all of that
/// sector's inclusion proofs are appended in order, then the row is
/// padded to `pub_params.sector_count` by duplicating its last entry.
///
/// Winning: the single vanilla proof's single sector proof is unrolled,
/// one synthetic sector proof per inclusion proof (sharing the sector's
/// commitments), padded the same way; the result must have exactly
/// `post_config.challenge_count` entries.
///
/// The assembled partition still owes the external self-check: pass it
/// through `confirm_partition_proof` with the external checker's verdict.
pub fn single_partition_vanilla_proofs<P: Copy>(
    post_config: &PoStConfig,
    pub_params: &PublicParams,
    pub_inputs: &PublicInputs,
    vanilla_proofs: &Vec<FallbackSectorProofs<P>>,
) -> (r: Result<VanillaProof<P>, PipelineError>)
    requires
        post_config.wf(),
        pub_params.sector_count >= 1,
        post_config.typ == PoStType::Winning && pub_inputs.k is Some ==> pub_inputs.k
            == Some(0usize),
        post_config.typ == PoStType::Window && pub_inputs.k is Some && pub_inputs.sectors@.len()
            <= pub_params.sector_count && all_found(pub_inputs.sectors@, vanilla_proofs@)
            ==> window_flat(pub_inputs.sectors@, vanilla_proofs@).len() >= 1,
        post_config.typ == PoStType::Winning && vanilla_proofs@.len() == 1 && vanilla_proofs@[0].sector_proofs@.len()
            == 1 ==> vanilla_proofs@[0].sector_proofs@[0].inclusion_proofs@.len() >= 1,
    ensures
        match r {
            Ok(proof) => {
                &&& pub_inputs.k is Some
                &&& pub_inputs.sectors@.len() <= pub_params.sector_count
                &&& post_config.typ == PoStType::Window ==> {
                    let flat = window_flat(pub_inputs.sectors@, vanilla_proofs@);
                    &&& all_found(pub_inputs.sectors@, vanilla_proofs@)
                    &&& proof.sectors@.len() == pad_with_last(
                        flat,
                        pub_params.sector_count as int,
                    ).len()
                    &&& flat.len() <= pub_params.sector_count ==> proof.sectors@.len()
                        == pub_params.sector_count
                    &&& sector_views(proof.sectors@) == pad_with_last(
                        flat,
                        pub_params.sector_count as int,
                    )
                }
                &&& post_config.typ == PoStType::Winning ==> {
                    &&& winning_shape_ok(*post_config, vanilla_proofs@)
                    &&& proof.sectors@.len() == post_config.challenge_count
                    &&& sector_views(proof.sectors@) == pad_with_last(
                        winning_unrolled(vanilla_proofs@[0].sector_proofs@[0]),
                        pub_params.sector_count as int,
                    )
                }
            },
            Err(e) => {
                ||| e == PipelineError::MissingPartitionIndex && pub_inputs.k is None
                ||| e == (PipelineError::CapacityExceeded {
                    num_sectors: pub_inputs.sectors@.len() as usize,
                    capacity: pub_params.sector_count,
                }) && pub_inputs.sectors@.len() > pub_params.sector_count && pub_inputs.k is Some
                ||| post_config.typ == PoStType::Window && pub_inputs.k is Some
                    && pub_inputs.sectors@.len() <= pub_params.sector_count && exists|i: int|
                    0 <= i < pub_inputs.sectors@.len() && e == (PipelineError::SectorProofNotFound {
                        sector_id: (#[trigger] pub_inputs.sectors@[i]).id,
                    }) && find_idx(vanilla_proofs@, pub_inputs.sectors@[i].id) == -1
                ||| post_config.typ == PoStType::Winning && pub_inputs.k is Some
                    && pub_inputs.sectors@.len() <= pub_params.sector_count && e
                    == PipelineError::InvalidInput && !winning_shape_ok(
                    *post_config,
                    vanilla_proofs@,
                )
                ||| post_config.typ == PoStType::Winning && pub_inputs.k is Some
                    && pub_inputs.sectors@.len() <= pub_params.sector_count && winning_shape_ok(
                    *post_config,
                    vanilla_proofs@,
                ) && e == (PipelineError::ShapeMismatch {
                    expected: post_config.challenge_count,
                    actual: winning_padded_len(
                        vanilla_proofs@,
                        pub_params.sector_count as int,
                    ) as usize,
                }) && winning_padded_len(vanilla_proofs@, pub_params.sector_count as int)
                    != post_config.challenge_count
            },
        },
{
    if pub_inputs.k.is_none() {
        return Err(PipelineError::MissingPartitionIndex);
    }

    let num_sectors_per_chunk = pub_params.sector_count;
    let num_sectors = pub_inputs.sectors.len();
    if num_sectors > num_sectors_per_chunk {
        return Err(
            PipelineError::CapacityExceeded {
                num_sectors,
                capacity: num_sectors_per_chunk,
            },
        );
    }

    let mut sector_proofs: Vec<SectorProofData<P>> = Vec::new();

    match post_config.typ {
        PoStType::Window => {
            let mut j: usize = 0;
            proof {
                assert(pub_inputs.sectors@.take(0) =~= Seq::<PublicSector>::empty());
                assert(sector_views(sector_proofs@) =~~= window_flat(
                    pub_inputs.sectors@.take(0),
                    vanilla_proofs@,
                ));
            }
            while j < num_sectors
                invariant
                    post_config.typ == PoStType::Window,
                    pub_inputs.k is Some,
                    num_sectors_per_chunk == pub_params.sector_count,
                    num_sectors <= num_sectors_per_chunk,
                    num_sectors == pub_inputs.sectors@.len(),
                    j <= num_sectors,
                    forall|i: int|
                        0 <= i < j ==> find_idx(vanilla_proofs@, (#[trigger] pub_inputs.sectors@[i]).id)
                            >= 0,
                    sector_views(sector_proofs@) == window_flat(
                        pub_inputs.sectors@.take(j as int),
                        vanilla_proofs@,
                    ),
                decreases num_sectors - j,
            {
                let pub_sector = pub_inputs.sectors[j];
                let pi = match find_proof(vanilla_proofs, pub_sector.id) {
                    Some(pi) => pi,
                    None => {
                        return Err(
                            PipelineError::SectorProofNotFound { sector_id: pub_sector.id },
                        );
                    },
                };
                let cur = &vanilla_proofs[pi];
                let mut m: usize = 0;
                while m < cur.sector_proofs.len()
                    invariant
                        num_sectors == pub_inputs.sectors@.len(),
                        j < num_sectors,
                        pub_sector == pub_inputs.sectors@[j as int],
                        pi == find_idx(vanilla_proofs@, pub_sector.id),
                        0 <= pi < vanilla_proofs@.len(),
                        cur == vanilla_proofs@[pi as int],
                        m <= cur.sector_proofs@.len(),
                        sector_views(sector_proofs@) == window_flat(
                            pub_inputs.sectors@.take(j as int),
                            vanilla_proofs@,
                        ) + sector_views(cur.sector_proofs@.take(m as int)),
                    decreases cur.sector_proofs@.len() - m,
                {
                    let entry = copy_sector_proof(&cur.sector_proofs[m]);
                    let ghost prev = sector_proofs@;
                    sector_proofs.push(entry);
                    proof {
                        let w = window_flat(pub_inputs.sectors@.take(j as int), vanilla_proofs@);
                        lemma_sector_views_push(prev, entry);
                        assert(cur.sector_proofs@.take(m as int + 1) =~= cur.sector_proofs@.take(
                            m as int,
                        ).push(cur.sector_proofs@[m as int]));
                        lemma_sector_views_push(
                            cur.sector_proofs@.take(m as int),
                            cur.sector_proofs@[m as int],
                        );
                        assert((w + sector_views(cur.sector_proofs@.take(m as int))).push(
                            spd_view(entry),
                        ) =~= w + sector_views(cur.sector_proofs@.take(m as int + 1)));
                    }
                    m = m + 1;
                }
                proof {
                    let t1 = pub_inputs.sectors@.take(j as int + 1);
                    assert(t1.drop_last() =~= pub_inputs.sectors@.take(j as int));
                    assert(t1.last() == pub_inputs.sectors@[j as int]);
                    assert(cur.sector_proofs@.take(m as int) =~= cur.sector_proofs@);
                    assert(sector_views(sector_proofs@) =~~= window_flat(t1, vanilla_proofs@));
                }
                j = j + 1;
            }
            proof {
                assert(pub_inputs.sectors@.take(num_sectors as int) =~= pub_inputs.sectors@);
            }
        },
        PoStType::Winning => {
            if vanilla_proofs.len() != 1 {
                return Err(PipelineError::InvalidInput);
            }
            if vanilla_proofs[0].sector_proofs.len() != 1 {
                return Err(PipelineError::InvalidInput);
            }
            if post_config.sector_count != vanilla_proofs[0].sector_proofs.len() {
                return Err(PipelineError::InvalidInput);
            }
            let cur_sector_proof = &vanilla_proofs[0].sector_proofs[0];
            let ghost unrolled = Seq::new(
                cur_sector_proof.inclusion_proofs@.len(),
                |i: int|
                    (SpdView {
                        inclusion_proofs: seq![cur_sector_proof.inclusion_proofs@[i]],
                        comm_c: cur_sector_proof.comm_c,
                        comm_r_last: cur_sector_proof.comm_r_last,
                    }),
            );
            let mut m: usize = 0;
            while m < cur_sector_proof.inclusion_proofs.len()
                invariant
                    cur_sector_proof == vanilla_proofs@[0].sector_proofs@[0],
                    unrolled == Seq::new(
                        cur_sector_proof.inclusion_proofs@.len(),
                        |i: int|
                            (SpdView {
                                inclusion_proofs: seq![cur_sector_proof.inclusion_proofs@[i]],
                                comm_c: cur_sector_proof.comm_c,
                                comm_r_last: cur_sector_proof.comm_r_last,
                            }),
                    ),
                    m <= cur_sector_proof.inclusion_proofs@.len(),
                    sector_views(sector_proofs@) == unrolled.take(m as int),
                decreases cur_sector_proof.inclusion_proofs@.len() - m,
            {
                let ip = cur_sector_proof.inclusion_proofs[m];
                let mut one: Vec<P> = Vec::new();
                one.push(ip);
                let entry = SectorProofData {
                    inclusion_proofs: one,
                    comm_c: cur_sector_proof.comm_c,
                    comm_r_last: cur_sector_proof.comm_r_last,
                };
                let ghost prev = sector_proofs@;
                sector_proofs.push(entry);
                proof {
                    lemma_sector_views_push(prev, entry);
                    assert(entry.inclusion_proofs@ =~= seq![
                        cur_sector_proof.inclusion_proofs@[m as int],
                    ]);
                    assert(spd_view(entry) =~~= unrolled[m as int]);
                    assert(sector_views(sector_proofs@) =~= unrolled.take(m as int + 1));
                }
                m = m + 1;
            }
            proof {
                assert(unrolled.take(unrolled.len() as int) =~= unrolled);
                assert(unrolled =~~= winning_unrolled(vanilla_proofs@[0].sector_proofs@[0]));
                assert(sector_views(sector_proofs@) == winning_unrolled(
                    vanilla_proofs@[0].sector_proofs@[0],
                ));
            }
        },
    }

    let ghost flat = sector_views(sector_proofs@);
    proof {
        assert(sector_proofs@.len() >= 1);
        assert(pad_with_last(flat, flat.len() as int) == flat);
    }

    while sector_proofs.len() < num_sectors_per_chunk
        invariant
            num_sectors_per_chunk >= 1,
            sector_proofs@.len() >= 1,
            flat.len() >= 1,
            sector_proofs@.len() <= num_sectors_per_chunk || sector_proofs@.len() == flat.len(),
            sector_views(sector_proofs@) == pad_with_last(flat, sector_proofs@.len() as int),
        decreases num_sectors_per_chunk - sector_proofs@.len(),
    {
        let last = copy_sector_proof(&sector_proofs[sector_proofs.len() - 1]);
        let ghost prev = sector_proofs@;
        sector_proofs.push(last);
        proof {
            let n = prev.len() as int;
            lemma_sector_views_push(prev, last);
            assert(sector_views(prev)[n - 1] == spd_view(prev[n - 1]));
            assert(spd_view(last) == pad_with_last(flat, n)[n - 1]);
            assert(n >= flat.len());
            assert(pad_with_last(flat, n).push(flat.last()) =~= pad_with_last(flat, n + 1));
            assert(spd_view(last) == flat.last());
            assert(sector_views(sector_proofs@) == pad_with_last(
                flat,
                sector_proofs@.len() as int,
            ));
        }
    }

    proof {
        assert(pad_with_last(flat, sector_proofs@.len() as int).len() == sector_proofs@.len());
        assert(flat.len() <= sector_proofs@.len());
        if post_config.typ == PoStType::Winning {
            assert(flat == winning_unrolled(vanilla_proofs@[0].sector_proofs@[0]));
            assert(sector_proofs@.len() == winning_padded_len(
                vanilla_proofs@,
                num_sectors_per_chunk as int,
            ));
        }
    }
    if post_config.typ == PoStType::Winning {
        if sector_proofs.len() != post_config.challenge_count {
            return Err(
                PipelineError::ShapeMismatch {
                    expected: post_config.challenge_count,
                    actual: sector_proofs.len(),
                },
            );
        }
    }

    proof {
        if flat.len() >= num_sectors_per_chunk {
            assert(pad_with_last(flat, num_sectors_per_chunk as int) == flat);
        } else {
            assert(sector_proofs@.len() == num_sectors_per_chunk);
        }
        assert(sector_views(sector_proofs@) == pad_with_last(
            flat,
            num_sectors_per_chunk as int,
        ));
    }

    Ok(VanillaProof { sectors: sector_proofs })
}

/// A fresh sector proof with the same payloads and commitments.
fn copy_sector_proof<P: Copy>(s: &SectorProofData<P>) -> (r: SectorProofData<P>)
    ensures
        spd_view(r) == spd_view(*s),
{
    let mut inclusion_proofs: Vec<P> = Vec::new();
    let mut i: usize = 0;
    while i < s.inclusion_proofs.len()
        invariant
            i <= s.inclusion_proofs@.len(),
            inclusion_proofs@ == s.inclusion_proofs@.take(i as int),
        decreases s.inclusion_proofs@.len() - i,
    {
        inclusion_proofs.push(s.inclusion_proofs[i]);
        proof {
            assert(inclusion_proofs@ =~= s.inclusion_proofs@.take(i as int + 1));
        }
        i = i + 1;
    }
    proof {
        assert(s.inclusion_proofs@.take(s.inclusion_proofs@.len() as int) =~= s.inclusion_proofs@);
    }
    SectorProofData { inclusion_proofs, comm_c: s.comm_c, comm_r_last: s.comm_r_last }
}


/// `find_idx` stays within the proof list.
proof fn lemma_find_idx_range<P>(proofs: Seq<FallbackSectorProofs<P>>, id: u64)
    ensures
        -1 <= find_idx(proofs, id) < proofs.len(),
    decreases proofs.len(),
{
    if proofs.len() > 0 {
        lemma_find_idx_range(proofs.drop_first(), id);
    }
}

/// A nonempty chunk whose sectors all have vanilla proofs, each carrying
/// at least one sector proof, flattens to at least one entry.
proof fn lemma_window_flat_nonempty<P>(
    ids: Seq<PublicSector>,
    proofs: Seq<FallbackSectorProofs<P>>,
)
    requires
        ids.len() >= 1,
        all_found(ids, proofs),
        forall|p: int| 0 <= p < proofs.len() ==> (#[trigger] proofs[p]).sector_proofs@.len() >= 1,
    ensures
        window_flat(ids, proofs).len() >= 1,
{
    assert(find_idx(proofs, ids[ids.len() - 1].id) >= 0);
    lemma_find_idx_range(proofs, ids.last().id);
}

/// How many partitions a fallback proof-of-spacetime uses for the given
/// number of sectors: the ceiling of `num_sectors / sector_count` (at
/// least one) for Window, always one for Winning.
pub open spec fn spec_partitions(typ: PoStType, num_sectors: int, sector_count: int) -> int {
    if typ == PoStType::Winning {
        1
    } else {
        let c = num_sectors / sector_count + if num_sectors % sector_count == 0 {
            0int
        } else {
            1int
        };
        if c > 1 {
            c
        } else {
            1
        }
    }
}

/// Number of `sector_count`-sized chunks the list splits into: the
/// ceiling of `len / sector_count`.
pub open spec fn spec_chunks(len: int, sector_count: int) -> int {
    len / sector_count + if len % sector_count == 0 {
        0int
    } else {
        1int
    }
}


/// Ceiling division by the sector count.
fn ceil_div(n: usize, sc: usize) -> (r: usize)
    requires
        sc >= 1,
    ensures
        r == spec_chunks(n as int, sc as int),
{
    let q = n / sc;
    if n % sc == 0 {
        q
    } else {
        proof {
            assert(sc >= 2) by {
                if sc == 1 {
                    assert(n % 1 == 0) by (nonlinear_arith);
                }
            }
            vstd::arithmetic::div_mod::lemma_fundamental_div_mod(n as int, sc as int);
            assert(2 * q <= n) by (nonlinear_arith)
                requires
                    sc >= 2,
                    n == sc * q + n % sc,
                    n % sc >= 0,
                    q >= 0,
            ;
        }
        q + 1
    }
}

/// The partition count a Window proof-of-spacetime would use, reported
/// only when it exceeds one.
pub fn get_partitions_for_window_post(total_sector_count: usize, post_config: &PoStConfig) -> (r:
    Option<usize>)
    requires
        post_config.wf(),
    ensures
        ({
            let c = spec_chunks(total_sector_count as int, post_config.sector_count as int);
            if c > 1 {
                r == Some(c as usize)
            } else {
                r is None
            }
        }),
{
    let partitions = ceil_div(total_sector_count, post_config.sector_count);
    if partitions > 1 {
        Some(partitions)
    } else {
        None
    }
}

/// Number of partitions for a fallback proof-of-spacetime: the ceiling
/// of `num_sectors / sector_count` for Window (at least one), one for
/// Winning.
pub fn get_num_partition_for_fallback_post(config: &PoStConfig, num_sectors: usize) -> (r: usize)
    requires
        config.wf(),
    ensures
        r == spec_partitions(config.typ, num_sectors as int, config.sector_count as int),
{
    match config.typ {
        PoStType::Window => {
            let partitions = ceil_div(num_sectors, config.sector_count);
            if partitions > 1 {
                partitions
            } else {
                1
            }
        },
        PoStType::Winning => 1,
    }
}

/// Wrap a sector's freshly built inclusion proofs with its id and its
/// replica commitment. The commitment must be field-canonical: a replica
/// whose commitment does not decode is reported as a replica access
/// failure naming the sector.
pub fn generate_single_vanilla_proof<P: Copy>(
    sector_id: u64,
    comm_r: &[u8; 32],
    sector_proofs: Vec<SectorProofData<P>>,
) -> (r: Result<FallbackSectorProofs<P>, PipelineError>)
    ensures
        match r {
            Ok(p) => {
                &&& crate::field::is_canonical(comm_r@)
                &&& p.sector_id == sector_id
                &&& p.comm_r@ == comm_r@
                &&& p.sector_proofs == sector_proofs
            },
            Err(e) => {
                &&& !crate::field::is_canonical(comm_r@)
                &&& e == (PipelineError::ReplicaAccess { sector_id })
            },
        },
{
    let safe = match crate::field::as_safe_commitment(comm_r) {
        Ok(safe) => safe,
        Err(_) => {
            return Err(PipelineError::ReplicaAccess { sector_id });
        },
    };
    Ok(FallbackSectorProofs { sector_id, comm_r: safe.bytes, sector_proofs })
}

/// The chunk of sectors that partition `j` of a Window proof covers.
pub open spec fn window_chunk(sectors: Seq<PublicSector>, sector_count: int, j: int) -> Seq<
    PublicSector,
> {
    sectors.subrange(
        j * sector_count,
        if (j + 1) * sector_count <= sectors.len() {
            (j + 1) * sector_count
        } else {
            sectors.len() as int
        },
    )
}

/// Partition a flat collection of vanilla sector proofs into
/// circuit-shaped partitions.
///
/// Window: the public sectors are split into `sector_count`-sized
/// chunks, one partition per chunk, each assembled and padded as
/// `single_partition_vanilla_proofs` states. Winning: the vanilla proofs
/// themselves form a single chunk.
///
/// The assembled set still owes the external whole-set self-check: pass
/// it through `confirm_proof_set` with the external checker's verdict.
pub fn partition_vanilla_proofs<P: Copy>(
    post_config: &PoStConfig,
    pub_params: &PublicParams,
    pub_inputs: &PublicInputs,
    partition_count: usize,
    vanilla_proofs: &Vec<FallbackSectorProofs<P>>,
) -> (r: Result<Vec<VanillaProof<P>>, PipelineError>)
    requires
        post_config.wf(),
        pub_params.sector_count >= 1,
        pub_inputs.sectors@.len() + pub_params.sector_count <= usize::MAX,
        partition_count * pub_params.sector_count <= usize::MAX,
        forall|p: int|
            0 <= p < vanilla_proofs@.len() ==> (#[trigger] vanilla_proofs@[p]).sector_proofs@.len()
                >= 1,
        post_config.typ == PoStType::Winning ==> vanilla_proofs@.len()
            <= pub_params.sector_count,
        post_config.typ == PoStType::Winning && vanilla_proofs@.len() == 1
            && vanilla_proofs@[0].sector_proofs@.len() == 1
            ==> vanilla_proofs@[0].sector_proofs@[0].inclusion_proofs@.len() >= 1,
    ensures
        match r {
            Ok(v) => {
                &&& pub_inputs.sectors@.len() <= partition_count * pub_params.sector_count
                &&& post_config.typ == PoStType::Window ==> {
                    &&& v@.len() == spec_chunks(
                        pub_inputs.sectors@.len() as int,
                        pub_params.sector_count as int,
                    )
                    &&& all_found(pub_inputs.sectors@, vanilla_proofs@)
                    &&& forall|j: int|
                        0 <= j < v@.len() ==> sector_views((#[trigger] v@[j]).sectors@)
                            == pad_with_last(
                            window_flat(
                                window_chunk(
                                    pub_inputs.sectors@,
                                    pub_params.sector_count as int,
                                    j,
                                ),
                                vanilla_proofs@,
                            ),
                            pub_params.sector_count as int,
                        )
                }
                &&& post_config.typ == PoStType::Winning ==> {
                    &&& v@.len() == spec_chunks(
                        vanilla_proofs@.len() as int,
                        pub_params.sector_count as int,
                    )
                    &&& vanilla_proofs@.len() >= 1 ==> {
                        &&& winning_shape_ok(*post_config, vanilla_proofs@)
                        &&& v@.len() == 1
                        &&& v@[0].sectors@.len() == post_config.challenge_count
                        &&& sector_views(v@[0].sectors@) == pad_with_last(
                            winning_unrolled(vanilla_proofs@[0].sector_proofs@[0]),
                            pub_params.sector_count as int,
                        )
                    }
                }
            },
            Err(e) => {
                ||| e == (PipelineError::CapacityExceeded {
                    num_sectors: pub_inputs.sectors@.len() as usize,
                    capacity: (partition_count * pub_params.sector_count) as usize,
                }) && pub_inputs.sectors@.len() > partition_count * pub_params.sector_count
                ||| post_config.typ == PoStType::Window && pub_inputs.sectors@.len()
                    <= partition_count * pub_params.sector_count && exists|i: int|
                    0 <= i < pub_inputs.sectors@.len() && e == (PipelineError::SectorProofNotFound {
                        sector_id: (#[trigger] pub_inputs.sectors@[i]).id,
                    }) && find_idx(vanilla_proofs@, pub_inputs.sectors@[i].id) == -1
                ||| post_config.typ == PoStType::Winning && pub_inputs.sectors@.len()
                    <= partition_count * pub_params.sector_count && e
                    == (PipelineError::CapacityExceeded {
                    num_sectors: pub_inputs.sectors@.len() as usize,
                    capacity: pub_params.sector_count,
                }) && pub_inputs.sectors@.len() > pub_params.sector_count
                ||| post_config.typ == PoStType::Winning && pub_inputs.sectors@.len()
                    <= pub_params.sector_count && e == PipelineError::InvalidInput
                    && !winning_shape_ok(*post_config, vanilla_proofs@)
                ||| post_config.typ == PoStType::Winning && pub_inputs.sectors@.len()
                    <= pub_params.sector_count && winning_shape_ok(*post_config, vanilla_proofs@)
                    && e == (PipelineError::ShapeMismatch {
                    expected: post_config.challenge_count,
                    actual: winning_padded_len(
                        vanilla_proofs@,
                        pub_params.sector_count as int,
                    ) as usize,
                }) && winning_padded_len(vanilla_proofs@, pub_params.sector_count as int)
                    != post_config.challenge_count
            },
        },
{
    let num_sectors_per_chunk = pub_params.sector_count;
    let num_sectors = pub_inputs.sectors.len();

    let capacity = partition_count * num_sectors_per_chunk;
    if num_sectors > capacity {
        return Err(PipelineError::CapacityExceeded { num_sectors, capacity });
    }

    let mut partition_proofs: Vec<VanillaProof<P>> = Vec::new();

    match post_config.typ {
        PoStType::Window => {
            let mut j: usize = 0;
            let mut start: usize = 0;
            proof {
                assert(spec_chunks(0, num_sectors_per_chunk as int) == 0) by (nonlinear_arith)
                    requires
                        num_sectors_per_chunk >= 1,
                ;
            }
            while start < num_sectors
                invariant
                    post_config.wf(),
                    post_config.typ == PoStType::Window,
                    num_sectors_per_chunk == pub_params.sector_count,
                    num_sectors_per_chunk >= 1,
                    num_sectors <= partition_count * num_sectors_per_chunk,
                    num_sectors == pub_inputs.sectors@.len(),
                    num_sectors + num_sectors_per_chunk <= usize::MAX,
                    start == j * num_sectors_per_chunk,
                    start <= num_sectors + num_sectors_per_chunk,
                    j <= spec_chunks(num_sectors as int, num_sectors_per_chunk as int),
                    start >= num_sectors ==> j == spec_chunks(
                        num_sectors as int,
                        num_sectors_per_chunk as int,
                    ),
                    forall|p: int|
                        0 <= p < vanilla_proofs@.len() ==> (#[trigger] vanilla_proofs@[p]).sector_proofs@.len()
                            >= 1,
                    partition_proofs@.len() == j,
                    forall|i: int|
                        0 <= i < start && i < num_sectors ==> find_idx(
                            vanilla_proofs@,
                            (#[trigger] pub_inputs.sectors@[i]).id,
                        ) >= 0,
                    forall|jj: int|
                        0 <= jj < j ==> sector_views((#[trigger] partition_proofs@[jj]).sectors@)
                            == pad_with_last(
                            window_flat(
                                window_chunk(
                                    pub_inputs.sectors@,
                                    num_sectors_per_chunk as int,
                                    jj,
                                ),
                                vanilla_proofs@,
                            ),
                            num_sectors_per_chunk as int,
                        ),
                decreases num_sectors + num_sectors_per_chunk - start,
            {
                let end = if start + num_sectors_per_chunk <= num_sectors {
                    start + num_sectors_per_chunk
                } else {
                    num_sectors
                };
                let mut chunk: Vec<PublicSector> = Vec::new();
                let mut i: usize = start;
                while i < end
                    invariant
                        start <= i <= end,
                        end <= pub_inputs.sectors@.len(),
                        chunk@ == pub_inputs.sectors@.subrange(start as int, i as int),
                    decreases end - i,
                {
                    chunk.push(pub_inputs.sectors[i]);
                    proof {
                        assert(chunk@ =~= pub_inputs.sectors@.subrange(
                            start as int,
                            i as int + 1,
                        ));
                    }
                    i = i + 1;
                }
                let chunk_inputs = PublicInputs {
                    randomness: pub_inputs.randomness,
                    prover_id: pub_inputs.prover_id,
                    sectors: chunk,
                    k: Some(j),
                };
                proof {
                    assert((j as int + 1) * num_sectors_per_chunk == j * num_sectors_per_chunk
                        + num_sectors_per_chunk) by (nonlinear_arith);
                    assert(chunk_inputs.sectors@ =~= window_chunk(
                        pub_inputs.sectors@,
                        num_sectors_per_chunk as int,
                        j as int,
                    ));
                    assert(chunk_inputs.sectors@.len() >= 1);
                    if all_found(chunk_inputs.sectors@, vanilla_proofs@) {
                        lemma_window_flat_nonempty(chunk_inputs.sectors@, vanilla_proofs@);
                    }
                }
                let proof_part = match single_partition_vanilla_proofs(
                    post_config,
                    pub_params,
                    &chunk_inputs,
                    vanilla_proofs,
                ) {
                    Ok(p) => p,
                    Err(e) => {
                        proof {
                            assert(!(e matches PipelineError::MissingPartitionIndex));
                            assert(!(e matches PipelineError::CapacityExceeded { .. }));
                            let cs = chunk_inputs.sectors@;
                            let ci = choose|i: int|
                                0 <= i < cs.len() && e == (PipelineError::SectorProofNotFound {
                                    sector_id: (#[trigger] cs[i]).id,
                                }) && find_idx(vanilla_proofs@, cs[i].id) == -1;
                            assert(pub_inputs.sectors@[start + ci] == cs[ci]);
                            assert(exists|i: int|
                                0 <= i < pub_inputs.sectors@.len() && e
                                    == (PipelineError::SectorProofNotFound {
                                    sector_id: (#[trigger] pub_inputs.sectors@[i]).id,
                                }) && find_idx(vanilla_proofs@, pub_inputs.sectors@[i].id) == -1);
                        }
                        return Err(e);
                    },
                };
                let ghost prev_pp = partition_proofs@;
                partition_proofs.push(proof_part);
                proof {
                    assert((j + 1) * num_sectors_per_chunk == j * num_sectors_per_chunk
                        + num_sectors_per_chunk) by (nonlinear_arith);
                    lemma_chunk_count(num_sectors as int, num_sectors_per_chunk as int, j as int);
                    assert(all_found(
                        window_chunk(pub_inputs.sectors@, num_sectors_per_chunk as int, j as int),
                        vanilla_proofs@,
                    ));
                    let ch = window_chunk(
                        pub_inputs.sectors@,
                        num_sectors_per_chunk as int,
                        j as int,
                    );
                    assert forall|i: int| start <= i < end implies find_idx(
                        vanilla_proofs@,
                        (#[trigger] pub_inputs.sectors@[i]).id,
                    ) >= 0 by {
                        assert(ch[i - start] == pub_inputs.sectors@[i]);
                        assert(find_idx(vanilla_proofs@, ch[i - start].id) >= 0);
                    }
                    assert forall|jj: int| 0 <= jj < j + 1 implies sector_views(
                        (#[trigger] partition_proofs@[jj]).sectors@,
                    ) == pad_with_last(
                        window_flat(
                            window_chunk(pub_inputs.sectors@, num_sectors_per_chunk as int, jj),
                            vanilla_proofs@,
                        ),
                        num_sectors_per_chunk as int,
                    ) by {
                        if jj < j {
                            assert(partition_proofs@[jj] == prev_pp[jj]);
                        } else {
                            assert(partition_proofs@[jj] == proof_part);
                        }
                    }
                }
                j = j + 1;
                start = start + num_sectors_per_chunk;
            }
            proof {
                if num_sectors == 0 {
                    assert(spec_chunks(0, num_sectors_per_chunk as int) == 0);
                }
                assert(all_found(pub_inputs.sectors@, vanilla_proofs@));
            }
        },
        PoStType::Winning => {
            proof {
                if vanilla_proofs@.len() == 0 {
                    assert(spec_chunks(0, num_sectors_per_chunk as int) == 0);
                }
            }
            if vanilla_proofs.len() > 0 {
                let chunk_inputs = PublicInputs {
                    randomness: pub_inputs.randomness,
                    prover_id: pub_inputs.prover_id,
                    sectors: copy_sectors(&pub_inputs.sectors),
                    k: Some(0),
                };
                let proof_part = match single_partition_vanilla_proofs(
                    post_config,
                    pub_params,
                    &chunk_inputs,
                    vanilla_proofs,
                ) {
                    Ok(p) => p,
                    Err(e) => {
                        proof {
                            assert(!(e matches PipelineError::MissingPartitionIndex));
                        }
                        return Err(e);
                    },
                };
                partition_proofs.push(proof_part);
                proof {
                    lemma_single_chunk(
                        vanilla_proofs@.len() as int,
                        num_sectors_per_chunk as int,
                    );
                }
            }
        },
    }

    Ok(partition_proofs)
}

/// A fresh vector with the same public sectors.
fn copy_sectors(v: &Vec<PublicSector>) -> (r: Vec<PublicSector>)
    ensures
        r@ == v@,
{
    let mut r: Vec<PublicSector> = Vec::new();
    let mut i: usize = 0;
    while i < v.len()
        invariant
            i <= v@.len(),
            r@ == v@.take(i as int),
        decreases v@.len() - i,
    {
        r.push(v[i]);
        proof {
            assert(r@ =~= v@.take(i as int + 1));
        }
        i = i + 1;
    }
    proof {
        assert(v@.take(v@.len() as int) =~= v@);
    }
    r
}

/// Counting chunks one at a time: after chunk `j`, either more sectors
/// remain or `j + 1` is the final chunk count.
proof fn lemma_chunk_count(n: int, sc: int, j: int)
    requires
        sc >= 1,
        j >= 0,
        j * sc < n,
    ensures
        (j + 1) * sc < n ==> j + 1 <= spec_chunks(n, sc),
        (j + 1) * sc >= n ==> j + 1 == spec_chunks(n, sc),
        j + 1 <= spec_chunks(n, sc),
{
    assert((j + 1) * sc == j * sc + sc) by (nonlinear_arith);
    if j * sc + sc >= n {
        assert(spec_chunks(n, sc) == j + 1) by (nonlinear_arith)
            requires
                sc >= 1,
                j >= 0,
                j * sc < n,
                n <= j * sc + sc,
        ;
    } else {
        assert(j + 1 <= spec_chunks(n, sc)) by (nonlinear_arith)
            requires
                sc >= 1,
                j >= 0,
                (j + 1) * sc < n,
        ;
    }
}

/// A nonempty list no longer than one chunk is exactly one chunk.
proof fn lemma_single_chunk(n: int, sc: int)
    requires
        sc >= 1,
        1 <= n <= sc,
    ensures
        spec_chunks(n, sc) == 1,
{
    assert(spec_chunks(n, sc) == 1) by (nonlinear_arith)
        requires
            sc >= 1,
            1 <= n <= sc,
    ;
}

/// A freshly assembled partition is returned only together with a
/// passing verdict of the external proof-scheme checker; a failing
/// verdict is fatal to the call.
pub fn confirm_partition_proof<P>(proof: VanillaProof<P>, accepted: bool, partition: usize) -> (r:
    Result<VanillaProof<P>, PipelineError>)
    ensures
        match r {
            Ok(p) => accepted && p == proof,
            Err(e) => !accepted && e == (PipelineError::PartitionVerificationFailed { partition }),
        },
{
    if accepted {
        Ok(proof)
    } else {
        Err(PipelineError::PartitionVerificationFailed { partition })
    }
}

/// The whole-set variant of the confirmation step.
pub fn confirm_proof_set<P>(proofs: Vec<VanillaProof<P>>, accepted: bool) -> (r: Result<
    Vec<VanillaProof<P>>,
    PipelineError,
>)
    ensures
        match r {
            Ok(p) => accepted && p == proofs,
            Err(e) => !accepted && e == PipelineError::ProofSetVerificationFailed,
        },
{
    if accepted {
        Ok(proofs)
    } else {
        Err(PipelineError::ProofSetVerificationFailed)
    }
}

} // verus!
