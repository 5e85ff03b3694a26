//! Parameter calculator: derives circuit setup parameters (challenge
//! layering, sector and partition counts) from high-level configuration.

use vstd::prelude::*;

use crate::errors::PipelineError;
use crate::types::{
    ApiFeature, LayerChallenges, PoRepConfig, PoRepSetupParams, PoStConfig, PoStSetupParams,
    PublicParams,
};

verus! {

/// Base degree of the replication graph.
pub const DRG_DEGREE: usize = 6;

/// Expansion degree of the replication graph.
pub const EXP_DEGREE: usize = 8;

/// One row of the sector-size table: the layer count and the minimum
/// total challenge count that a replication setup uses for sectors of
/// this byte size.
#[derive(Clone, Copy, Debug, PartialEq, Eq, Structural)]
pub struct SectorSizeEntry {
    pub sector_bytes: u64,
    pub layers: usize,
    pub min_challenges: usize,
}

/// First table entry for the given sector size, if any.
pub open spec fn table_find(entries: Seq<SectorSizeEntry>, sector_bytes: u64) -> Option<
    SectorSizeEntry,
>
    decreases entries.len(),
{
    if entries.len() == 0 {
        None
    } else if entries[0].sector_bytes == sector_bytes {
        Some(entries[0])
    } else {
        table_find(entries.drop_first(), sector_bytes)
    }
}

/// Explicit sector-size lookup table. It replaces process-wide mutable
/// state: the caller constructs it once (usually with `defaults`) and
/// hands it to the parameter calculator; an unknown sector size is a
/// typed failure, never a panic.
#[derive(Clone, Debug)]
pub struct SectorSizeTable {
    pub entries: Vec<SectorSizeEntry>,
}

impl SectorSizeTable {
    /// All counts small enough that challenge totals fit comfortably in
    /// a `usize`.
    pub open spec fn wf(&self) -> bool {
        forall|i: int|
            0 <= i < self.entries@.len() ==> (#[trigger] self.entries@[i]).min_challenges
                <= 0x1000_0000
    }

    /// The production table: two layers and two total challenges for the
    /// test sector sizes, eleven layers and 176 total challenges for the
    /// 32 GiB and 64 GiB production sizes.
    pub fn defaults() -> (r: SectorSizeTable)
        ensures
            r.wf(),
            r.entries@ == seq![
                (SectorSizeEntry { sector_bytes: 2048, layers: 2, min_challenges: 2 }),
                (SectorSizeEntry { sector_bytes: 4096, layers: 2, min_challenges: 2 }),
                (SectorSizeEntry { sector_bytes: 16384, layers: 2, min_challenges: 2 }),
                (SectorSizeEntry { sector_bytes: 32768, layers: 2, min_challenges: 2 }),
                (SectorSizeEntry { sector_bytes: 8388608, layers: 2, min_challenges: 2 }),
                (SectorSizeEntry { sector_bytes: 16777216, layers: 2, min_challenges: 2 }),
                (SectorSizeEntry { sector_bytes: 536870912, layers: 2, min_challenges: 2 }),
                (SectorSizeEntry { sector_bytes: 1073741824, layers: 2, min_challenges: 2 }),
                (SectorSizeEntry { sector_bytes: 34359738368, layers: 11, min_challenges: 176 }),
                (SectorSizeEntry { sector_bytes: 68719476736, layers: 11, min_challenges: 176 }),
            ],
    {
        let mut entries: Vec<SectorSizeEntry> = Vec::new();
        entries.push(SectorSizeEntry { sector_bytes: 2048, layers: 2, min_challenges: 2 });
        entries.push(SectorSizeEntry { sector_bytes: 4096, layers: 2, min_challenges: 2 });
        entries.push(SectorSizeEntry { sector_bytes: 16384, layers: 2, min_challenges: 2 });
        entries.push(SectorSizeEntry { sector_bytes: 32768, layers: 2, min_challenges: 2 });
        entries.push(SectorSizeEntry { sector_bytes: 8388608, layers: 2, min_challenges: 2 });
        entries.push(SectorSizeEntry { sector_bytes: 16777216, layers: 2, min_challenges: 2 });
        entries.push(SectorSizeEntry { sector_bytes: 536870912, layers: 2, min_challenges: 2 });
        entries.push(SectorSizeEntry { sector_bytes: 1073741824, layers: 2, min_challenges: 2 });
        entries.push(
            SectorSizeEntry { sector_bytes: 34359738368, layers: 11, min_challenges: 176 },
        );
        entries.push(
            SectorSizeEntry { sector_bytes: 68719476736, layers: 11, min_challenges: 176 },
        );
        let r = SectorSizeTable { entries };
        proof {
            assert(r.entries@ =~= seq![
                (SectorSizeEntry { sector_bytes: 2048, layers: 2, min_challenges: 2 }),
                (SectorSizeEntry { sector_bytes: 4096, layers: 2, min_challenges: 2 }),
                (SectorSizeEntry { sector_bytes: 16384, layers: 2, min_challenges: 2 }),
                (SectorSizeEntry { sector_bytes: 32768, layers: 2, min_challenges: 2 }),
                (SectorSizeEntry { sector_bytes: 8388608, layers: 2, min_challenges: 2 }),
                (SectorSizeEntry { sector_bytes: 16777216, layers: 2, min_challenges: 2 }),
                (SectorSizeEntry { sector_bytes: 536870912, layers: 2, min_challenges: 2 }),
                (SectorSizeEntry { sector_bytes: 1073741824, layers: 2, min_challenges: 2 }),
                (SectorSizeEntry { sector_bytes: 34359738368, layers: 11, min_challenges: 176 }),
                (SectorSizeEntry { sector_bytes: 68719476736, layers: 11, min_challenges: 176 }),
            ]);
        }
        r
    }

    /// Look a sector size up; `None` when the size is not in the table.
    pub fn lookup(&self, sector_bytes: u64) -> (r: Option<SectorSizeEntry>)
        ensures
            r == table_find(self.entries@, sector_bytes),
    {
        let mut i: usize = 0;
        proof {
            assert(self.entries@.skip(0) =~= self.entries@);
        }
        while i < self.entries.len()
            invariant
                i <= self.entries@.len(),
                table_find(self.entries@, sector_bytes) == table_find(
                    self.entries@.skip(i as int),
                    sector_bytes,
                ),
            decreases self.entries@.len() - i,
        {
            proof {
                assert(self.entries@.skip(i as int)[0] == self.entries@[i as int]);
                assert(self.entries@.skip(i as int).drop_first() =~= self.entries@.skip(
                    i as int + 1,
                ));
            }
            if self.entries[i].sector_bytes == sector_bytes {
                return Some(self.entries[i]);
            }
            i = i + 1;
        }
        proof {
            assert(self.entries@.skip(i as int).len() == 0);
        }
        None
    }
}

/// Minimum per-partition challenge count: starting from one challenge,
/// the count is raised until `partitions` partitions together reach the
/// global challenge floor.
pub fn select_challenges(
    partitions: usize,
    minimum_total_challenges: usize,
    layers: usize,
    use_synthetic: bool,
) -> (r: LayerChallenges)
    requires
        partitions >= 1,
        minimum_total_challenges + partitions <= usize::MAX,
    ensures
        r.layers == layers,
        r.use_synthetic == use_synthetic,
        r.max_count >= 1,
        partitions * r.max_count >= minimum_total_challenges,
        r.max_count > 1 ==> partitions * (r.max_count - 1) < minimum_total_challenges,
{
    let mut count: usize = 1;
    let mut guess = LayerChallenges::new(layers, count);
    while partitions * guess.max_count < minimum_total_challenges
        invariant
            partitions >= 1,
            minimum_total_challenges + partitions <= usize::MAX,
            count >= 1,
            guess.layers == layers,
            guess.max_count == count,
            !guess.use_synthetic,
            partitions * count <= minimum_total_challenges + partitions,
            count > 1 ==> partitions * (count - 1) < minimum_total_challenges,
        decreases minimum_total_challenges - partitions * (count - 1),
    {
        proof {
            assert(count <= partitions * count) by (nonlinear_arith)
                requires
                    partitions >= 1,
                    count >= 1,
            ;
            assert(partitions * (count + 1) == partitions * count + partitions) by (nonlinear_arith);
            assert(partitions * count == partitions * (count - 1) + partitions) by (nonlinear_arith);
        }
        count = count + 1;
        guess = LayerChallenges::new(layers, count);
    }
    let mut out = guess;
    out.use_synthetic = use_synthetic;
    out
}

/// Setup parameters of the layered replication proof for the given
/// configuration: the node count from the sector size, the graph degrees,
/// and the minimal challenge layering that meets the table's challenge
/// floor across the configured number of partitions.
pub fn setup_params(porep_config: &PoRepConfig, table: &SectorSizeTable) -> (r: Result<
    PoRepSetupParams,
    PipelineError,
>)
    requires
        porep_config.partitions >= 1,
        porep_config.partitions <= 0x1000_0000,
        porep_config.sector_size / 32 <= usize::MAX,
        table.wf(),
    ensures
        match r {
            Ok(sp) => {
                &&& table_find(table.entries@, porep_config.sector_size) matches Some(entry)
                    && sp.layer_challenges.layers == entry.layers && partitions_reach_floor(
                    porep_config.partitions,
                    sp.layer_challenges.max_count,
                    entry.min_challenges,
                )
                &&& porep_config.sector_size % 32 == 0
                &&& sp.nodes == porep_config.sector_size / 32
                &&& sp.degree == DRG_DEGREE
                &&& sp.expansion_degree == EXP_DEGREE
                &&& sp.porep_id == porep_config.porep_id
                &&& sp.api_version == porep_config.api_version
                &&& sp.api_features@ == porep_config.api_features@
                &&& sp.layer_challenges.use_synthetic == porep_config.api_features@.contains(
                    ApiFeature::SyntheticPoRep,
                )
            },
            Err(PipelineError::UnknownSectorSize { sector_bytes }) => {
                &&& sector_bytes == porep_config.sector_size
                &&& table_find(table.entries@, porep_config.sector_size) is None
            },
            Err(PipelineError::InvalidSectorSize { sector_bytes }) => {
                &&& sector_bytes == porep_config.sector_size
                &&& table_find(table.entries@, porep_config.sector_size) is Some
                &&& porep_config.sector_size % 32 != 0
            },
            Err(_) => false,
        },
{
    let use_synthetic = porep_config.feature_enabled(ApiFeature::SyntheticPoRep);
    let sector_bytes = porep_config.sector_size;

    let entry = match table.lookup(sector_bytes) {
        Some(entry) => entry,
        None => {
            return Err(PipelineError::UnknownSectorSize { sector_bytes });
        },
    };
    proof {
        lemma_table_find_wf(table, sector_bytes);
    }

    let layer_challenges = select_challenges(
        porep_config.partitions,
        entry.min_challenges,
        entry.layers,
        use_synthetic,
    );

    if sector_bytes % 32 != 0 {
        return Err(PipelineError::InvalidSectorSize { sector_bytes });
    }

    let nodes = (sector_bytes / 32) as usize;

    Ok(
        PoRepSetupParams {
            nodes,
            degree: DRG_DEGREE,
            expansion_degree: EXP_DEGREE,
            porep_id: porep_config.porep_id,
            layer_challenges,
            api_version: porep_config.api_version,
            api_features: copy_features(&porep_config.api_features),
        },
    )
}

/// A fresh vector with the same features.
fn copy_features(v: &Vec<ApiFeature>) -> (r: Vec<ApiFeature>)
    ensures
        r@ == v@,
{
    let mut r: Vec<ApiFeature> = Vec::new();
    let mut i: usize = 0;
    while i < v.len()
        invariant
            i <= v@.len(),
            r@ == v@.take(i as int),
        decreases v@.len() - i,
    {
        r.push(v[i]);
        proof {
            assert(r@ =~= v@.take(i as int + 1));
        }
        i = i + 1;
    }
    proof {
        assert(v@.take(v@.len() as int) =~= v@);
    }
    r
}

/// The challenge floor is met minimally: `partitions * count` reaches
/// `minimum`, while one challenge fewer per partition would not.
pub open spec fn partitions_reach_floor(partitions: usize, count: usize, minimum: usize) -> bool {
    &&& count >= 1
    &&& partitions * count >= minimum
    &&& count > 1 ==> partitions * (count - 1) < minimum
}

/// An entry found in a well-formed table keeps the table's bound on its
/// challenge floor.
proof fn lemma_table_find_wf(table: &SectorSizeTable, sector_bytes: u64)
    requires
        table.wf(),
        table_find(table.entries@, sector_bytes) is Some,
    ensures
        table_find(table.entries@, sector_bytes).unwrap().min_challenges <= 0x1000_0000,
{
    lemma_table_find_member(table.entries@, sector_bytes);
}

/// Whatever `table_find` returns is one of the entries.
proof fn lemma_table_find_member(entries: Seq<SectorSizeEntry>, sector_bytes: u64)
    requires
        table_find(entries, sector_bytes) is Some,
    ensures
        entries.contains(table_find(entries, sector_bytes).unwrap()),
    decreases entries.len(),
{
    if entries.len() == 0 {
    } else if entries[0].sector_bytes == sector_bytes {
        assert(entries.contains(entries[0]));
    } else {
        lemma_table_find_member(entries.drop_first(), sector_bytes);
        let e = table_find(entries.drop_first(), sector_bytes).unwrap();
        let i = choose|i: int|
            0 <= i < entries.drop_first().len() && entries.drop_first()[i] == e;
        assert(entries[i + 1] == e);
    }
}

/// Setup parameters for a Winning proof-of-spacetime: the configured
/// challenge total is split into `challenge_count / sector_count`
/// pseudo-sectors of `sector_count` challenges each, so that the product
/// reproduces the configured challenge count exactly.
pub fn winning_post_setup_params(post_config: &PoStConfig) -> (r: Result<
    PoStSetupParams,
    PipelineError,
>)
    requires
        post_config.wf(),
    ensures
        match r {
            Ok(sp) => {
                &&& post_config.challenge_count % post_config.sector_count == 0
                &&& sp.sector_size == post_config.sector_size
                &&& sp.sector_count == post_config.challenge_count / post_config.sector_count
                &&& sp.challenge_count == post_config.sector_count
                &&& sp.sector_count * sp.challenge_count == post_config.challenge_count
                &&& sp.api_version == post_config.api_version
            },
            Err(e) => {
                &&& e == PipelineError::InvalidConfig
                &&& post_config.challenge_count % post_config.sector_count != 0
            },
        },
{
    if post_config.challenge_count % post_config.sector_count != 0 {
        return Err(PipelineError::InvalidConfig);
    }

    let param_sector_count = post_config.challenge_count / post_config.sector_count;
    proof {
        lemma_exact_division(post_config.challenge_count, post_config.sector_count);
    }
    let param_challenge_count = post_config.challenge_count / param_sector_count;

    if param_sector_count * param_challenge_count != post_config.challenge_count {
        return Err(PipelineError::InvalidConfig);
    }

    Ok(
        PoStSetupParams {
            sector_size: post_config.sector_size,
            challenge_count: param_challenge_count,
            sector_count: param_sector_count,
            api_version: post_config.api_version,
        },
    )
}

/// When `b` divides `a` and both are positive, the two successive
/// divisions give back the factors exactly.
proof fn lemma_exact_division(a: usize, b: usize)
    requires
        b >= 1,
        a >= 1,
        a % b == 0,
    ensures
        a / b >= 1,
        a / (a / b) == b,
        (a / b) * (a / (a / b)) == a,
{
    let q = (a as int) / (b as int);
    assert(a == b * q + a % b) by {
        vstd::arithmetic::div_mod::lemma_fundamental_div_mod(a as int, b as int);
    }
    assert(a == b * q);
    assert(q >= 1) by (nonlinear_arith)
        requires
            a >= 1,
            b >= 1,
            a == b * q,
    ;
    assert((a as int) / q == b) by (nonlinear_arith)
        requires
            q >= 1,
            a == b * q,
    ;
    assert(q * b == a);
}

/// Setup parameters for a Window proof-of-spacetime: the configured
/// shape, taken as is.
pub fn window_post_setup_params(post_config: &PoStConfig) -> (r: PoStSetupParams)
    ensures
        r.sector_size == post_config.sector_size,
        r.challenge_count == post_config.challenge_count,
        r.sector_count == post_config.sector_count,
        r.api_version == post_config.api_version,
{
    PoStSetupParams {
        sector_size: post_config.sector_size,
        challenge_count: post_config.challenge_count,
        sector_count: post_config.sector_count,
        api_version: post_config.api_version,
    }
}

/// Public parameters of a Winning proof-of-spacetime: the setup
/// parameters carried over field by field.
pub fn winning_post_public_params(post_config: &PoStConfig) -> (r: Result<
    PublicParams,
    PipelineError,
>)
    requires
        post_config.wf(),
    ensures
        match r {
            Ok(pp) => {
                &&& post_config.challenge_count % post_config.sector_count == 0
                &&& pp.sector_size == post_config.sector_size
                &&& pp.sector_count == post_config.challenge_count / post_config.sector_count
                &&& pp.challenge_count == post_config.sector_count
                &&& pp.api_version == post_config.api_version
            },
            Err(e) => {
                &&& e == PipelineError::InvalidConfig
                &&& post_config.challenge_count % post_config.sector_count != 0
            },
        },
{
    let sp = winning_post_setup_params(post_config)?;
    Ok(
        PublicParams {
            sector_size: sp.sector_size,
            challenge_count: sp.challenge_count,
            sector_count: sp.sector_count,
            api_version: sp.api_version,
        },
    )
}

/// Public parameters of a Window proof-of-spacetime: the setup
/// parameters carried over field by field.
pub fn window_post_public_params(post_config: &PoStConfig) -> (r: PublicParams)
    ensures
        r.sector_size == post_config.sector_size,
        r.challenge_count == post_config.challenge_count,
        r.sector_count == post_config.sector_count,
        r.api_version == post_config.api_version,
{
    let sp = window_post_setup_params(post_config);
    PublicParams {
        sector_size: sp.sector_size,
        challenge_count: sp.challenge_count,
        sector_count: sp.sector_count,
        api_version: sp.api_version,
    }
}

} // verus!
