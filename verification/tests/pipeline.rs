use std::io::Cursor;
use std::io::Read;

use filecoin_hashers::sha256::Sha256Hasher;
use filecoin_hashers::{Domain, Hasher};
use fr32::Fr32Reader;
use storage_proofs_core::pieces::generate_piece_commitment_bytes_from_source;

use post_pipeline::challenges::generate_fallback_sector_challenges;
use post_pipeline::errors::PipelineError;
use post_pipeline::field::{as_safe_commitment, commitment_from_fr, commitment_round_trip};
use post_pipeline::merge::{merge_window_post_partition_proofs, PartitionSnarkProof};
use post_pipeline::params::{
    select_challenges, setup_params, window_post_public_params, winning_post_public_params,
    winning_post_setup_params, SectorSizeTable,
};
use post_pipeline::partition::{
    confirm_partition_proof, confirm_proof_set, generate_single_vanilla_proof,
    get_num_partition_for_fallback_post, get_partitions_for_window_post,
    partition_vanilla_proofs, single_partition_vanilla_proofs, FallbackSectorProofs,
    PublicInputs, PublicSector, SectorProofData,
};
use post_pipeline::reader::{compute_commitment, CommitmentReader};
use post_pipeline::types::{
    ApiFeature, ApiVersion, PoRepConfig, PoStConfig, PoStType, PublicParams,
};

fn window_config() -> PoStConfig {
    PoStConfig {
        typ: PoStType::Window,
        challenge_count: 2,
        sector_count: 2,
        sector_size: 2048,
        api_version: ApiVersion::V1_2_0,
        priority: false,
    }
}

fn canonical_seed() -> [u8; 32] {
    let mut seed = [0u8; 32];
    seed[0] = 7;
    seed[1] = 9;
    seed
}

#[test]
fn partition_layer_challenges_test() {
    let f = |partitions: usize| {
        select_challenges(partitions, 12, 11, false).challenges_count_all()
    };
    assert_eq!(6, f(2));

    assert_eq!(12, f(1));
    assert_eq!(6, f(2));
    assert_eq!(3, f(4));
}

#[test]
fn test_winning_post_params() {
    let config = PoStConfig {
        typ: PoStType::Winning,
        priority: false,
        challenge_count: 66,
        sector_count: 1,
        sector_size: 2048,
        api_version: ApiVersion::V1_2_0,
    };

    let params = winning_post_public_params(&config).expect("failed to get params");
    assert_eq!(params.sector_count, 66);
    assert_eq!(params.challenge_count, 1);
    assert_eq!(params.sector_size, 2048);
}

#[test]
fn test_commitment_reader() {
    let piece_size = 127 * 8;
    let source = vec![255u8; piece_size];
    let mut fr32_reader = Fr32Reader::new(Cursor::new(&source));

    let commitment1 = generate_piece_commitment_bytes_from_source::<Sha256Hasher>(
        &mut fr32_reader,
        1024,
    )
    .expect("failed to generate piece commitment bytes from source");

    let mut fr32_reader = Fr32Reader::new(Cursor::new(&source));
    let mut padded = Vec::new();
    fr32_reader.read_to_end(&mut padded).expect("io copy failed");
    assert_eq!(padded.len(), 1024);

    let mut commitment_reader = CommitmentReader::new();
    commitment_reader.feed_all(&padded);
    let commitment2 = commitment_reader.finish().expect("failed to finish");

    assert_eq!(&commitment1[..], &commitment2[..]);
}

#[test]
fn streaming_equals_whole_buffer() {
    let data = vec![3u8; 256];
    let whole = compute_commitment(&data).expect("whole-buffer commitment");

    let mut reader = CommitmentReader::new();
    for chunk in data.chunks(7) {
        reader.feed_all(chunk);
    }
    let streamed = reader.finish().expect("streamed commitment");
    assert_eq!(whole, streamed);
}

#[test]
fn reader_rejects_partial_block() {
    let mut reader = CommitmentReader::new();
    reader.feed_all(&[1u8; 10]);
    match reader.finish() {
        Err(PipelineError::IncompleteInput { staged }) => assert_eq!(staged, 10),
        other => panic!("expected incomplete input, got {:?}", other),
    }
}

#[test]
fn commitment_round_trip_canonical() {
    let mut comm = [0u8; 32];
    comm[0] = 1;
    comm[5] = 42;
    let fe = as_safe_commitment(&comm).expect("canonical");
    assert_eq!(commitment_from_fr(&fe), comm);
    assert_eq!(commitment_round_trip(&comm).expect("round trip"), comm);

    // Ground the model against the field arithmetic crate itself.
    let fr = fr32::bytes_into_fr(&comm).expect("canonical for fr32");
    assert_eq!(fr32::fr_into_bytes(&fr), comm.to_vec());
}

#[test]
fn commitment_rejects_non_canonical() {
    // The field modulus itself, little endian: the smallest non-canonical value.
    let modulus_le: [u8; 32] = [
        0x01, 0x00, 0x00, 0x00, 0xff, 0xff, 0xff, 0xff, 0xfe, 0x5b, 0xfe, 0xff, 0x02, 0xa4,
        0xbd, 0x53, 0x05, 0xd8, 0xa1, 0x09, 0x08, 0xd8, 0x39, 0x33, 0x48, 0x7d, 0x9d, 0x29,
        0x53, 0xa7, 0xed, 0x73,
    ];
    assert!(fr32::bytes_into_fr(&modulus_le).is_err());
    assert_eq!(
        as_safe_commitment(&modulus_le).unwrap_err(),
        PipelineError::InvalidCommitment
    );
}

#[test]
fn challenges_are_deterministic() {
    let config = window_config();
    let seed = canonical_seed();
    let sectors = vec![1u64, 2, 3];
    let prover = [0u8; 32];

    let m1 = generate_fallback_sector_challenges(&config, &seed, &sectors, prover)
        .expect("challenges");
    let m2 = generate_fallback_sector_challenges(&config, &seed, &sectors, prover)
        .expect("challenges");
    assert_eq!(m1, m2);
    assert_eq!(m1.len(), 3);
    for (_, chals) in &m1 {
        assert_eq!(chals.len(), 2);
        for c in chals {
            assert!(*c < 2048 / 32);
        }
    }
}

#[test]
fn challenges_match_reference_derivation() {
    let config = window_config();
    let seed = canonical_seed();
    let sectors = vec![5u64, 9];
    let map = generate_fallback_sector_challenges(&config, &seed, &sectors, [0u8; 32])
        .expect("challenges");

    let pp = storage_proofs_post::fallback::PublicParams {
        sector_size: 2048,
        challenge_count: 2,
        sector_count: 2,
        api_version: storage_proofs_core::api_version::ApiVersion::V1_2_0,
    };
    let dom = <filecoin_hashers::poseidon::PoseidonHasher as Hasher>::Domain::try_from_bytes(
        &seed,
    )
    .expect("domain");
    for (i, &sector) in sectors.iter().enumerate() {
        for n in 0..2usize {
            let ci = storage_proofs_post::fallback::get_challenge_index(
                storage_proofs_core::api_version::ApiVersion::V1_2_0,
                i,
                2,
                n,
            );
            let expected = storage_proofs_post::fallback::generate_leaf_challenge(
                &pp, dom, sector, ci,
            );
            assert_eq!(map[&sector][n], expected);
        }
    }
}

#[test]
fn challenges_reject_non_canonical_seed() {
    let config = window_config();
    let modulus_le: [u8; 32] = [
        0x01, 0x00, 0x00, 0x00, 0xff, 0xff, 0xff, 0xff, 0xfe, 0x5b, 0xfe, 0xff, 0x02, 0xa4,
        0xbd, 0x53, 0x05, 0xd8, 0xa1, 0x09, 0x08, 0xd8, 0x39, 0x33, 0x48, 0x7d, 0x9d, 0x29,
        0x53, 0xa7, 0xed, 0x73,
    ];
    let r = generate_fallback_sector_challenges(&config, &modulus_le, &vec![1], [0u8; 32]);
    assert_eq!(r.unwrap_err(), PipelineError::InvalidCommitment);

    let empty: Vec<u64> = Vec::new();
    let r = generate_fallback_sector_challenges(&config, &canonical_seed(), &empty, [0u8; 32]);
    assert_eq!(r.unwrap_err(), PipelineError::InvalidInput);
}

fn sector_proof(payload: u64) -> SectorProofData<u64> {
    SectorProofData {
        inclusion_proofs: vec![payload],
        comm_c: [1u8; 32],
        comm_r_last: [2u8; 32],
    }
}

fn fallback_proof(sector_id: u64, payload: u64) -> FallbackSectorProofs<u64> {
    FallbackSectorProofs {
        sector_id,
        comm_r: [3u8; 32],
        sector_proofs: vec![sector_proof(payload)],
    }
}

#[test]
fn window_partition_pads_with_last_entry() {
    let config = PoStConfig {
        typ: PoStType::Window,
        challenge_count: 1,
        sector_count: 4,
        sector_size: 2048,
        api_version: ApiVersion::V1_2_0,
        priority: false,
    };
    let pub_params = PublicParams {
        sector_size: 2048,
        challenge_count: 1,
        sector_count: 4,
        api_version: ApiVersion::V1_2_0,
    };
    let pub_inputs = PublicInputs {
        randomness: [0u8; 32],
        prover_id: [0u8; 32],
        sectors: vec![
            PublicSector { id: 7, comm_r: [3u8; 32] },
            PublicSector { id: 8, comm_r: [3u8; 32] },
        ],
        k: Some(0),
    };
    let proofs = vec![fallback_proof(7, 70), fallback_proof(8, 80)];

    let partition = single_partition_vanilla_proofs(&config, &pub_params, &pub_inputs, &proofs)
        .expect("partition");
    assert_eq!(partition.sectors.len(), 4);
    assert_eq!(partition.sectors[0].inclusion_proofs, vec![70]);
    assert_eq!(partition.sectors[1].inclusion_proofs, vec![80]);
    assert_eq!(partition.sectors[2].inclusion_proofs, vec![80]);
    assert_eq!(partition.sectors[3].inclusion_proofs, vec![80]);

    let confirmed = confirm_partition_proof(partition, true, 0).expect("confirmation passes");
    assert_eq!(confirmed.sectors.len(), 4);
    let failed = confirm_partition_proof(confirmed, false, 3);
    assert_eq!(
        failed.unwrap_err(),
        PipelineError::PartitionVerificationFailed { partition: 3 }
    );
}

#[test]
fn window_partition_missing_proof_and_index() {
    let config = window_config();
    let pub_params = PublicParams {
        sector_size: 2048,
        challenge_count: 2,
        sector_count: 2,
        api_version: ApiVersion::V1_2_0,
    };
    let proofs = vec![fallback_proof(7, 70)];

    let no_k = PublicInputs {
        randomness: [0u8; 32],
        prover_id: [0u8; 32],
        sectors: vec![PublicSector { id: 7, comm_r: [3u8; 32] }],
        k: None,
    };
    assert_eq!(
        single_partition_vanilla_proofs(&config, &pub_params, &no_k, &proofs).unwrap_err(),
        PipelineError::MissingPartitionIndex
    );

    let missing = PublicInputs {
        randomness: [0u8; 32],
        prover_id: [0u8; 32],
        sectors: vec![PublicSector { id: 9, comm_r: [3u8; 32] }],
        k: Some(0),
    };
    assert_eq!(
        single_partition_vanilla_proofs(&config, &pub_params, &missing, &proofs).unwrap_err(),
        PipelineError::SectorProofNotFound { sector_id: 9 }
    );

    let too_many = PublicInputs {
        randomness: [0u8; 32],
        prover_id: [0u8; 32],
        sectors: vec![
            PublicSector { id: 7, comm_r: [3u8; 32] },
            PublicSector { id: 7, comm_r: [3u8; 32] },
            PublicSector { id: 7, comm_r: [3u8; 32] },
        ],
        k: Some(0),
    };
    assert_eq!(
        single_partition_vanilla_proofs(&config, &pub_params, &too_many, &proofs).unwrap_err(),
        PipelineError::CapacityExceeded { num_sectors: 3, capacity: 2 }
    );
}

#[test]
fn winning_partition_unrolls_inclusion_proofs() {
    let config = PoStConfig {
        typ: PoStType::Winning,
        challenge_count: 4,
        sector_count: 1,
        sector_size: 2048,
        api_version: ApiVersion::V1_2_0,
        priority: false,
    };
    let pub_params = PublicParams {
        sector_size: 2048,
        challenge_count: 1,
        sector_count: 4,
        api_version: ApiVersion::V1_2_0,
    };
    let pub_inputs = PublicInputs {
        randomness: [0u8; 32],
        prover_id: [0u8; 32],
        sectors: vec![PublicSector { id: 7, comm_r: [3u8; 32] }],
        k: Some(0),
    };
    let proofs = vec![FallbackSectorProofs {
        sector_id: 7,
        comm_r: [3u8; 32],
        sector_proofs: vec![SectorProofData {
            inclusion_proofs: vec![10u64, 11, 12],
            comm_c: [1u8; 32],
            comm_r_last: [2u8; 32],
        }],
    }];

    let partition = single_partition_vanilla_proofs(&config, &pub_params, &pub_inputs, &proofs)
        .expect("winning partition");
    assert_eq!(partition.sectors.len(), 4);
    for (i, expected) in [10u64, 11, 12, 12].iter().enumerate() {
        assert_eq!(partition.sectors[i].inclusion_proofs, vec![*expected]);
        assert_eq!(partition.sectors[i].comm_c, [1u8; 32]);
        assert_eq!(partition.sectors[i].comm_r_last, [2u8; 32]);
    }
}

#[test]
fn winning_partition_shape_mismatch() {
    let config = PoStConfig {
        typ: PoStType::Winning,
        challenge_count: 5,
        sector_count: 1,
        sector_size: 2048,
        api_version: ApiVersion::V1_2_0,
        priority: false,
    };
    let pub_params = PublicParams {
        sector_size: 2048,
        challenge_count: 1,
        sector_count: 4,
        api_version: ApiVersion::V1_2_0,
    };
    let pub_inputs = PublicInputs {
        randomness: [0u8; 32],
        prover_id: [0u8; 32],
        sectors: vec![PublicSector { id: 7, comm_r: [3u8; 32] }],
        k: Some(0),
    };
    let proofs = vec![FallbackSectorProofs {
        sector_id: 7,
        comm_r: [3u8; 32],
        sector_proofs: vec![SectorProofData {
            inclusion_proofs: vec![10u64],
            comm_c: [1u8; 32],
            comm_r_last: [2u8; 32],
        }],
    }];
    assert_eq!(
        single_partition_vanilla_proofs(&config, &pub_params, &pub_inputs, &proofs).unwrap_err(),
        PipelineError::ShapeMismatch { expected: 5, actual: 4 }
    );
}

#[test]
fn partition_counts_follow_ceiling() {
    let config = window_config();
    assert_eq!(get_num_partition_for_fallback_post(&config, 0), 1);
    assert_eq!(get_num_partition_for_fallback_post(&config, 1), 1);
    assert_eq!(get_num_partition_for_fallback_post(&config, 2), 1);
    assert_eq!(get_num_partition_for_fallback_post(&config, 3), 2);
    assert_eq!(get_num_partition_for_fallback_post(&config, 5), 3);

    let winning = PoStConfig { typ: PoStType::Winning, ..window_config() };
    assert_eq!(get_num_partition_for_fallback_post(&winning, 5), 1);

    assert_eq!(get_partitions_for_window_post(5, &config), Some(3));
    assert_eq!(get_partitions_for_window_post(2, &config), None);
}

#[test]
fn partitions_cover_all_chunks() {
    let config = window_config();
    let pub_params = PublicParams {
        sector_size: 2048,
        challenge_count: 2,
        sector_count: 2,
        api_version: ApiVersion::V1_2_0,
    };
    let sectors: Vec<PublicSector> = (0..3u64)
        .map(|id| PublicSector { id, comm_r: [3u8; 32] })
        .collect();
    let pub_inputs = PublicInputs {
        randomness: [0u8; 32],
        prover_id: [0u8; 32],
        sectors,
        k: None,
    };
    let proofs = vec![
        fallback_proof(0, 100),
        fallback_proof(1, 101),
        fallback_proof(2, 102),
    ];

    let parts = partition_vanilla_proofs(&config, &pub_params, &pub_inputs, 2, &proofs)
        .expect("partitions");
    assert_eq!(parts.len(), 2);
    assert_eq!(parts[0].sectors[0].inclusion_proofs, vec![100]);
    assert_eq!(parts[0].sectors[1].inclusion_proofs, vec![101]);
    assert_eq!(parts[1].sectors[0].inclusion_proofs, vec![102]);
    assert_eq!(parts[1].sectors[1].inclusion_proofs, vec![102]);

    let confirmed = confirm_proof_set(parts, true).expect("set confirmation");
    assert_eq!(confirmed.len(), 2);
    assert_eq!(
        confirm_proof_set(confirmed, false).unwrap_err(),
        PipelineError::ProofSetVerificationFailed
    );

    let capacity = partition_vanilla_proofs(&config, &pub_params, &pub_inputs, 1, &proofs);
    assert_eq!(
        capacity.unwrap_err(),
        PipelineError::CapacityExceeded { num_sectors: 3, capacity: 2 }
    );
}

#[test]
fn vanilla_proof_wrapping_checks_commitment() {
    let wrapped = generate_single_vanilla_proof(4, &[1u8; 32], vec![sector_proof(9)])
        .expect("canonical commitment");
    assert_eq!(wrapped.sector_id, 4);
    assert_eq!(wrapped.comm_r, [1u8; 32]);
    assert_eq!(wrapped.sector_proofs.len(), 1);

    let modulus_le: [u8; 32] = [
        0x01, 0x00, 0x00, 0x00, 0xff, 0xff, 0xff, 0xff, 0xfe, 0x5b, 0xfe, 0xff, 0x02, 0xa4,
        0xbd, 0x53, 0x05, 0xd8, 0xa1, 0x09, 0x08, 0xd8, 0x39, 0x33, 0x48, 0x7d, 0x9d, 0x29,
        0x53, 0xa7, 0xed, 0x73,
    ];
    let bad: Result<FallbackSectorProofs<u64>, PipelineError> =
        generate_single_vanilla_proof(4, &modulus_le, vec![sector_proof(9)]);
    assert_eq!(bad.unwrap_err(), PipelineError::ReplicaAccess { sector_id: 4 });
}

#[test]
fn merge_concatenates_in_order() {
    let proofs = vec![
        PartitionSnarkProof(vec![1, 2, 3]),
        PartitionSnarkProof(vec![4, 5]),
        PartitionSnarkProof(vec![6]),
    ];
    let merged = merge_window_post_partition_proofs(proofs).expect("merge");
    assert_eq!(merged, vec![1, 2, 3, 4, 5, 6]);

    let empty = merge_window_post_partition_proofs(Vec::new()).expect("merge empty");
    assert!(empty.is_empty());
}

#[test]
fn setup_params_uses_size_table() {
    let table = SectorSizeTable::defaults();
    let config = PoRepConfig {
        sector_size: 2048,
        partitions: 1,
        porep_id: [9u8; 32],
        api_version: ApiVersion::V1_2_0,
        api_features: vec![ApiFeature::SyntheticPoRep],
    };
    let sp = setup_params(&config, &table).expect("setup params");
    assert_eq!(sp.nodes, 64);
    assert_eq!(sp.degree, 6);
    assert_eq!(sp.expansion_degree, 8);
    assert_eq!(sp.porep_id, [9u8; 32]);
    assert_eq!(sp.layer_challenges.layers, 2);
    assert_eq!(sp.layer_challenges.max_count, 2);
    assert!(sp.layer_challenges.use_synthetic);

    let unknown = PoRepConfig { sector_size: 1000, ..config.clone() };
    assert_eq!(
        setup_params(&unknown, &table).unwrap_err(),
        PipelineError::UnknownSectorSize { sector_bytes: 1000 }
    );
}

#[test]
fn winning_setup_rejects_non_dividing_counts() {
    let config = PoStConfig {
        typ: PoStType::Winning,
        challenge_count: 7,
        sector_count: 2,
        sector_size: 2048,
        api_version: ApiVersion::V1_2_0,
        priority: false,
    };
    assert_eq!(
        winning_post_setup_params(&config).unwrap_err(),
        PipelineError::InvalidConfig
    );

    let window = window_config();
    let pp = window_post_public_params(&window);
    assert_eq!(pp.sector_count, 2);
    assert_eq!(pp.challenge_count, 2);
    assert_eq!(pp.sector_size, 2048);
}

#[test]
fn base_tree_geometry_matches_reference() {
    // 2048-byte sector, one base tree, arity 8: 64 leaves, 73 elements.
    let size = post_pipeline::geometry::get_base_tree_size(2048, 1, 8).expect("tree size");
    assert_eq!(size, 73);
    let reference = merkletree::merkle::get_merkle_tree_len(64, 8).expect("reference length");
    assert_eq!(size, reference);

    let leafs = post_pipeline::geometry::get_base_tree_leafs(size, 8).expect("tree leafs");
    assert_eq!(leafs, 64);
    let reference_leafs =
        merkletree::merkle::get_merkle_tree_leafs(size, 8).expect("reference leafs");
    assert_eq!(leafs, reference_leafs);
}

#[test]
fn base_tree_geometry_rejects_inconsistency() {
    assert_eq!(
        post_pipeline::geometry::get_base_tree_size(2049, 1, 8).unwrap_err(),
        PipelineError::InvalidSectorSize { sector_bytes: 2049 }
    );
    // 48 leaves are not a power of 8.
    assert_eq!(
        post_pipeline::geometry::get_base_tree_size(1536, 1, 8).unwrap_err(),
        PipelineError::InvalidTreeGeometry { nodes: 48, arity: 8 }
    );
    // 74 elements are no octree's length.
    assert_eq!(
        post_pipeline::geometry::get_base_tree_leafs(74, 8).unwrap_err(),
        PipelineError::InvalidTreeGeometry { nodes: 74, arity: 8 }
    );
}
