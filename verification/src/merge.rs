//! Proof merger: concatenates fixed-length partition SNARK proof blobs,
//! in partition order, into one output buffer.

use vstd::prelude::*;

use crate::errors::PipelineError;

verus! {

/// Byte length of one partition's SNARK proof blob: a compressed Groth16
/// proof (48 + 96 + 48 bytes).
pub const SINGLE_PARTITION_PROOF_LEN: usize = 192;

/// One partition's SNARK proof, an opaque byte blob produced by the
/// external prover.
#[derive(Clone, Debug, PartialEq, Eq)]
pub struct PartitionSnarkProof(pub Vec<u8>);

/// The bytes of the given proofs, in order.
pub open spec fn concat_proof_bytes(s: Seq<PartitionSnarkProof>) -> Seq<u8>
    decreases s.len(),
{
    if s.len() == 0 {
        Seq::empty()
    } else {
        concat_proof_bytes(s.drop_last()) + s.last().0@
    }
}

/// Sum of the byte lengths of the given proofs.
pub open spec fn total_proof_len(s: Seq<PartitionSnarkProof>) -> int
    decreases s.len(),
{
    if s.len() == 0 {
        0
    } else {
        total_proof_len(s.drop_last()) + s.last().0@.len()
    }
}

/// Concatenation adds lengths: the merged buffer is exactly as long as
/// the input blobs together.
pub proof fn lemma_concat_proof_bytes_len(s: Seq<PartitionSnarkProof>)
    ensures
        concat_proof_bytes(s).len() == total_proof_len(s),
    decreases s.len(),
{
    if s.len() > 0 {
        lemma_concat_proof_bytes_len(s.drop_last());
    }
}

/// Concatenation is a pure fixed-stride layout: when every blob has the
/// same length, blob `i` sits unchanged at offset `i * len` of the merged
/// buffer.
pub proof fn lemma_concat_proof_bytes_stride(s: Seq<PartitionSnarkProof>, len: int, i: int)
    requires
        forall|j: int| 0 <= j < s.len() ==> (#[trigger] s[j]).0@.len() == len,
        0 <= i < s.len(),
        len >= 0,
    ensures
        concat_proof_bytes(s).subrange(i * len, i * len + len) == s[i].0@,
    decreases s.len(),
{
    lemma_concat_proof_bytes_len(s);
    lemma_total_proof_len_uniform(s, len);
    if i == s.len() - 1 {
        lemma_concat_proof_bytes_len(s.drop_last());
        lemma_total_proof_len_uniform(s.drop_last(), len);
        assert(concat_proof_bytes(s).subrange(i * len, i * len + len) =~= s.last().0@);
    } else {
        lemma_concat_proof_bytes_stride(s.drop_last(), len, i);
        lemma_concat_proof_bytes_len(s.drop_last());
        lemma_total_proof_len_uniform(s.drop_last(), len);
        assert((i + 1) * len <= (s.len() - 1) * len) by (nonlinear_arith)
            requires
                0 <= i + 1 <= s.len() - 1,
                len >= 0,
        ;
        assert(i * len + len == (i + 1) * len) by (nonlinear_arith);
        assert(concat_proof_bytes(s).subrange(i * len, i * len + len) =~= concat_proof_bytes(
            s.drop_last(),
        ).subrange(i * len, i * len + len));
    }
}

/// With uniform blob length the total is `count * len`.
pub proof fn lemma_total_proof_len_uniform(s: Seq<PartitionSnarkProof>, len: int)
    requires
        forall|j: int| 0 <= j < s.len() ==> (#[trigger] s[j]).0@.len() == len,
    ensures
        total_proof_len(s) == s.len() * len,
    decreases s.len(),
{
    if s.len() == 0 {
    } else {
        lemma_total_proof_len_uniform(s.drop_last(), len);
        assert(s.len() * len == (s.len() - 1) * len + len) by (nonlinear_arith);
    }
}

/// Merge the partition proofs into one buffer: the bytes of each blob,
/// in partition order, unchanged.
pub fn merge_window_post_partition_proofs(proofs: Vec<PartitionSnarkProof>) -> (r: Result<
    Vec<u8>,
    PipelineError,
>)
    ensures
        r matches Ok(bytes) && bytes@ == concat_proof_bytes(proofs@),
{
    let mut out: Vec<u8> = Vec::new();
    let mut i: usize = 0;
    while i < proofs.len()
        invariant
            i <= proofs@.len(),
            out@ == concat_proof_bytes(proofs@.take(i as int)),
        decreases proofs@.len() - i,
    {
        let mut j: usize = 0;
        while j < proofs[i].0.len()
            invariant
                i < proofs@.len(),
                j <= proofs@[i as int].0@.len(),
                out@ == concat_proof_bytes(proofs@.take(i as int)) + proofs@[i as int].0@.take(
                    j as int,
                ),
            decreases proofs@[i as int].0@.len() - j,
        {
            let b = proofs[i].0[j];
            out.push(b);
            proof {
                assert(proofs@[i as int].0@.take(j as int + 1) =~= proofs@[i as int].0@.take(
                    j as int,
                ).push(b));
                assert(out@ =~= concat_proof_bytes(proofs@.take(i as int)) + proofs@[i as int].0@
                    .take(j as int + 1));
            }
            j = j + 1;
        }
        proof {
            let t = proofs@.take(i as int + 1);
            assert(t.drop_last() =~= proofs@.take(i as int));
            assert(t.last() == proofs@[i as int]);
            assert(proofs@[i as int].0@.take(j as int) =~= proofs@[i as int].0@);
            assert(out@ =~= concat_proof_bytes(proofs@.take(i as int + 1)));
        }
        i = i + 1;
    }
    proof {
        assert(proofs@.take(proofs@.len() as int) =~= proofs@);
    }
    Ok(out)
}

} // verus!
