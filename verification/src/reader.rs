//! Streaming commitment calculator: builds leaf hashes incrementally as
//! bytes are staged, and reduces them to a single Merkle root when the
//! stream is complete.
//!
//! The calculator itself never performs I/O: a surrounding reader stages
//! whatever bytes its source yields with `feed`, and the bytes themselves
//! pass through unchanged.

use vstd::prelude::*;

use filecoin_hashers::{HashFunction, Hasher};

use crate::errors::PipelineError;

verus! {

/// Staging area size in bytes.
pub const BUFFER_SIZE: usize = 4096;

/// Byte length of one leaf block (two 32-byte nodes).
pub const LEAF_BLOCK_SIZE: usize = 64;

/// What the piece hasher returns for one byte block. Relied on as a pure
/// function of the block's bytes; its 32-byte digests are combined
/// pairwise with the same function on the 64-byte concatenation.
pub uninterp spec fn leaf_hash(block: Seq<u8>) -> Seq<u8>;

/// Relies on the piece leaf hasher of `filecoin_hashers` (sha256 with the
/// two high bits of the last digest byte cleared): the digest is a
/// function of the input bytes alone.
#[verifier::external_body]
fn hash_block(data: &[u8]) -> (r: [u8; 32])
    ensures
        r@ == leaf_hash(data@),
{
    let h = <filecoin_hashers::sha256::Sha256Hasher as Hasher>::Function::hash(data);
    let mut out = [0u8; 32];
    out.copy_from_slice(AsRef::<[u8]>::as_ref(&h));
    out
}

/// The hashes of the consecutive 64-byte blocks of `data`.
pub open spec fn leaf_row(data: Seq<u8>) -> Seq<Seq<u8>> {
    Seq::new((data.len() / 64) as nat, |i: int| leaf_hash(data.subrange(64 * i, 64 * i + 64)))
}

/// One reduction level: adjacent pairs combined with the block hash.
pub open spec fn combine_row(row: Seq<Seq<u8>>) -> Seq<Seq<u8>> {
    Seq::new((row.len() / 2) as nat, |i: int| leaf_hash(row[2 * i] + row[2 * i + 1]))
}

/// The root that repeated pairwise reduction of `row` ends in.
pub open spec fn reduce_root(row: Seq<Seq<u8>>) -> Seq<u8>
    decreases row.len(),
{
    if row.len() == 0 {
        Seq::empty()
    } else if row.len() == 1 {
        row[0]
    } else {
        reduce_root(combine_row(row))
    }
}

/// The commitment over a whole byte string: its leaf hashes reduced to
/// one root.
pub open spec fn commitment_of(data: Seq<u8>) -> Seq<u8> {
    reduce_root(leaf_row(data))
}

/// `n` is a power of two.
pub open spec fn is_pow2(n: nat) -> bool
    decreases n,
{
    n >= 1 && (n == 1 || (n % 2 == 0 && is_pow2(n / 2)))
}

/// Calculates the commitment of the data staged into it. The data must
/// arrive bit padded, and its total length must be a power of two number
/// of 64-byte blocks.
pub struct CommitmentReader {
    buffer: Vec<u8>,
    buffer_pos: usize,
    current_tree: Vec<[u8; 32]>,
    streamed: Ghost<Seq<u8>>,
}

/// The 32-byte views of a hash row.
pub open spec fn row_views(v: Seq<[u8; 32]>) -> Seq<Seq<u8>> {
    Seq::new(v.len(), |i: int| v[i]@)
}

impl CommitmentReader {
    /// All bytes staged so far, in order.
    pub closed spec fn streamed(&self) -> Seq<u8> {
        self.streamed@
    }

    /// Bytes staged but not hashed yet.
    pub closed spec fn pending(&self) -> nat {
        self.buffer_pos as nat
    }

    /// The staging area holds the tail of the stream; every completed
    /// 64-byte block before it has its leaf hash in `current_tree`.
    pub closed spec fn wf(&self) -> bool {
        &&& self.buffer@.len() == 4096
        &&& self.buffer_pos < 4096
        &&& self.buffer_pos % 64 == 0 ==> self.buffer_pos == 0
        &&& self.streamed@.len() == self.current_tree@.len() * 64 + self.buffer_pos
        &&& row_views(self.current_tree@) == leaf_row(self.streamed@.take(
            (self.current_tree@.len() * 64) as int,
        ))
        &&& self.buffer@.take(self.buffer_pos as int) == self.streamed@.skip(
            (self.current_tree@.len() * 64) as int,
        )
    }

    pub fn new() -> (r: CommitmentReader)
        ensures
            r.wf(),
            r.streamed() == Seq::<u8>::empty(),
            r.pending() == 0,
    {
        let mut buffer: Vec<u8> = Vec::new();
        let mut i: usize = 0;
        while i < 4096
            invariant
                i <= 4096,
                buffer@.len() == i,
            decreases 4096 - i,
        {
            buffer.push(0u8);
            i = i + 1;
        }
        let r = CommitmentReader {
            buffer,
            buffer_pos: 0,
            current_tree: Vec::new(),
            streamed: Ghost(Seq::empty()),
        };
        proof {
            assert(row_views(r.current_tree@) =~= leaf_row(r.streamed@.take(0)));
            assert(r.buffer@.take(0) =~= r.streamed@.skip(0));
        }
        r
    }

    /// Hash every completed 64-byte block in the staging area, but only
    /// when no partial block is staged behind them.
    fn try_hash(&mut self)
        requires
            old(self).buffer@.len() == 4096,
            old(self).buffer_pos <= 4096,
            old(self).streamed@.len() == old(self).current_tree@.len() * 64 + old(
                self,
            ).buffer_pos,
            row_views(old(self).current_tree@) == leaf_row(
                old(self).streamed@.take((old(self).current_tree@.len() * 64) as int),
            ),
            old(self).buffer@.take(old(self).buffer_pos as int) == old(self).streamed@.skip(
                (old(self).current_tree@.len() * 64) as int,
            ),
        ensures
            final(self).wf(),
            final(self).streamed@ == old(self).streamed@,
    {
        if self.buffer_pos % 64 != 0 {
            return ;
        }
        let ghost base = self.current_tree@.len();
        let ghost stream = self.streamed@;
        let pos = self.buffer_pos;
        let mut off: usize = 0;
        while off + 64 <= pos
            invariant
                self.buffer == old(self).buffer,
                self.buffer_pos == old(self).buffer_pos,
                self.streamed == old(self).streamed,
                pos == self.buffer_pos,
                pos <= 4096,
                off <= pos,
                self.buffer@.len() == 4096,
                stream == self.streamed@,
                stream.len() == base * 64 + pos,
                self.current_tree@.len() * 64 == base * 64 + off,
                row_views(self.current_tree@) == leaf_row(
                    stream.take((self.current_tree@.len() * 64) as int),
                ),
                self.buffer@.take(pos as int) == stream.skip((base * 64) as int),
            decreases pos - off,
        {
            let chunk = vstd::slice::slice_subrange(self.buffer.as_slice(), off, off + 64);
            let h = hash_block(chunk);
            proof {
                let tlen = self.current_tree@.len() as int;
                assert(tlen * 64 == base * 64 + off);
                assert(chunk@ =~= self.buffer@.take(pos as int).subrange(
                    off as int,
                    off as int + 64,
                ));
                assert(self.buffer@.take(pos as int).subrange(off as int, off as int + 64)
                    == stream.skip((base * 64) as int).subrange(off as int, off as int + 64));
                assert(stream.skip((base * 64) as int).subrange(off as int, off as int + 64)
                    =~= stream.subrange(tlen * 64, tlen * 64 + 64));
                assert(chunk@ == stream.subrange(tlen * 64, tlen * 64 + 64));
                let new_take = stream.take(tlen * 64 + 64);
                assert(new_take.len() == tlen * 64 + 64);
                assert((tlen * 64 + 64) / 64 == tlen + 1) by (nonlinear_arith);
                assert(leaf_row(new_take).len() == tlen + 1);
                assert forall|i: int|
                    0 <= i < tlen + 1 implies #[trigger] row_views(self.current_tree@.push(h))[i]
                    == leaf_row(new_take)[i] by {
                    if i < tlen {
                        assert(row_views(self.current_tree@)[i] == leaf_row(
                            stream.take(tlen * 64),
                        )[i]);
                        assert(new_take.subrange(64 * i, 64 * i + 64) =~= stream.take(
                            tlen * 64,
                        ).subrange(64 * i, 64 * i + 64));
                    } else {
                        assert(new_take.subrange(64 * tlen, 64 * tlen + 64) =~= stream.subrange(
                            tlen * 64,
                            tlen * 64 + 64,
                        ));
                    }
                }
                assert(row_views(self.current_tree@.push(h)) =~= leaf_row(
                    stream.take(tlen * 64 + 64),
                ));
            }
            self.current_tree.push(h);
            off = off + 64;
        }
        self.buffer_pos = 0;
        proof {
            assert(self.buffer@.take(0) =~= self.streamed@.skip((self.current_tree@.len() * 64) as int));
            assert(self.streamed@.take((self.current_tree@.len() * 64) as int) =~= self.streamed@);
        }
    }

    /// Stage as much of `data` as the staging area still takes, then hash
    /// any completed blocks. Returns how many bytes were taken; the bytes
    /// themselves are never altered.
    pub fn feed(&mut self, data: &[u8]) -> (consumed: usize)
        requires
            old(self).wf(),
        ensures
            final(self).wf(),
            consumed == if data@.len() <= 4096 - old(self).pending() {
                data@.len() as int
            } else {
                4096 - old(self).pending()
            },
            final(self).streamed() == old(self).streamed() + data@.take(consumed as int),
    {
        let start = self.buffer_pos;
        let left = 4096 - start;
        let n = if data.len() < left {
            data.len()
        } else {
            left
        };
        let ghost old_stream = self.streamed@;
        let ghost tlen = self.current_tree@.len();
        let mut j: usize = 0;
        while j < n
            invariant
                self.buffer_pos == old(self).buffer_pos,
                self.current_tree == old(self).current_tree,
                self.streamed == old(self).streamed,
                n <= data@.len(),
                start == old(self).buffer_pos,
                start + n <= 4096,
                j <= n,
                self.buffer@.len() == 4096,
                forall|k: int| 0 <= k < start ==> self.buffer@[k] == old(self).buffer@[k],
                forall|k: int| 0 <= k < j ==> self.buffer@[start + k] == data@[k],
            decreases n - j,
        {
            let b = data[j];
            self.buffer.set(start + j, b);
            j = j + 1;
        }
        self.buffer_pos = start + n;
        self.streamed = Ghost(old_stream + data@.take(n as int));
        proof {
            assert forall|k: int| 0 <= k < start implies self.buffer@[k] == old_stream[tlen * 64
                + k] by {
                assert(old(self).buffer@.take(start as int)[k] == old_stream.skip(
                    (tlen * 64) as int,
                )[k]);
            }
            assert(self.buffer@.take(self.buffer_pos as int) =~= self.streamed@.skip((tlen * 64) as int));
            assert(self.streamed@.take((tlen * 64) as int) =~= old_stream.take((tlen * 64) as int));
        }
        self.try_hash();
        n
    }

    /// Stage all of `data`, in order, however many staging rounds that
    /// takes.
    pub fn feed_all(&mut self, data: &[u8])
        requires
            old(self).wf(),
            old(self).streamed().len() + data@.len() <= usize::MAX,
        ensures
            final(self).wf(),
            final(self).streamed() == old(self).streamed() + data@,
    {
        let mut done: usize = 0;
        while done < data.len()
            invariant
                self.wf(),
                done <= data@.len(),
                self.streamed() == old(self).streamed() + data@.take(done as int),
            decreases data@.len() - done,
        {
            let rest = vstd::slice::slice_subrange(data, done, data.len());
            let consumed = self.feed(rest);
            proof {
                assert(consumed >= 1) by {
                    assert(rest@.len() >= 1);
                };
                assert((old(self).streamed() + data@.take(done as int)) + rest@.take(
                    consumed as int,
                ) =~= old(self).streamed() + data@.take(done as int + consumed as int));
            }
            done = done + consumed;
        }
        proof {
            assert(data@.take(data@.len() as int) =~= data@);
        }
    }

    /// Reduce the accumulated leaf hashes to the commitment root.
    ///
    /// The staged byte count must be a multiple of 64 (else the stream
    /// was incomplete, a recoverable error), and the number of leaf
    /// blocks must be a power of two: anything else is a broken caller
    /// contract, left out by precondition.
    pub fn finish(self) -> (r: Result<[u8; 32], PipelineError>)
        requires
            self.wf(),
            self.streamed().len() % 64 == 0 ==> is_pow2((self.streamed().len() / 64) as nat),
        ensures
            match r {
                Ok(root) => {
                    &&& self.streamed().len() % 64 == 0
                    &&& root@ == commitment_of(self.streamed())
                },
                Err(e) => {
                    &&& self.streamed().len() % 64 != 0
                    &&& e == (PipelineError::IncompleteInput { staged: self.pending() as usize })
                },
            },
    {
        let ghost stream = self.streamed@;
        if self.buffer_pos != 0 {
            proof {
                assert(stream.len() % 64 == self.buffer_pos % 64) by (nonlinear_arith)
                    requires
                        stream.len() == self.current_tree@.len() * 64 + self.buffer_pos,
                        self.buffer_pos < 4096,
                ;
            }
            return Err(PipelineError::IncompleteInput { staged: self.buffer_pos });
        }
        proof {
            assert(stream.len() % 64 == 0) by (nonlinear_arith)
                requires
                    stream.len() == self.current_tree@.len() * 64,
            ;
            assert(stream.len() / 64 == self.current_tree@.len()) by (nonlinear_arith)
                requires
                    stream.len() == self.current_tree@.len() * 64,
            ;
            assert(stream.take((self.current_tree@.len() * 64) as int) =~= stream);
        }
        let mut row = self.current_tree;
        let mut row_len = row.len();
        while row_len > 1
            invariant
                row_len == row@.len(),
                is_pow2(row@.len() as nat),
                reduce_root(row_views(row@)) == commitment_of(stream),
            decreases row@.len(),
        {
            let mut next: Vec<[u8; 32]> = Vec::new();
            let half = row.len() / 2;
            proof {
                assert(2 * (row@.len() / 2) <= row@.len());
            }
            let mut i: usize = 0;
            let mut jj: usize = 0;
            while i < half
                invariant
                    row@.len() >= 2,
                    half == row@.len() / 2,
                    i <= half,
                    jj == 2 * i,
                    row_len == row@.len(),
                    half == row_len / 2,
                    next@.len() == i,
                    forall|k: int|
                        0 <= k < i ==> #[trigger] next@[k]@ == leaf_hash(
                            row@[2 * k]@ + row@[2 * k + 1]@,
                        ),
                decreases half - i,
            {
                let mut buf: Vec<u8> = Vec::new();
                let a = row[jj];
                let b = row[jj + 1];
                let mut k: usize = 0;
                while k < 32
                    invariant
                        k <= 32,
                        buf@ == a@.take(k as int),
                    decreases 32 - k,
                {
                    buf.push(a[k]);
                    proof {
                        assert(buf@ =~= a@.take(k as int + 1));
                    }
                    k = k + 1;
                }
                let mut k2: usize = 0;
                while k2 < 32
                    invariant
                        k2 <= 32,
                        buf@ == a@.take(32) + b@.take(k2 as int),
                    decreases 32 - k2,
                {
                    buf.push(b[k2]);
                    proof {
                        assert(buf@ =~= a@.take(32) + b@.take(k2 as int + 1));
                    }
                    k2 = k2 + 1;
                }
                proof {
                    assert(buf@ =~= a@ + b@);
                }
                let h = hash_block(buf.as_slice());
                next.push(h);
                proof {
                    assert(jj + 2 == 2 * (i + 1));
                    assert(2 * (i + 1) <= 2 * half);
                    assert(2 * half <= row_len);
                }
                i = i + 1;
                jj = jj + 2;
            }
            proof {
                assert(row_views(next@) =~= combine_row(row_views(row@)));
                lemma_pow2_half(row@.len() as nat);
            }
            row = next;
            row_len = row.len();
        }
        proof {
            assert(row@.len() == 1);
            assert(row_views(row@)[0] == row@[0]@);
        }
        Ok(row[0])
    }
}

/// Halving a power of two at least 2 gives a power of two, exactly.
proof fn lemma_pow2_half(n: nat)
    requires
        is_pow2(n),
        n >= 2,
    ensures
        n % 2 == 0,
        is_pow2(n / 2),
{
}

/// Reference whole-buffer commitment: the same root as streaming the
/// buffer through a `CommitmentReader`, computed in one call.
pub fn compute_commitment(data: &[u8]) -> (r: Result<[u8; 32], PipelineError>)
    requires
        data@.len() % 64 == 0 ==> is_pow2((data@.len() / 64) as nat),
    ensures
        match r {
            Ok(root) => {
                &&& data@.len() % 64 == 0
                &&& root@ == commitment_of(data@)
            },
            Err(e) => {
                &&& data@.len() % 64 != 0
                &&& e matches PipelineError::IncompleteInput { .. }
            },
        },
{
    let total = data.len();
    proof {
        assert(total == data@.len());
    }
    let mut reader = CommitmentReader::new();
    reader.feed_all(data);
    proof {
        assert(reader.streamed() =~= data@);
    }
    reader.finish()
}

} // verus!
