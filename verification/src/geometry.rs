//! Tree geometry: pure arithmetic converting sector byte sizes, the
//! base-tree count and the tree arity into Merkle tree element counts,
//! failing on inconsistent geometry.

use vstd::prelude::*;

use crate::errors::PipelineError;

verus! {

/// `n` is a positive power of `b` (including `b^0 == 1`), for `b >= 2`.
pub open spec fn is_pow_of(n: nat, b: nat) -> bool
    decreases n,
    via is_pow_of_decreases
{
    if b <= 1 {
        false
    } else if n == 1 {
        true
    } else if n == 0 || n % b != 0 {
        false
    } else {
        is_pow_of(n / b, b)
    }
}

#[via_fn]
proof fn is_pow_of_decreases(n: nat, b: nat) {
    if b >= 2 && n >= 2 {
        assert(n / b < n) by (nonlinear_arith)
            requires
                b >= 2,
                n >= 2,
        ;
    }
}

/// Element count of a tree with `leafs` leaves: each level holds an
/// `arity`-th of the level below it, down to the single root.
pub open spec fn spec_tree_len(leafs: nat, arity: nat) -> nat
    decreases leafs,
    via spec_tree_len_decreases
{
    if arity <= 1 || leafs <= 1 {
        leafs
    } else {
        (leafs + spec_tree_len(leafs / arity, arity)) as nat
    }
}

#[via_fn]
proof fn spec_tree_len_decreases(leafs: nat, arity: nat) {
    if arity >= 2 && leafs >= 2 {
        assert(leafs / arity < leafs) by (nonlinear_arith)
            requires
                arity >= 2,
                leafs >= 2,
        ;
    }
}

/// A tree has at least its leaves and fewer than twice as many elements.
proof fn lemma_tree_len_bounds(leafs: nat, arity: nat)
    requires
        arity >= 2,
    ensures
        spec_tree_len(leafs, arity) >= leafs,
        leafs >= 1 ==> spec_tree_len(leafs, arity) <= 2 * leafs - 1,
    decreases leafs,
{
    if leafs > 1 {
        assert(leafs / arity < leafs) by (nonlinear_arith)
            requires
                arity >= 2,
                leafs >= 2,
        ;
        lemma_tree_len_bounds(leafs / arity, arity);
        vstd::arithmetic::div_mod::lemma_div_is_ordered_by_denominator(
            leafs as int,
            2,
            arity as int,
        );
        assert(2 * (leafs / 2) <= leafs) by (nonlinear_arith);
    }
}

/// Powers of the same base are spaced by at least that base.
proof fn lemma_pow_step(l1: nat, l2: nat, b: nat)
    requires
        b >= 2,
        is_pow_of(l1, b),
        is_pow_of(l2, b),
        l1 < l2,
    ensures
        b * l1 <= l2,
    decreases l2,
{
    assert(l1 >= 1);
    assert(l2 >= 2);
    assert(l2 % b == 0);
    assert(is_pow_of(l2 / b, b));
    assert(l2 / b >= 1);
    assert(b * (l2 / b) == l2) by (nonlinear_arith)
        requires
            l2 % b == 0,
            b >= 2,
    ;
    if l1 == 1 {
        assert(b * 1 <= b * (l2 / b)) by (nonlinear_arith)
            requires
                l2 / b >= 1,
                b >= 0,
        ;
    } else {
        assert(l1 % b == 0);
        assert(b * (l1 / b) == l1) by (nonlinear_arith)
            requires
                l1 % b == 0,
                b >= 2,
    ;
        assert(l1 / b < l2 / b) by (nonlinear_arith)
            requires
                b >= 2,
                l1 < l2,
                b * (l1 / b) == l1,
                b * (l2 / b) == l2,
        ;
        assert(l2 / b < l2) by (nonlinear_arith)
            requires
                b >= 2,
                l2 >= 2,
        ;
        lemma_pow_step(l1 / b, l2 / b, b);
        assert(b * (b * (l1 / b)) <= b * (l2 / b)) by (nonlinear_arith)
            requires
                b * (l1 / b) <= l2 / b,
                b >= 0,
        ;
    }
}

/// The element count grows strictly with the leaf count, over powers of
/// the arity.
proof fn lemma_tree_len_strict(l1: nat, l2: nat, b: nat)
    requires
        b >= 2,
        is_pow_of(l1, b),
        is_pow_of(l2, b),
        l1 < l2,
    ensures
        spec_tree_len(l1, b) < spec_tree_len(l2, b),
{
    lemma_tree_len_bounds(l1, b);
    lemma_tree_len_bounds(l2, b);
    lemma_pow_step(l1, l2, b);
    assert(2 * l1 <= b * l1) by (nonlinear_arith)
        requires
            b >= 2,
            l1 >= 0,
    ;
}

/// Element count of a tree with the given leaf count and arity. The leaf
/// count must be a positive power of the arity; anything else is a
/// geometry failure.
pub fn tree_element_count(leafs: usize, arity: usize) -> (r: Result<usize, PipelineError>)
    requires
        leafs <= usize::MAX / 2,
    ensures
        match r {
            Ok(len) => {
                &&& arity >= 2
                &&& is_pow_of(leafs as nat, arity as nat)
                &&& len == spec_tree_len(leafs as nat, arity as nat)
            },
            Err(e) => {
                &&& e == (PipelineError::InvalidTreeGeometry { nodes: leafs, arity })
                &&& (arity < 2 || !is_pow_of(leafs as nat, arity as nat))
            },
        },
{
    if arity < 2 || leafs == 0 {
        return Err(PipelineError::InvalidTreeGeometry { nodes: leafs, arity });
    }
    proof {
        lemma_tree_len_bounds(leafs as nat, arity as nat);
    }
    let mut cur = leafs;
    let mut len = leafs;
    while cur > 1
        invariant
            arity >= 2,
            leafs >= 1,
            cur >= 1,
            leafs <= usize::MAX / 2,
            spec_tree_len(leafs as nat, arity as nat) <= 2 * leafs - 1,
            len + spec_tree_len(cur as nat, arity as nat) - cur == spec_tree_len(
                leafs as nat,
                arity as nat,
            ),
            len >= cur,
            is_pow_of(leafs as nat, arity as nat) <==> is_pow_of(cur as nat, arity as nat),
        decreases cur,
    {
        if cur % arity != 0 {
            return Err(PipelineError::InvalidTreeGeometry { nodes: leafs, arity });
        }
        proof {
            assert(cur / arity < cur) by (nonlinear_arith)
                requires
                    arity >= 2,
                    cur >= 1,
            ;
            assert(cur / arity >= 1) by (nonlinear_arith)
                requires
                    arity >= 2,
                    cur >= 2,
                    cur % arity == 0,
            ;
            lemma_tree_len_bounds((cur / arity) as nat, arity as nat);
            assert(len + cur / arity <= spec_tree_len(leafs as nat, arity as nat));
        }
        let next = cur / arity;
        len = len + next;
        cur = next;
    }
    Ok(len)
}

/// Element count of one base tree for the given sector geometry: the
/// sector's 32-byte nodes are spread over `base_tree_count` base trees of
/// the given arity. A size that does not divide into nodes, a node count
/// the base trees do not share evenly, or a leaf count that is not a
/// power of the arity is a typed failure.
pub fn get_base_tree_size(sector_size: u64, base_tree_count: usize, arity: usize) -> (r: Result<
    usize,
    PipelineError,
>)
    requires
        sector_size / 32 <= usize::MAX / 2,
    ensures
        match r {
            Ok(len) => {
                &&& sector_size % 32 == 0
                &&& base_tree_count >= 1
                &&& ((sector_size / 32) as nat % (base_tree_count as nat)) == 0
                &&& is_pow_of((sector_size / 32) as nat / (base_tree_count as nat), arity as nat)
                &&& len == spec_tree_len(
                    (sector_size / 32) as nat / (base_tree_count as nat),
                    arity as nat,
                )
            },
            Err(e) => {
                ||| e == (PipelineError::InvalidSectorSize { sector_bytes: sector_size })
                    && sector_size % 32 != 0
                ||| e matches PipelineError::InvalidTreeGeometry { .. } && sector_size % 32 == 0
            },
        },
{
    if sector_size % 32 != 0 {
        return Err(PipelineError::InvalidSectorSize { sector_bytes: sector_size });
    }
    let nodes = (sector_size / 32) as usize;
    if base_tree_count == 0 || nodes % base_tree_count != 0 {
        return Err(PipelineError::InvalidTreeGeometry { nodes, arity });
    }
    let leafs = nodes / base_tree_count;
    proof {
        assert(leafs <= nodes) by (nonlinear_arith)
            requires
                base_tree_count >= 1,
                leafs == nodes as int / base_tree_count as int,
                nodes >= 0,
        ;
    }
    tree_element_count(leafs, arity)
}

/// Leaf count of a base tree with the given element count: the unique
/// power of the arity whose tree is exactly that long, if one exists.
pub fn get_base_tree_leafs(base_tree_size: usize, arity: usize) -> (r: Result<
    usize,
    PipelineError,
>)
    ensures
        match r {
            Ok(leafs) => {
                &&& arity >= 2
                &&& is_pow_of(leafs as nat, arity as nat)
                &&& spec_tree_len(leafs as nat, arity as nat) == base_tree_size
            },
            Err(e) => {
                &&& e == (PipelineError::InvalidTreeGeometry { nodes: base_tree_size, arity })
                &&& (arity < 2 || forall|l: nat|
                    is_pow_of(l, arity as nat) ==> spec_tree_len(l, arity as nat)
                        != base_tree_size)
            },
        },
{
    if arity < 2 {
        return Err(PipelineError::InvalidTreeGeometry { nodes: base_tree_size, arity });
    }
    if base_tree_size == 0 {
        proof {
            assert forall|l: nat| is_pow_of(l, arity as nat) implies spec_tree_len(
                l,
                arity as nat,
            ) != base_tree_size by {
                lemma_tree_len_bounds(l, arity as nat);
            }
        }
        return Err(PipelineError::InvalidTreeGeometry { nodes: base_tree_size, arity });
    }
    let mut leafs: usize = 1;
    let mut total: usize = 1;
    let ghost mut prev_total: int = 0;
    while total < base_tree_size
        invariant
            arity >= 2,
            base_tree_size >= 1,
            leafs >= 1,
            is_pow_of(leafs as nat, arity as nat),
            total == spec_tree_len(leafs as nat, arity as nat),
            prev_total < total,
            prev_total < base_tree_size,
            forall|l: nat|
                #![trigger is_pow_of(l, arity as nat)]
                is_pow_of(l, arity as nat) && l < leafs ==> spec_tree_len(l, arity as nat)
                    < base_tree_size,
        decreases base_tree_size - prev_total,
    {
        let next = match leafs.checked_mul(arity) {
            Some(next) => next,
            None => {
                proof {
                    assert forall|l: nat| is_pow_of(l, arity as nat) implies spec_tree_len(
                        l,
                        arity as nat,
                    ) != base_tree_size by {
                        lemma_tree_len_bounds(l, arity as nat);
                        if l > leafs as nat {
                            lemma_pow_step(leafs as nat, l, arity as nat);
                        }
                    }
                }
                return Err(
                    PipelineError::InvalidTreeGeometry { nodes: base_tree_size, arity },
                );
            },
        };
        proof {
            assert((next as nat) % (arity as nat) == 0 && (next as nat) / (arity as nat)
                == leafs as nat) by (nonlinear_arith)
                requires
                    next == leafs * arity,
                    arity >= 2,
                    leafs >= 1,
            ;
            assert(next > leafs) by (nonlinear_arith)
                requires
                    next == leafs * arity,
                    arity >= 2,
                    leafs >= 1,
            ;
            assert(is_pow_of(next as nat, arity as nat));
            assert(spec_tree_len(next as nat, arity as nat) == next + spec_tree_len(
                leafs as nat,
                arity as nat,
            ));
            assert forall|l: nat|
                #![trigger is_pow_of(l, arity as nat)]
                is_pow_of(l, arity as nat) && l < next as nat implies spec_tree_len(
                l,
                arity as nat,
            ) < base_tree_size by {
                if l < leafs as nat {
                    assert(is_pow_of(l, arity as nat));
                } else if l == leafs as nat {
                    assert(spec_tree_len(l, arity as nat) == total);
                } else {
                    lemma_pow_step(leafs as nat, l, arity as nat);
                    assert(arity as nat * (leafs as nat) == next);
                    assert(false);
                }
            }
        }
        let new_total = match total.checked_add(next) {
            Some(t) => t,
            None => {
                proof {
                    assert forall|l: nat| is_pow_of(l, arity as nat) implies spec_tree_len(
                        l,
                        arity as nat,
                    ) != base_tree_size by {
                        if l > next as nat {
                            lemma_tree_len_strict(next as nat, l, arity as nat);
                        }
                    }
                }
                return Err(
                    PipelineError::InvalidTreeGeometry { nodes: base_tree_size, arity },
                );
            },
        };
        proof {
            prev_total = total as int;
        }
        leafs = next;
        total = new_total;
    }
    if total == base_tree_size {
        Ok(leafs)
    } else {
        proof {
            assert forall|l: nat| is_pow_of(l, arity as nat) implies spec_tree_len(
                l,
                arity as nat,
            ) != base_tree_size by {
                if l > leafs as nat {
                    lemma_tree_len_strict(leafs as nat, l, arity as nat);
                }
            }
        }
        Err(PipelineError::InvalidTreeGeometry { nodes: base_tree_size, arity })
    }
}

} // verus!
