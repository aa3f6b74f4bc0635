//! How the executor of a run is set up.
use vstd::arithmetic::power2::{lemma2_to64, lemma_pow2_unfold, pow2};
use vstd::prelude::*;

verus! {

/// The base two logarithm of `n`, rounded down.
fn log2_floor(n: usize) -> (log: usize)
    requires
        n > 0,
    ensures
        pow2(log as nat) <= n < pow2(log as nat + 1),
{
    let mut left: usize = n;
    let mut log: usize = 0;
    proof {
        lemma2_to64();
    }
    while left > 1
        invariant
            left >= 1,
            log + left <= n,
            pow2(log as nat) * left <= n < pow2(log as nat) * (left + 1),
        decreases left,
    {
        let half: usize = left / 2;
        proof {
            let p = pow2(log as nat) as int;
            lemma_pow2_unfold(log as nat + 1);
            assert((2 * p) * half <= p * left) by (nonlinear_arith)
                requires
                    2 * half <= left,
                    p >= 0,
            ;
            assert(p * (left + 1) <= (2 * p) * (half + 1)) by (nonlinear_arith)
                requires
                    left + 1 <= 2 * (half + 1),
                    p >= 0,
            ;
        }
        left = half;
        log = log + 1;
    }
    proof {
        let p = pow2(log as nat) as int;
        lemma_pow2_unfold(log as nat + 1);
        assert(p * left == p && p * (left + 1) == 2 * p) by (nonlinear_arith)
            requires
                left == 1,
        ;
    }
    log
}

/// The size class of the shapes that the executor may fill a shard up to: the base two logarithm
/// of the shard size, rounded down. Without a shape configuration there is no such limit.
pub fn maximal_shapes_log2(has_shape_config: bool, shard_size: usize) -> (log: Option<usize>)
    requires
        has_shape_config ==> shard_size > 0,
    ensures
        log is Some <==> has_shape_config,
        log matches Some(log) ==> pow2(log as nat) <= shard_size < pow2(log as nat + 1),
{
    if has_shape_config {
        Some(log2_floor(shard_size))
    } else {
        None
    }
}

} // verus!
