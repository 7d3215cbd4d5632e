//! Time bucketing: snapping a timestamp onto the resolution grid.

use vstd::prelude::*;
use vstd::arithmetic::div_mod::{lemma_fundamental_div_mod, lemma_mod_multiples_basic};
use vstd::arithmetic::mul::lemma_mul_inequality;

verus! {

/// The bucket that `timestamp` falls in on a grid of width `resolution`: the
/// greatest multiple of `resolution` that does not exceed `timestamp`.
pub open spec fn bucket_of(timestamp: nat, resolution: nat) -> nat
    recommends
        resolution > 0,
{
    ((timestamp / resolution) * resolution) as nat
}

/// The bucket of a timestamp is a grid point, it lies less than one grid
/// width below the timestamp, and no grid point lies between the two.
pub proof fn law_bucket(timestamp: nat, resolution: nat)
    requires
        resolution > 0,
    ensures
        bucket_of(timestamp, resolution) % resolution == 0,
        bucket_of(timestamp, resolution) <= timestamp < bucket_of(timestamp, resolution)
            + resolution,
        forall|k: nat| #[trigger] (k * resolution) <= timestamp ==> k * resolution <= bucket_of(
            timestamp,
            resolution,
        ),
{
    let q = timestamp / resolution;
    lemma_fundamental_div_mod(timestamp as int, resolution as int);
    lemma_mod_multiples_basic(q as int, resolution as int);
    assert(q * resolution == resolution * q) by (nonlinear_arith);
    assert forall|k: nat| #[trigger] (k * resolution) <= timestamp implies k * resolution
        <= bucket_of(timestamp, resolution) by {
        if k > q {
            lemma_mul_inequality(q as int + 1, k as int, resolution as int);
            assert((q + 1) * resolution == q * resolution + resolution) by (nonlinear_arith);
        } else {
            lemma_mul_inequality(k as int, q as int, resolution as int);
        }
    }
}

/// A timestamp on the grid is its own bucket.
pub proof fn law_bucket_of_grid_point(timestamp: nat, resolution: nat)
    requires
        resolution > 0,
        timestamp % resolution == 0,
    ensures
        bucket_of(timestamp, resolution) == timestamp,
{
    lemma_fundamental_div_mod(timestamp as int, resolution as int);
    assert((timestamp / resolution) * resolution == resolution * (timestamp / resolution))
        by (nonlinear_arith);
}

/// Snaps `timestamp` down to the nearest grid point of width `resolution`.
pub fn normalize(timestamp: u64, resolution: u64) -> (bucket: u64)
    requires
        resolution > 0,
    ensures
        bucket == bucket_of(timestamp as nat, resolution as nat),
        bucket % resolution == 0,
        bucket <= timestamp,
        timestamp - bucket < resolution,
{
    proof {
        law_bucket(timestamp as nat, resolution as nat);
        lemma_fundamental_div_mod(timestamp as int, resolution as int);
        assert((timestamp / resolution) * resolution == resolution * (timestamp / resolution))
            by (nonlinear_arith);
    }
    timestamp - timestamp % resolution
}

} // verus!
