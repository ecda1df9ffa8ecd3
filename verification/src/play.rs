//! Layout of the play field: the regular grids used for the star field and
//! the debug grid, and the rows of asteroids that are set to clash.
use vstd::prelude::*;

use crate::archetypes::{size_rank, AsteroidSizes};

verus! {

/// The positions `0, step, 2 * step, ...` that lie below `end`, in increasing
/// order, as `(0..end).step_by(step)` yields them.
pub fn step_positions(end: i64, step: u64) -> (positions: Vec<i64>)
    requires
        step > 0,
    ensures
        forall|k: int| 0 <= k < positions.len() ==> #[trigger] positions[k] == k * step,
        forall|k: int| 0 <= k < positions.len() ==> #[trigger] positions[k] < end,
        positions.len() * step >= end,
{
    let mut positions: Vec<i64> = Vec::new();
    let mut next: i128 = 0;
    assert(0 * step == 0) by (nonlinear_arith);
    while next < end as i128
        invariant
            step > 0,
            0 <= next,
            next == positions.len() * step,
            next <= i64::MAX as int + u64::MAX as int,
            forall|k: int| 0 <= k < positions.len() ==> #[trigger] positions[k] == k * step,
            forall|k: int| 0 <= k < positions.len() ==> #[trigger] positions[k] < end,
        decreases end as int + step as int - next as int,
    {
        let ghost len = positions.len();
        positions.push(next as i64);
        assert(positions[len as int] == len * step);
        next = next + step as i128;
        assert(next == (len + 1) * step) by (nonlinear_arith)
            requires
                next == len * step + step,
        ;
    }
    positions
}

/// The pairs of asteroid sizes that are set to clash, one row each.
pub open spec fn spec_clashing_asteroid_pairs() -> Seq<(AsteroidSizes, AsteroidSizes)> {
    seq![
        (AsteroidSizes::Small, AsteroidSizes::Small),
        (AsteroidSizes::Small, AsteroidSizes::Medium),
        (AsteroidSizes::Small, AsteroidSizes::Large),
        (AsteroidSizes::Medium, AsteroidSizes::Medium),
        (AsteroidSizes::Medium, AsteroidSizes::Large),
        (AsteroidSizes::Large, AsteroidSizes::Large),
    ]
}

/// The pairs of asteroid sizes of the rows of clashing asteroids, from left to
/// right: the first asteroid of a pair flies down, the second up.
pub fn clashing_asteroid_pairs() -> (pairs: Vec<(AsteroidSizes, AsteroidSizes)>)
    ensures
        pairs@ == spec_clashing_asteroid_pairs(),
{
    let mut pairs: Vec<(AsteroidSizes, AsteroidSizes)> = Vec::new();
    pairs.push((AsteroidSizes::Small, AsteroidSizes::Small));
    pairs.push((AsteroidSizes::Small, AsteroidSizes::Medium));
    pairs.push((AsteroidSizes::Small, AsteroidSizes::Large));
    pairs.push((AsteroidSizes::Medium, AsteroidSizes::Medium));
    pairs.push((AsteroidSizes::Medium, AsteroidSizes::Large));
    pairs.push((AsteroidSizes::Large, AsteroidSizes::Large));
    assert(pairs@ =~= spec_clashing_asteroid_pairs());
    pairs
}

/// Every pair of sizes, smaller first, appears in exactly one row of clashing
/// asteroids, and no row has the larger asteroid first.
pub proof fn lemma_every_size_pair_clashes_once(first: AsteroidSizes, second: AsteroidSizes)
    requires
        size_rank(first) <= size_rank(second),
    ensures
        exists|i: int|
            0 <= i < spec_clashing_asteroid_pairs().len() && spec_clashing_asteroid_pairs()[i] == (
            first,
            second,
        ),
        forall|i: int, j: int|
            0 <= i < spec_clashing_asteroid_pairs().len() && 0 <= j < spec_clashing_asteroid_pairs().len()
                && spec_clashing_asteroid_pairs()[i] == spec_clashing_asteroid_pairs()[j] ==> i == j,
        forall|i: int|
            0 <= i < spec_clashing_asteroid_pairs().len() ==> size_rank(
                #[trigger] spec_clashing_asteroid_pairs()[i].0,
            ) <= size_rank(spec_clashing_asteroid_pairs()[i].1),
{
    let pairs = spec_clashing_asteroid_pairs();
    let i: int = match (first, second) {
        (AsteroidSizes::Small, AsteroidSizes::Small) => 0,
        (AsteroidSizes::Small, AsteroidSizes::Medium) => 1,
        (AsteroidSizes::Small, AsteroidSizes::Large) => 2,
        (AsteroidSizes::Medium, AsteroidSizes::Medium) => 3,
        (AsteroidSizes::Medium, AsteroidSizes::Large) => 4,
        _ => 5,
    };
    assert(pairs[i] == (first, second));
}

} // verus!
