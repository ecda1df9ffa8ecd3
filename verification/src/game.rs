//! Integer tuning constants of the game.
use vstd::prelude::*;

use crate::archetypes::AsteroidSizes;

verus! {

/// Health of an entity that is given no explicit health.
pub const DEFAULT_HEALTH: i32 = 1;

/// Milliseconds between two shots of a projectile emitter.
pub const DEFAULT_PROJECTILE_EMISSION_COOLDOWN: i32 = 100;

/// Damage dealt by an entity that is given no explicit damage.
pub const DEFAULT_DAMAGE: i32 = 1;

/// Lifetime of a projectile, in seconds.
pub const DEFAULT_DURATION_SECS: u64 = 5;

/// Health of a freshly spawned player ship.
pub const INIT_SHIP_HEALTH: i32 = 3;

/// Damage dealt by an asteroid that is given no explicit damage.
pub const INIT_ASTEROID_DAMAGE: i32 = 1;

/// Health of a small asteroid.
pub const SMALL_ASTEROID_HEALTH: i32 = 1;

/// Health of a medium asteroid.
pub const MEDIUM_ASTEROID_HEALTH: i32 = 3;

/// Health of a large asteroid.
pub const LARGE_ASTEROID_HEALTH: i32 = 5;


/// The side counts of the asteroid meshes, in the order they are built.
pub open spec fn asteroid_side_counts() -> Seq<usize> {
    seq![5usize, 6usize, 8usize]
}

/// The asteroid meshes in the order they are built and stored: for each side
/// count (5, 6, 8), a small, a medium and a large polygon.
pub open spec fn spec_asteroid_mesh_layout() -> Seq<(usize, AsteroidSizes)> {
    seq![
        (5usize, AsteroidSizes::Small), (5usize, AsteroidSizes::Medium), (5usize, AsteroidSizes::Large),
        (6usize, AsteroidSizes::Small), (6usize, AsteroidSizes::Medium), (6usize, AsteroidSizes::Large),
        (8usize, AsteroidSizes::Small), (8usize, AsteroidSizes::Medium), (8usize, AsteroidSizes::Large),
    ]
}

fn push_all_sizes(layout: &mut Vec<(usize, AsteroidSizes)>, n_sides: usize)
    ensures
        final(layout)@ == old(layout)@ + seq![
            (n_sides, AsteroidSizes::Small),
            (n_sides, AsteroidSizes::Medium),
            (n_sides, AsteroidSizes::Large),
        ],
{
    layout.push((n_sides, AsteroidSizes::Small));
    layout.push((n_sides, AsteroidSizes::Medium));
    layout.push((n_sides, AsteroidSizes::Large));
}

/// The side count and size of each asteroid mesh, in the order the meshes are
/// built and stored: side counts 5, 6, 8 in turn, each in small, medium and
/// large.
pub fn asteroid_mesh_layout() -> (layout: Vec<(usize, AsteroidSizes)>)
    ensures
        layout@ == spec_asteroid_mesh_layout(),
{
    let mut layout: Vec<(usize, AsteroidSizes)> = Vec::new();
    push_all_sizes(&mut layout, 5);
    push_all_sizes(&mut layout, 6);
    push_all_sizes(&mut layout, 8);
    assert(layout@ =~= spec_asteroid_mesh_layout());
    layout
}

} // verus!
