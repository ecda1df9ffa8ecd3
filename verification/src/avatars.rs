//! Choosing how an asteroid looks and how much it takes to destroy it.
use vstd::prelude::*;

use crate::archetypes::{size_rank, AsteroidSizes};
use crate::game::{
    spec_asteroid_mesh_layout, LARGE_ASTEROID_HEALTH, MEDIUM_ASTEROID_HEALTH, SMALL_ASTEROID_HEALTH,
};

verus! {

/// The health of an asteroid of the given size.
pub open spec fn spec_asteroid_health(size: AsteroidSizes) -> i32 {
    match size {
        AsteroidSizes::Small => SMALL_ASTEROID_HEALTH,
        AsteroidSizes::Medium => MEDIUM_ASTEROID_HEALTH,
        AsteroidSizes::Large => LARGE_ASTEROID_HEALTH,
    }
}

/// The health an asteroid of the given size spawns with.
pub fn asteroid_health(size: AsteroidSizes) -> (health: i32)
    ensures
        health == spec_asteroid_health(size),
{
    match size {
        AsteroidSizes::Small => SMALL_ASTEROID_HEALTH,
        AsteroidSizes::Medium => MEDIUM_ASTEROID_HEALTH,
        AsteroidSizes::Large => LARGE_ASTEROID_HEALTH,
    }
}

/// Where a side count stands among the side counts that have meshes.
pub open spec fn sides_rank(n_sides: usize) -> Option<int> {
    if n_sides == 5 {
        Some(0)
    } else if n_sides == 6 {
        Some(1)
    } else if n_sides == 8 {
        Some(2)
    } else {
        None
    }
}

/// The index of the mesh of an asteroid: that of its size and side count in
/// the mesh layout, and the first mesh for a side count that has none.
pub open spec fn spec_asteroid_mesh_index(size: AsteroidSizes, n_sides: usize) -> int {
    match sides_rank(n_sides) {
        Some(r) => 3 * r + size_rank(size),
        None => 0,
    }
}

/// The index, among the stored asteroid meshes, of the mesh for an asteroid
/// of the given size and side count; an unknown side count gets the first
/// mesh.
pub fn asteroid_mesh_index(size: AsteroidSizes, n_sides: usize) -> (index: usize)
    ensures
        index == spec_asteroid_mesh_index(size, n_sides),
        index < 9,
{
    match size {
        AsteroidSizes::Small => match n_sides {
            5 => 0,
            6 => 3,
            8 => 6,
            _ => 0,
        },
        AsteroidSizes::Medium => match n_sides {
            5 => 1,
            6 => 4,
            8 => 7,
            _ => 0,
        },
        AsteroidSizes::Large => match n_sides {
            5 => 2,
            6 => 5,
            8 => 8,
            _ => 0,
        },
    }
}

/// The mesh handle of an asteroid of the given size and side count among the
/// stored handles.
pub fn select_asteroid_mesh<T>(mesh_handles: &Vec<T>, size: AsteroidSizes, n_sides: usize) -> (mesh: &T)
    requires
        spec_asteroid_mesh_index(size, n_sides) < mesh_handles.len(),
    ensures
        *mesh == mesh_handles@[spec_asteroid_mesh_index(size, n_sides)],
{
    let index = asteroid_mesh_index(size, n_sides);
    &mesh_handles[index]
}

/// For a side count that has meshes, the mesh chosen for an asteroid is the
/// one that was built with its side count and its size.
pub proof fn lemma_mesh_matches_layout(size: AsteroidSizes, n_sides: usize)
    requires
        sides_rank(n_sides) is Some,
    ensures
        0 <= spec_asteroid_mesh_index(size, n_sides) < spec_asteroid_mesh_layout().len(),
        spec_asteroid_mesh_layout()[spec_asteroid_mesh_index(size, n_sides)] == (n_sides, size),
{
}

/// Larger asteroids take more to destroy.
pub proof fn lemma_health_grows_with_size(smaller: AsteroidSizes, larger: AsteroidSizes)
    requires
        size_rank(smaller) < size_rank(larger),
    ensures
        spec_asteroid_health(smaller) < spec_asteroid_health(larger),
{
}

} // verus!
