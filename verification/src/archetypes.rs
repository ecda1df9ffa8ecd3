//! The integer parts of the entity archetypes: asteroid sizes and the health
//! and damage that projectiles and asteroids are built with.
use vstd::prelude::*;

use crate::game::{DEFAULT_DAMAGE, DEFAULT_HEALTH, INIT_ASTEROID_DAMAGE};

verus! {

/// The three sizes of asteroid.
#[derive(Debug, Clone, Copy, PartialEq, Eq)]
pub enum AsteroidSizes {
    Small,
    Medium,
    Large,
}

impl Default for AsteroidSizes {
    /// Asteroids are medium-sized unless asked otherwise.
    fn default() -> (size: Self)
        ensures
            size == AsteroidSizes::Medium,
    {
        AsteroidSizes::Medium
    }
}

/// The position of a size in the order small, medium, large.
pub open spec fn size_rank(size: AsteroidSizes) -> int {
    match size {
        AsteroidSizes::Small => 0,
        AsteroidSizes::Medium => 1,
        AsteroidSizes::Large => 2,
    }
}

/// The damage a projectile is built with: the one asked for, else the
/// default damage.
pub fn projectile_damage(damage: Option<i32>) -> (resolved: i32)
    ensures
        resolved == match damage {
            Some(d) => d,
            None => DEFAULT_DAMAGE,
        },
{
    match damage {
        Some(d) => d,
        None => DEFAULT_DAMAGE,
    }
}

/// The health and the damage an asteroid is built with: those asked for,
/// else the default health and the initial asteroid damage.
pub fn asteroid_vitals(health: Option<i32>, damage: Option<i32>) -> (vitals: (i32, i32))
    ensures
        vitals.0 == match health {
            Some(h) => h,
            None => DEFAULT_HEALTH,
        },
        vitals.1 == match damage {
            Some(d) => d,
            None => INIT_ASTEROID_DAMAGE,
        },
{
    let health = match health {
        Some(h) => h,
        None => DEFAULT_HEALTH,
    };
    let damage = match damage {
        Some(d) => d,
        None => INIT_ASTEROID_DAMAGE,
    };
    (health, damage)
}

} // verus!
