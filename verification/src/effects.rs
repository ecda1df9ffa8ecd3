//! Which perceivable effects follow from game events.
use vstd::prelude::*;

use crate::events::Avatars;

verus! {

/// Whether a collision effect of the given avatar shows particles and plays
/// the impact sound: only projectiles do.
pub fn collision_effect_shows(avatar: Avatars) -> (shows: bool)
    ensures
        shows == (avatar == Avatars::Projectile),
{
    match avatar {
        Avatars::Projectile => true,
        _ => false,
    }
}

/// What happens to the particle systems of the ship's thrusters.
#[derive(Debug, Clone, Copy, PartialEq, Eq)]
pub struct ThrusterParticlePlan {
    /// Set the thruster particles playing.
    pub start: bool,
    /// Stop the thruster particles (done after `start`).
    pub stop: bool,
}

/// While a ship exists, its thruster particles play while the thrust key is
/// held and stop when it is released; without a ship nothing changes.
pub fn plan_thruster_particles(ship_exists: bool, thrust_pressed: bool, thrust_just_released: bool) -> (plan: ThrusterParticlePlan)
    ensures
        plan.start == (ship_exists && thrust_pressed),
        plan.stop == (ship_exists && thrust_just_released),
{
    if ship_exists {
        ThrusterParticlePlan { start: thrust_pressed, stop: thrust_just_released }
    } else {
        ThrusterParticlePlan { start: false, stop: false }
    }
}

} // verus!
