//! Kinds of avatars and the collision events reported by the physics engine.
use vstd::prelude::*;

verus! {

/// The kinds of avatar that take part in effects.
#[derive(Debug, Clone, Copy, PartialEq, Eq)]
pub enum Avatars {
    PlayerShip,
    Asteroid,
    Projectile,
    Other,
}

impl Default for Avatars {
    /// An avatar of no particular kind.
    fn default() -> (avatar: Self)
        ensures
            avatar == Avatars::Other,
    {
        Avatars::Other
    }
}

/// A contact reported by the physics engine between two bodies, each given by
/// its index in the table of bodies of the current frame.
#[derive(Debug, Clone, Copy, PartialEq, Eq)]
pub enum CollisionEvent {
    Started(usize, usize),
    Stopped(usize, usize),
}

} // verus!
