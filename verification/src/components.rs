//! Plain data carried by the game's entities.
use vstd::prelude::*;

verus! {

/// The kind of shot a projectile emitter fires.
#[derive(Debug, Clone, Copy, PartialEq, Eq)]
pub enum FireType {
    Primary,
    Secondary,
}

/// The fire type an emitter is built with: the one asked for, else primary
/// fire.
pub fn fire_type_or_primary(fire_type: Option<FireType>) -> (resolved: FireType)
    ensures
        resolved == match fire_type {
            Some(t) => t,
            None => FireType::Primary,
        },
{
    match fire_type {
        Some(t) => t,
        None => FireType::Primary,
    }
}

} // verus!
