//! Decisions taken from the keyboard state each fixed update: turning,
//! firing and thrusting.
use vstd::prelude::*;

use crate::components::FireType;

verus! {

/// Direction in which the ship turns: `1` (counter-clockwise) while the
/// turn-left key is held, `-1` while the turn-right key is held, `0` when
/// neither or both are held.
pub fn turn_direction(left_pressed: bool, right_pressed: bool) -> (sign: i8)
    ensures
        sign == (if left_pressed { 1int } else { 0int }) - (if right_pressed { 1int } else { 0int }),
{
    let mut sign: i8 = 0;
    if left_pressed {
        sign = sign + 1;
    }
    if right_pressed {
        sign = sign - 1;
    }
    sign
}

/// Whether the cooldown of an emitter has run out: the milliseconds since its
/// last shot, taken as an `i32` (keeping the low 32 bits), reach the cooldown.
pub open spec fn cooldown_elapsed(elapsed_ms: u128, cooldown_ms: i32) -> bool {
    elapsed_ms as i32 >= cooldown_ms
}

/// Whether a projectile emitter fires this update: the fire key is held, the
/// emitter fires primary shots, and its cooldown has run out.
pub fn emitter_fires(fire_pressed: bool, fire_type: FireType, elapsed_ms: u128, cooldown_ms: i32) -> (fires: bool)
    ensures
        fires == (fire_pressed && fire_type == FireType::Primary && cooldown_elapsed(
            elapsed_ms,
            cooldown_ms,
        )),
        elapsed_ms <= i32::MAX ==> fires == (fire_pressed && fire_type == FireType::Primary
            && elapsed_ms >= cooldown_ms),
{
    if !fire_pressed {
        return false;
    }
    match fire_type {
        FireType::Primary => {
            let elapsed = elapsed_ms as i32;
            proof {
                if elapsed_ms <= i32::MAX {
                    assert(elapsed_ms as i32 == elapsed_ms) by (bit_vector)
                        requires
                            elapsed_ms <= 0x7fff_ffffu128,
                    ;
                }
            }
            elapsed >= cooldown_ms
        },
        FireType::Secondary => false,
    }
}

/// Once an emitter may fire, it may still fire later, as long as the elapsed
/// milliseconds fit in an `i32`.
pub proof fn lemma_cooldown_stays_elapsed(earlier_ms: u128, later_ms: u128, cooldown_ms: i32)
    requires
        earlier_ms <= later_ms <= i32::MAX,
        cooldown_elapsed(earlier_ms, cooldown_ms),
    ensures
        cooldown_elapsed(later_ms, cooldown_ms),
{
    assert(earlier_ms as i32 == earlier_ms && later_ms as i32 == later_ms) by (bit_vector)
        requires
            earlier_ms <= later_ms <= 0x7fff_ffffu128,
    ;
}

/// What the ship's thrusters do in one update.
#[derive(Debug, Clone, Copy, PartialEq, Eq)]
pub struct ThrustPlan {
    /// Push the ship forward with the sum of its thrusters.
    pub apply_force: bool,
    /// Restart the thrust-sound stopwatch and play the thrust sound again.
    pub repeat_sound: bool,
    /// Play the thrust sound as thrusting starts.
    pub start_sound: bool,
    /// Tell the effects that thrusting started.
    pub effect_on: bool,
    /// Tell the effects that thrusting stopped (sent after `effect_on`).
    pub effect_off: bool,
}

/// The thrust decisions for one ship: force while the thrust key is held, the
/// sound again while it is held and the sound interval has passed, the sound
/// and the "on" effect when it is first pressed, the "off" effect when it is
/// released.
pub fn plan_thrust(
    thrust_pressed: bool,
    thrust_just_pressed: bool,
    thrust_just_released: bool,
    sound_interval_elapsed: bool,
) -> (plan: ThrustPlan)
    ensures
        plan.apply_force == thrust_pressed,
        plan.repeat_sound == (thrust_pressed && sound_interval_elapsed),
        plan.start_sound == thrust_just_pressed,
        plan.effect_on == thrust_just_pressed,
        plan.effect_off == thrust_just_released,
{
    ThrustPlan {
        apply_force: thrust_pressed,
        repeat_sound: thrust_pressed && sound_interval_elapsed,
        start_sound: thrust_just_pressed,
        effect_on: thrust_just_pressed,
        effect_off: thrust_just_released,
    }
}

} // verus!
