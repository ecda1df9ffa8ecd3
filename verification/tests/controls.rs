use aion::components::{fire_type_or_primary, FireType};
use aion::controls::{emitter_fires, plan_thrust, turn_direction, ThrustPlan};

#[test]
fn turning() {
    assert_eq!(turn_direction(false, false), 0);
    assert_eq!(turn_direction(true, false), 1);
    assert_eq!(turn_direction(false, true), -1);
    assert_eq!(turn_direction(true, true), 0);
}

#[test]
fn firing_waits_for_cooldown() {
    assert!(!emitter_fires(true, FireType::Primary, 99, 100));
    assert!(emitter_fires(true, FireType::Primary, 100, 100));
    assert!(emitter_fires(true, FireType::Primary, 5000, 100));
}

#[test]
fn firing_needs_key_and_primary() {
    assert!(!emitter_fires(false, FireType::Primary, 5000, 100));
    assert!(!emitter_fires(true, FireType::Secondary, 5000, 100));
}

#[test]
fn elapsed_time_is_taken_as_i32() {
    // 2^32 + 50 milliseconds keeps only its low 32 bits: 50.
    assert!(!emitter_fires(true, FireType::Primary, (1u128 << 32) + 50, 100));
    // 2^31 milliseconds wraps to a negative i32.
    assert!(!emitter_fires(true, FireType::Primary, 1u128 << 31, 0));
}

#[test]
fn fire_type_defaults_to_primary() {
    assert_eq!(fire_type_or_primary(None), FireType::Primary);
    assert_eq!(fire_type_or_primary(Some(FireType::Secondary)), FireType::Secondary);
}

#[test]
fn thrust_plans() {
    assert_eq!(
        plan_thrust(true, true, false, false),
        ThrustPlan { apply_force: true, repeat_sound: false, start_sound: true, effect_on: true, effect_off: false }
    );
    assert_eq!(
        plan_thrust(true, false, false, true),
        ThrustPlan { apply_force: true, repeat_sound: true, start_sound: false, effect_on: false, effect_off: false }
    );
    assert_eq!(
        plan_thrust(false, false, true, true),
        ThrustPlan { apply_force: false, repeat_sound: false, start_sound: false, effect_on: false, effect_off: true }
    );
}
