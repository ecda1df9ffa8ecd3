use aion::archetypes::{asteroid_vitals, projectile_damage, AsteroidSizes};
use aion::avatars::{asteroid_health, asteroid_mesh_index, select_asteroid_mesh};
use aion::debug::{
    debug_visibility, resolution_requests, toggle_debug_display, DisplayVisibility, ResolutionPreset,
};
use aion::effects::{collision_effect_shows, plan_thruster_particles, ThrusterParticlePlan};
use aion::events::Avatars;
use aion::game::{asteroid_mesh_layout, DEFAULT_DAMAGE, DEFAULT_HEALTH, INIT_ASTEROID_DAMAGE};
use aion::play::{clashing_asteroid_pairs, step_positions};

const SIZES: [AsteroidSizes; 3] = [AsteroidSizes::Small, AsteroidSizes::Medium, AsteroidSizes::Large];

#[test]
fn mesh_layout_order() {
    let layout = asteroid_mesh_layout();
    assert_eq!(layout.len(), 9);
    assert_eq!(layout[0], (5, AsteroidSizes::Small));
    assert_eq!(layout[4], (6, AsteroidSizes::Medium));
    assert_eq!(layout[8], (8, AsteroidSizes::Large));
}

#[test]
fn chosen_mesh_matches_layout() {
    let layout = asteroid_mesh_layout();
    for size in SIZES {
        for n_sides in [5usize, 6, 8] {
            assert_eq!(layout[asteroid_mesh_index(size, n_sides)], (n_sides, size));
        }
    }
}

#[test]
fn unknown_side_count_gets_first_mesh() {
    for size in SIZES {
        assert_eq!(asteroid_mesh_index(size, 7), 0);
        assert_eq!(asteroid_mesh_index(size, 0), 0);
    }
}

#[test]
fn select_mesh_from_handles() {
    let handles: Vec<&str> = vec!["s5", "m5", "l5", "s6", "m6", "l6", "s8", "m8", "l8"];
    assert_eq!(*select_asteroid_mesh(&handles, AsteroidSizes::Large, 6), "l6");
    assert_eq!(*select_asteroid_mesh(&handles, AsteroidSizes::Medium, 8), "m8");
    assert_eq!(*select_asteroid_mesh(&handles, AsteroidSizes::Large, 3), "s5");
}

#[test]
fn asteroid_healths() {
    assert_eq!(asteroid_health(AsteroidSizes::Small), 1);
    assert_eq!(asteroid_health(AsteroidSizes::Medium), 3);
    assert_eq!(asteroid_health(AsteroidSizes::Large), 5);
    assert_eq!(AsteroidSizes::default(), AsteroidSizes::Medium);
}

#[test]
fn archetype_defaults() {
    assert_eq!(projectile_damage(None), DEFAULT_DAMAGE);
    assert_eq!(projectile_damage(Some(4)), 4);
    assert_eq!(asteroid_vitals(None, None), (DEFAULT_HEALTH, INIT_ASTEROID_DAMAGE));
    assert_eq!(asteroid_vitals(Some(5), Some(2)), (5, 2));
}

#[test]
fn star_grid_rows() {
    let rows = step_positions(864, 50);
    assert_eq!(rows.len(), 18);
    assert_eq!(rows[0], 0);
    assert_eq!(rows[17], 850);
    let cols = step_positions(1536, 50);
    assert_eq!(cols.len(), 31);
    assert_eq!(*cols.last().unwrap(), 1500);
}

#[test]
fn debug_grid_lines() {
    assert_eq!(step_positions(768, 100), vec![0, 100, 200, 300, 400, 500, 600, 700]);
    assert_eq!(step_positions(700, 100), vec![0, 100, 200, 300, 400, 500, 600]);
}

#[test]
fn empty_ranges() {
    assert!(step_positions(0, 50).is_empty());
    assert!(step_positions(-10, 50).is_empty());
    assert_eq!(step_positions(1, u64::MAX), vec![0]);
    assert_eq!(step_positions(i64::MAX, u64::MAX), vec![0]);
}

#[test]
fn clashing_rows() {
    let pairs = clashing_asteroid_pairs();
    assert_eq!(pairs.len(), 6);
    for (i, a) in SIZES.iter().enumerate() {
        for b in SIZES.iter().skip(i) {
            assert_eq!(pairs.iter().filter(|p| **p == (*a, *b)).count(), 1);
        }
    }
}

#[test]
fn debug_display() {
    assert!(toggle_debug_display(false, true));
    assert!(!toggle_debug_display(true, true));
    assert!(toggle_debug_display(true, false));
    assert!(!toggle_debug_display(toggle_debug_display(false, true), true));
    assert_eq!(debug_visibility(true), DisplayVisibility::Visible);
    assert_eq!(debug_visibility(false), DisplayVisibility::Hidden);
}

#[test]
fn resolutions() {
    assert!(resolution_requests(false, false, false).is_empty());
    assert_eq!(resolution_requests(false, true, false), vec![ResolutionPreset::Medium]);
    assert_eq!(
        resolution_requests(true, false, true),
        vec![ResolutionPreset::Small, ResolutionPreset::Large]
    );
}

#[test]
fn effects_and_particles() {
    assert!(collision_effect_shows(Avatars::Projectile));
    assert!(!collision_effect_shows(Avatars::Asteroid));
    assert!(!collision_effect_shows(Avatars::default()));
    assert_eq!(plan_thruster_particles(false, true, true), ThrusterParticlePlan { start: false, stop: false });
    assert_eq!(plan_thruster_particles(true, true, false), ThrusterParticlePlan { start: true, stop: false });
    assert_eq!(plan_thruster_particles(true, false, true), ThrusterParticlePlan { start: false, stop: true });
}
