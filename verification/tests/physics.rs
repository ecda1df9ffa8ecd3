use aion::events::{Avatars, CollisionEvent};
use aion::physics::{collision_defined, handle_collisions, resolve_collision, Body, Effect};

fn impact(p: usize) -> Vec<Effect> {
    vec![
        Effect::Collision { avatar: Avatars::Projectile, entity: p, other: None },
        Effect::DespawnDelay { entity: p },
    ]
}

#[test]
fn projectile_damages_asteroid_without_destroying_it() {
    let mut bodies = vec![Body::Projectile { damage: 1 }, Body::Asteroid { health: 3 }];
    let mut score: usize = 0;
    let effects = resolve_collision(&mut bodies, &mut score, CollisionEvent::Started(0, 1));
    assert_eq!(effects, impact(0));
    assert_eq!(bodies[1], Body::Asteroid { health: 2 });
    assert_eq!(score, 0);
}

#[test]
fn projectile_destroys_asteroid_and_scores() {
    let mut bodies = vec![Body::Asteroid { health: 1 }, Body::Projectile { damage: 1 }];
    let mut score: usize = 4;
    let effects = resolve_collision(&mut bodies, &mut score, CollisionEvent::Started(0, 1));
    let mut expected = impact(1);
    expected.push(Effect::Destruction { avatar: Avatars::Asteroid, entity: 0 });
    assert_eq!(effects, expected);
    assert_eq!(bodies[0], Body::Asteroid { health: 0 });
    assert_eq!(score, 5);
}

#[test]
fn projectile_damages_ship() {
    let mut bodies = vec![Body::Ship { health: 3 }, Body::Projectile { damage: 2 }];
    let mut score: usize = 0;
    let effects = resolve_collision(&mut bodies, &mut score, CollisionEvent::Started(1, 0));
    let mut expected = impact(1);
    expected.push(Effect::Collision { avatar: Avatars::PlayerShip, entity: 0, other: None });
    assert_eq!(effects, expected);
    assert_eq!(bodies[0], Body::Ship { health: 1 });
    assert_eq!(score, 0);
}

#[test]
fn projectile_destroys_ship_without_scoring() {
    let mut bodies = vec![Body::Ship { health: 1 }, Body::Projectile { damage: 3 }];
    let mut score: usize = 2;
    let effects = resolve_collision(&mut bodies, &mut score, CollisionEvent::Started(0, 1));
    let mut expected = impact(1);
    expected.push(Effect::Destruction { avatar: Avatars::PlayerShip, entity: 0 });
    assert_eq!(effects, expected);
    assert_eq!(bodies[0], Body::Ship { health: -2 });
    assert_eq!(score, 2);
}

#[test]
fn asteroids_clash() {
    let mut bodies = vec![Body::Asteroid { health: 3 }, Body::Asteroid { health: 5 }];
    let mut score: usize = 0;
    let effects = resolve_collision(&mut bodies, &mut score, CollisionEvent::Started(1, 0));
    assert_eq!(
        effects,
        vec![Effect::Collision { avatar: Avatars::Asteroid, entity: 1, other: Some(0) }]
    );
    assert_eq!(bodies, vec![Body::Asteroid { health: 3 }, Body::Asteroid { health: 5 }]);
}

#[test]
fn projectile_hitting_a_wall_only_shows_impact() {
    let mut bodies = vec![Body::Other, Body::Projectile { damage: 1 }];
    let mut score: usize = 0;
    let effects = resolve_collision(&mut bodies, &mut score, CollisionEvent::Started(0, 1));
    assert_eq!(effects, impact(1));
    assert_eq!(bodies, vec![Body::Other, Body::Projectile { damage: 1 }]);
}

#[test]
fn two_projectiles_first_one_counts() {
    let mut bodies = vec![Body::Projectile { damage: 1 }, Body::Projectile { damage: 1 }];
    let mut score: usize = 0;
    let effects = resolve_collision(&mut bodies, &mut score, CollisionEvent::Started(1, 0));
    assert_eq!(effects, impact(1));
}

#[test]
fn ship_and_asteroid_contact_does_nothing() {
    let mut bodies = vec![Body::Ship { health: 3 }, Body::Asteroid { health: 3 }];
    let mut score: usize = 0;
    let effects = resolve_collision(&mut bodies, &mut score, CollisionEvent::Started(0, 1));
    assert!(effects.is_empty());
    assert_eq!(bodies, vec![Body::Ship { health: 3 }, Body::Asteroid { health: 3 }]);
}

#[test]
fn stopped_contact_changes_nothing() {
    let mut bodies = vec![Body::Projectile { damage: 1 }, Body::Asteroid { health: 1 }];
    let mut score: usize = 7;
    let effects = resolve_collision(&mut bodies, &mut score, CollisionEvent::Stopped(0, 1));
    assert!(effects.is_empty());
    assert_eq!(bodies, vec![Body::Projectile { damage: 1 }, Body::Asteroid { health: 1 }]);
    assert_eq!(score, 7);
}

#[test]
fn score_counts_every_destruction_in_a_frame() {
    // The same asteroid hit twice in one frame is still in the table the
    // second time and is destroyed (and scored) again.
    let mut bodies = vec![
        Body::Projectile { damage: 1 },
        Body::Asteroid { health: 1 },
        Body::Projectile { damage: 1 },
        Body::Asteroid { health: 3 },
    ];
    let mut score: usize = 0;
    let events = vec![
        CollisionEvent::Started(0, 1),
        CollisionEvent::Started(2, 1),
        CollisionEvent::Started(1, 3),
    ];
    let effects = handle_collisions(&mut bodies, &mut score, &events);
    let destroyed = effects
        .iter()
        .filter(|e| matches!(e, Effect::Destruction { avatar: Avatars::Asteroid, .. }))
        .count();
    assert_eq!(destroyed, 2);
    assert_eq!(score, 2);
    assert_eq!(bodies[1], Body::Asteroid { health: -1 });
    assert_eq!(
        *effects.last().unwrap(),
        Effect::Collision { avatar: Avatars::Asteroid, entity: 1, other: Some(3) }
    );
}

#[test]
fn batch_equals_one_by_one() {
    let start = vec![
        Body::Projectile { damage: 2 },
        Body::Ship { health: 3 },
        Body::Asteroid { health: 2 },
        Body::Projectile { damage: 1 },
    ];
    let events = vec![
        CollisionEvent::Started(0, 1),
        CollisionEvent::Stopped(0, 1),
        CollisionEvent::Started(2, 3),
        CollisionEvent::Started(3, 1),
    ];
    let mut batch_bodies = start.clone();
    let mut batch_score: usize = 1;
    let batch_effects = handle_collisions(&mut batch_bodies, &mut batch_score, &events);

    let mut bodies = start.clone();
    let mut score: usize = 1;
    let mut effects = Vec::new();
    for event in &events {
        effects.extend(resolve_collision(&mut bodies, &mut score, *event));
    }
    assert_eq!(batch_bodies, bodies);
    assert_eq!(batch_score, score);
    assert_eq!(batch_effects, effects);
    assert_eq!(bodies[1], Body::Ship { health: 0 });
    assert_eq!(bodies[2], Body::Asteroid { health: 1 });
}

#[test]
fn kinds_of_bodies_are_kept() {
    let mut bodies = vec![
        Body::Projectile { damage: 9 },
        Body::Asteroid { health: 2 },
        Body::Ship { health: 2 },
        Body::Other,
    ];
    let mut score: usize = 0;
    let events = vec![
        CollisionEvent::Started(0, 1),
        CollisionEvent::Started(0, 2),
        CollisionEvent::Started(3, 0),
    ];
    handle_collisions(&mut bodies, &mut score, &events);
    assert_eq!(bodies[0], Body::Projectile { damage: 9 });
    assert!(matches!(bodies[1], Body::Asteroid { health: -7 }));
    assert!(matches!(bodies[2], Body::Ship { health: -7 }));
    assert_eq!(bodies[3], Body::Other);
}

#[test]
fn healing_never_happens_with_nonnegative_damage() {
    let mut bodies = vec![Body::Projectile { damage: 0 }, Body::Asteroid { health: 4 }];
    let mut score: usize = 0;
    handle_collisions(&mut bodies, &mut score, &vec![CollisionEvent::Started(0, 1); 3]);
    assert_eq!(bodies[1], Body::Asteroid { health: 4 });
}

#[test]
fn defined_collisions() {
    let bodies = vec![Body::Projectile { damage: 1 }, Body::Asteroid { health: 1 }];
    assert!(collision_defined(&bodies, 0, CollisionEvent::Started(0, 1)));
    assert!(!collision_defined(&bodies, 0, CollisionEvent::Started(0, 2)));
    assert!(collision_defined(&bodies, 0, CollisionEvent::Stopped(5, 9)));
    assert!(!collision_defined(&bodies, usize::MAX, CollisionEvent::Started(0, 1)));
    let big = vec![Body::Projectile { damage: i32::MAX }, Body::Ship { health: -2 }];
    assert!(!collision_defined(&big, 0, CollisionEvent::Started(1, 0)));
    let fine = vec![Body::Projectile { damage: i32::MAX }, Body::Ship { health: 0 }];
    assert!(collision_defined(&fine, 0, CollisionEvent::Started(1, 0)));
}
