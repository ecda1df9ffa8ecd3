//! Resolution of collisions between projectiles, asteroids and the player ship.
//!
//! Each frame the application gathers the bodies that take part in collisions
//! into a table, hands the reported contacts to [`handle_collisions`] (or one by
//! one to [`resolve_collision`]), and then carries out the returned effects:
//! particles and sounds, delayed and immediate despawns.
use vstd::prelude::*;

use crate::events::{Avatars, CollisionEvent};

verus! {

/// What the collision rules know of a body.
#[derive(Debug, Clone, Copy, PartialEq, Eq)]
pub enum Body {
    /// A projectile and the damage it deals.
    Projectile { damage: i32 },
    /// An asteroid and its remaining health.
    Asteroid { health: i32 },
    /// The player ship and its remaining health.
    Ship { health: i32 },
    /// Anything else that collides (walls, pickups, ...).
    Other,
}

/// What the application has to carry out after a collision.
#[derive(Debug, Clone, Copy, PartialEq, Eq)]
pub enum Effect {
    /// Play the collision effect of `avatar` at body `entity`; `other` is the
    /// second body of an asteroid clash.
    Collision { avatar: Avatars, entity: usize, other: Option<usize> },
    /// Despawn body `entity` once its despawn delay has run out.
    DespawnDelay { entity: usize },
    /// Play the destruction effect of `avatar` and despawn body `entity`.
    Destruction { avatar: Avatars, entity: usize },
}

/// The state that collisions change: the bodies of the frame and the score.
pub struct World {
    pub bodies: Seq<Body>,
    pub score: int,
}

pub open spec fn world_of(bodies: Seq<Body>, score: usize) -> World {
    World { bodies, score: score as int }
}

/// The projectile among the two bodies of a contact, the first one preferred.
pub open spec fn projectile_in(bodies: Seq<Body>, a: usize, b: usize) -> Option<usize> {
    if bodies[a as int] is Projectile {
        Some(a)
    } else if bodies[b as int] is Projectile {
        Some(b)
    } else {
        None
    }
}

/// The asteroid among the two bodies of a contact, the first one preferred.
pub open spec fn asteroid_in(bodies: Seq<Body>, a: usize, b: usize) -> Option<usize> {
    if bodies[a as int] is Asteroid {
        Some(a)
    } else if bodies[b as int] is Asteroid {
        Some(b)
    } else {
        None
    }
}

/// The ship among the two bodies of a contact, the first one preferred.
pub open spec fn ship_in(bodies: Seq<Body>, a: usize, b: usize) -> Option<usize> {
    if bodies[a as int] is Ship {
        Some(a)
    } else if bodies[b as int] is Ship {
        Some(b)
    } else {
        None
    }
}

/// Asteroid `x` takes `damage`; at zero health or below it is destroyed and
/// the score goes up by one.
pub open spec fn hit_asteroid(w: World, x: usize, damage: i32) -> (World, Seq<Effect>) {
    let left = w.bodies[x as int]->Asteroid_health - damage;
    let bodies = w.bodies.update(x as int, Body::Asteroid { health: left as i32 });
    if left <= 0 {
        (
            World { bodies, score: w.score + 1 },
            seq![Effect::Destruction { avatar: Avatars::Asteroid, entity: x }],
        )
    } else {
        (World { bodies, score: w.score }, seq![])
    }
}

/// Ship `s` takes `damage`; at zero health or below it is destroyed, else it
/// shows that it was hit.
pub open spec fn hit_ship(w: World, s: usize, damage: i32) -> (World, Seq<Effect>) {
    let left = w.bodies[s as int]->Ship_health - damage;
    let bodies = w.bodies.update(s as int, Body::Ship { health: left as i32 });
    if left <= 0 {
        (
            World { bodies, score: w.score },
            seq![Effect::Destruction { avatar: Avatars::PlayerShip, entity: s }],
        )
    } else {
        (
            World { bodies, score: w.score },
            seq![Effect::Collision { avatar: Avatars::PlayerShip, entity: s, other: None }],
        )
    }
}

/// The effects of a projectile that hits anything.
pub open spec fn impact_effects(p: usize) -> Seq<Effect> {
    seq![
        Effect::Collision { avatar: Avatars::Projectile, entity: p, other: None },
        Effect::DespawnDelay { entity: p },
    ]
}

/// A projectile `p` with `damage` hits whatever asteroid and ship take part in
/// the contact of `a` and `b`.
pub open spec fn projectile_hit(w: World, a: usize, b: usize, p: usize) -> (World, Seq<Effect>) {
    let damage = w.bodies[p as int]->damage;
    let (wa, ea) = match asteroid_in(w.bodies, a, b) {
        Some(x) => hit_asteroid(w, x, damage),
        None => (w, Seq::<Effect>::empty()),
    };
    let (ws, es) = match ship_in(w.bodies, a, b) {
        Some(s) => hit_ship(wa, s, damage),
        None => (wa, Seq::<Effect>::empty()),
    };
    (ws, impact_effects(p) + ea + es)
}

/// The clash effect of two asteroids that touch.
pub open spec fn clash_effects(bodies: Seq<Body>, a: usize, b: usize) -> Seq<Effect> {
    if bodies[a as int] is Asteroid && bodies[b as int] is Asteroid {
        seq![Effect::Collision { avatar: Avatars::Asteroid, entity: a, other: Some(b) }]
    } else {
        seq![]
    }
}

/// One contact: the new world and the effects, in the order they are sent.
pub open spec fn step(w: World, event: CollisionEvent) -> (World, Seq<Effect>) {
    match event {
        CollisionEvent::Stopped(_, _) => (w, seq![]),
        CollisionEvent::Started(a, b) => {
            let (w1, e1) = match projectile_in(w.bodies, a, b) {
                Some(p) => projectile_hit(w, a, b, p),
                None => (w, Seq::<Effect>::empty()),
            };
            (w1, e1 + clash_effects(w.bodies, a, b))
        },
    }
}

/// The contacts in order: the final world and all effects, in order.
pub open spec fn run(w: World, events: Seq<CollisionEvent>) -> (World, Seq<Effect>)
    decreases events.len(),
{
    if events.len() == 0 {
        (w, seq![])
    } else {
        let (w1, e1) = run(w, events.drop_last());
        let (w2, e2) = step(w1, events.last());
        (w2, e1 + e2)
    }
}

/// A health after a hit stays within `i32`.
pub open spec fn fits_i32(x: int) -> bool {
    i32::MIN <= x <= i32::MAX
}

/// The contact names bodies of the table, and no health or score overflows.
pub open spec fn step_defined(w: World, event: CollisionEvent) -> bool {
    match event {
        CollisionEvent::Stopped(_, _) => true,
        CollisionEvent::Started(a, b) => {
            &&& a < w.bodies.len()
            &&& b < w.bodies.len()
            &&& projectile_in(w.bodies, a, b) matches Some(p) ==> {
                let damage = w.bodies[p as int]->damage;
                &&& asteroid_in(w.bodies, a, b) matches Some(x) ==> {
                    let left = w.bodies[x as int]->Asteroid_health - damage;
                    &&& fits_i32(left)
                    &&& left <= 0 ==> w.score + 1 <= usize::MAX
                }
                &&& ship_in(w.bodies, a, b) matches Some(s) ==> fits_i32(
                    w.bodies[s as int]->Ship_health - damage,
                )
            }
        },
    }
}

/// Every contact of the sequence is defined in the world it meets.
pub open spec fn run_defined(w: World, events: Seq<CollisionEvent>) -> bool
    decreases events.len(),
{
    if events.len() == 0 {
        true
    } else {
        run_defined(w, events.drop_last()) && step_defined(
            run(w, events.drop_last()).0,
            events.last(),
        )
    }
}

fn projectile_among(bodies: &Vec<Body>, a: usize, b: usize) -> (r: Option<usize>)
    requires
        a < bodies.len(),
        b < bodies.len(),
    ensures
        r == projectile_in(bodies@, a, b),
{
    if let Body::Projectile { .. } = bodies[a] {
        Some(a)
    } else if let Body::Projectile { .. } = bodies[b] {
        Some(b)
    } else {
        None
    }
}

fn asteroid_among(bodies: &Vec<Body>, a: usize, b: usize) -> (r: Option<usize>)
    requires
        a < bodies.len(),
        b < bodies.len(),
    ensures
        r == asteroid_in(bodies@, a, b),
{
    if let Body::Asteroid { .. } = bodies[a] {
        Some(a)
    } else if let Body::Asteroid { .. } = bodies[b] {
        Some(b)
    } else {
        None
    }
}

fn ship_among(bodies: &Vec<Body>, a: usize, b: usize) -> (r: Option<usize>)
    requires
        a < bodies.len(),
        b < bodies.len(),
    ensures
        r == ship_in(bodies@, a, b),
{
    if let Body::Ship { .. } = bodies[a] {
        Some(a)
    } else if let Body::Ship { .. } = bodies[b] {
        Some(b)
    } else {
        None
    }
}

fn health_after(health: i32, damage: i32) -> (left: Option<i32>)
    ensures
        left matches Some(v) ==> v == health - damage,
        left is None <==> !fits_i32(health - damage),
{
    let wide: i64 = health as i64 - damage as i64;
    if wide < i32::MIN as i64 || wide > i32::MAX as i64 {
        None
    } else {
        Some(wide as i32)
    }
}

/// Whether [`resolve_collision`] may be applied: the contact names bodies of
/// the table and no health or the score overflows.
pub fn collision_defined(bodies: &Vec<Body>, score: usize, event: CollisionEvent) -> (r: bool)
    ensures
        r == step_defined(world_of(bodies@, score), event),
{
    match event {
        CollisionEvent::Stopped(_, _) => true,
        CollisionEvent::Started(a, b) => {
            if a >= bodies.len() || b >= bodies.len() {
                return false;
            }
            match projectile_among(bodies, a, b) {
                None => true,
                Some(p) => {
                    let damage = match bodies[p] {
                        Body::Projectile { damage } => damage,
                        _ => 0,
                    };
                    let asteroid_ok = match asteroid_among(bodies, a, b) {
                        None => true,
                        Some(x) => {
                            let health = match bodies[x] {
                                Body::Asteroid { health } => health,
                                _ => 0,
                            };
                            match health_after(health, damage) {
                                None => false,
                                Some(left) => left > 0 || score < usize::MAX,
                            }
                        },
                    };
                    let ship_ok = match ship_among(bodies, a, b) {
                        None => true,
                        Some(s) => {
                            let health = match bodies[s] {
                                Body::Ship { health } => health,
                                _ => 0,
                            };
                            health_after(health, damage).is_some()
                        },
                    };
                    asteroid_ok && ship_ok
                },
            }
        },
    }
}

/// Applies one contact: a projectile that touches anything shows its impact
/// and is despawned after a delay; it deals its damage to the asteroid and to
/// the ship of the contact, which are destroyed at zero health or below (a
/// destroyed asteroid scores a point); two asteroids that touch clash.
/// A contact that stops changes nothing.
pub fn resolve_collision(bodies: &mut Vec<Body>, score: &mut usize, event: CollisionEvent) -> (effects: Vec<Effect>)
    requires
        step_defined(world_of(old(bodies)@, *old(score)), event),
    ensures
        ({
            let (w, e) = step(world_of(old(bodies)@, *old(score)), event);
            &&& final(bodies)@ == w.bodies
            &&& *final(score) == w.score
            &&& effects@ == e
        }),
        event is Stopped ==> final(bodies)@ == old(bodies)@ && *final(score) == *old(score)
            && effects@.len() == 0,
{
    let ghost w0 = world_of(bodies@, *score);
    match event {
        CollisionEvent::Stopped(_, _) => Vec::new(),
        CollisionEvent::Started(a, b) => {
            let mut effects: Vec<Effect> = Vec::new();
            let clash = match (bodies[a], bodies[b]) {
                (Body::Asteroid { .. }, Body::Asteroid { .. }) => true,
                _ => false,
            };
            let ghost mut after_asteroid = w0;
            let ghost mut asteroid_effects = Seq::<Effect>::empty();
            let ghost mut ship_effects = Seq::<Effect>::empty();
            if let Some(p) = projectile_among(bodies, a, b) {
                let damage = match bodies[p] {
                    Body::Projectile { damage } => damage,
                    _ => 0,
                };
                effects.push(Effect::Collision { avatar: Avatars::Projectile, entity: p, other: None });
                effects.push(Effect::DespawnDelay { entity: p });
                assert(effects@ == impact_effects(p));
                if let Some(x) = asteroid_among(bodies, a, b) {
                    let health = match bodies[x] {
                        Body::Asteroid { health } => health,
                        _ => 0,
                    };
                    let left = health - damage;
                    bodies.set(x, Body::Asteroid { health: left });
                    if left <= 0 {
                        *score = *score + 1;
                        effects.push(Effect::Destruction { avatar: Avatars::Asteroid, entity: x });
                    }
                    proof {
                        let (wa, ea) = hit_asteroid(w0, x, damage);
                        after_asteroid = wa;
                        asteroid_effects = ea;
                    }
                }
                assert(bodies@ == after_asteroid.bodies);
                assert(effects@ == impact_effects(p) + asteroid_effects);
                if let Some(s) = ship_among(bodies, a, b) {
                    let health = match bodies[s] {
                        Body::Ship { health } => health,
                        _ => 0,
                    };
                    let left = health - damage;
                    bodies.set(s, Body::Ship { health: left });
                    if left <= 0 {
                        effects.push(Effect::Destruction { avatar: Avatars::PlayerShip, entity: s });
                    } else {
                        effects.push(
                            Effect::Collision { avatar: Avatars::PlayerShip, entity: s, other: None },
                        );
                    }
                    proof {
                        let (_, es) = hit_ship(after_asteroid, s, damage);
                        ship_effects = es;
                    }
                }
                assert(effects@ == impact_effects(p) + asteroid_effects + ship_effects);
            }
            if clash {
                effects.push(Effect::Collision { avatar: Avatars::Asteroid, entity: a, other: Some(b) });
            }
            effects
        },
    }
}

/// The contacts that are defined stay defined when later contacts are dropped.
proof fn lemma_run_defined_prefix(w: World, events: Seq<CollisionEvent>, i: int)
    requires
        run_defined(w, events),
        0 <= i <= events.len(),
    ensures
        run_defined(w, events.take(i)),
    decreases events.len(),
{
    if i < events.len() {
        assert(events.drop_last().take(i) == events.take(i));
        lemma_run_defined_prefix(w, events.drop_last(), i);
    } else {
        assert(events.take(i) == events);
    }
}

/// Applies the contacts of a frame in order, as [`resolve_collision`] does for
/// each, and returns all effects in the order they arise.
pub fn handle_collisions(bodies: &mut Vec<Body>, score: &mut usize, events: &Vec<CollisionEvent>) -> (effects: Vec<Effect>)
    requires
        run_defined(world_of(old(bodies)@, *old(score)), events@),
    ensures
        ({
            let (w, e) = run(world_of(old(bodies)@, *old(score)), events@);
            &&& final(bodies)@ == w.bodies
            &&& *final(score) == w.score
            &&& effects@ == e
        }),
{
    let ghost w0 = world_of(bodies@, *score);
    let mut effects: Vec<Effect> = Vec::new();
    let mut i: usize = 0;
    assert(events@.take(0) =~= Seq::<CollisionEvent>::empty());
    while i < events.len()
        invariant
            0 <= i <= events.len(),
            run_defined(w0, events@),
            run(w0, events@.take(i as int)).0 == world_of(bodies@, *score),
            run(w0, events@.take(i as int)).1 == effects@,
        decreases events.len() - i,
    {
        proof {
            lemma_run_defined_prefix(w0, events@, i + 1);
            assert(events@.take(i + 1).drop_last() == events@.take(i as int));
            assert(events@.take(i + 1).last() == events@[i as int]);
        }
        let mut step_effects = resolve_collision(bodies, score, events[i]);
        effects.append(&mut step_effects);
        i = i + 1;
    }
    assert(events@.take(i as int) == events@);
    effects
}


/// Whether an effect is the destruction of an asteroid.
pub open spec fn is_asteroid_destruction(e: Effect) -> bool {
    e matches Effect::Destruction { avatar: Avatars::Asteroid, .. }
}

/// The number of asteroid destructions among the effects.
pub open spec fn destroyed_asteroids(effects: Seq<Effect>) -> int
    decreases effects.len(),
{
    if effects.len() == 0 {
        0
    } else {
        destroyed_asteroids(effects.drop_last()) + if is_asteroid_destruction(effects.last()) {
            1int
        } else {
            0int
        }
    }
}

proof fn lemma_destroyed_asteroids_add(a: Seq<Effect>, b: Seq<Effect>)
    ensures
        destroyed_asteroids(a + b) == destroyed_asteroids(a) + destroyed_asteroids(b),
    decreases b.len(),
{
    if b.len() == 0 {
        assert(a + b =~= a);
    } else {
        assert((a + b).drop_last() =~= a + b.drop_last());
        assert((a + b).last() == b.last());
        lemma_destroyed_asteroids_add(a, b.drop_last());
    }
}

proof fn lemma_destroyed_asteroids_small(effects: Seq<Effect>)
    requires
        effects.len() <= 2,
    ensures
        destroyed_asteroids(effects) == (if effects.len() >= 1 && is_asteroid_destruction(effects[0]) {
            1int
        } else {
            0int
        }) + (if effects.len() == 2 && is_asteroid_destruction(effects[1]) {
            1int
        } else {
            0int
        }),
{
    reveal_with_fuel(destroyed_asteroids, 3);
    if effects.len() == 2 {
        assert(effects.drop_last().drop_last() =~= Seq::<Effect>::empty());
    } else if effects.len() == 1 {
        assert(effects.drop_last() =~= Seq::<Effect>::empty());
    }
}

proof fn lemma_step_score(w: World, event: CollisionEvent)
    ensures
        step(w, event).0.score == w.score + destroyed_asteroids(step(w, event).1),
{
    match event {
        CollisionEvent::Stopped(_, _) => {
            lemma_destroyed_asteroids_small(step(w, event).1);
        },
        CollisionEvent::Started(a, b) => {
            let clash = clash_effects(w.bodies, a, b);
            lemma_destroyed_asteroids_small(clash);
            match projectile_in(w.bodies, a, b) {
                None => {
                    lemma_destroyed_asteroids_small(Seq::<Effect>::empty());
                    lemma_destroyed_asteroids_add(Seq::<Effect>::empty(), clash);
                },
                Some(p) => {
                    let damage = w.bodies[p as int]->damage;
                    let (wa, ea) = match asteroid_in(w.bodies, a, b) {
                        Some(x) => hit_asteroid(w, x, damage),
                        None => (w, Seq::<Effect>::empty()),
                    };
                    let (ws, es) = match ship_in(w.bodies, a, b) {
                        Some(s) => hit_ship(wa, s, damage),
                        None => (wa, Seq::<Effect>::empty()),
                    };
                    lemma_destroyed_asteroids_small(ea);
                    lemma_destroyed_asteroids_small(es);
                    lemma_destroyed_asteroids_small(impact_effects(p));
                    lemma_destroyed_asteroids_add(impact_effects(p), ea);
                    lemma_destroyed_asteroids_add(impact_effects(p) + ea, es);
                    lemma_destroyed_asteroids_add(impact_effects(p) + ea + es, clash);
                },
            }
        },
    }
}

/// The score goes up by exactly one for each asteroid that the contacts
/// destroy, whatever the contacts are.
pub proof fn lemma_score_counts_destroyed_asteroids(w: World, events: Seq<CollisionEvent>)
    ensures
        run(w, events).0.score == w.score + destroyed_asteroids(run(w, events).1),
    decreases events.len(),
{
    if events.len() == 0 {
        assert(destroyed_asteroids(Seq::<Effect>::empty()) == 0);
    } else {
        let (w1, e1) = run(w, events.drop_last());
        lemma_score_counts_destroyed_asteroids(w, events.drop_last());
        lemma_step_score(w1, events.last());
        lemma_destroyed_asteroids_add(e1, step(w1, events.last()).1);
    }
}

/// Handling the contacts of a frame in one batch gives the same world and the
/// same effects as handling a first part of them and then the rest.
pub proof fn lemma_batch_is_sequential(
    w: World,
    first: Seq<CollisionEvent>,
    rest: Seq<CollisionEvent>,
)
    ensures
        run(w, first + rest).0 == run(run(w, first).0, rest).0,
        run(w, first + rest).1 == run(w, first).1 + run(run(w, first).0, rest).1,
    decreases rest.len(),
{
    if rest.len() == 0 {
        assert(first + rest =~= first);
        assert(run(w, first).1 + Seq::<Effect>::empty() =~= run(w, first).1);
    } else {
        assert((first + rest).drop_last() =~= first + rest.drop_last());
        assert((first + rest).last() == rest.last());
        lemma_batch_is_sequential(w, first, rest.drop_last());
        let mid = run(w, first);
        let r1 = run(mid.0, rest.drop_last());
        let s = step(r1.0, rest.last());
        assert(mid.1 + r1.1 + s.1 =~= mid.1 + (r1.1 + s.1));
    }
}

/// The two bodies are of the same kind; projectiles and other bodies are
/// the same body.
pub open spec fn same_kind(before: Body, after: Body) -> bool {
    match before {
        Body::Projectile { .. } => after == before,
        Body::Asteroid { .. } => after is Asteroid,
        Body::Ship { .. } => after is Ship,
        Body::Other => after == before,
    }
}

pub open spec fn kinds_kept(before: Seq<Body>, after: Seq<Body>) -> bool {
    &&& after.len() == before.len()
    &&& forall|i: int| 0 <= i < before.len() ==> same_kind(#[trigger] before[i], after[i])
}

proof fn lemma_step_keeps_kinds(w: World, event: CollisionEvent)
    requires
        step_defined(w, event),
    ensures
        kinds_kept(w.bodies, step(w, event).0.bodies),
{
    if let CollisionEvent::Started(a, b) = event {
        if let Some(p) = projectile_in(w.bodies, a, b) {
            let damage = w.bodies[p as int]->damage;
            let (wa, ea) = match asteroid_in(w.bodies, a, b) {
                Some(x) => hit_asteroid(w, x, damage),
                None => (w, Seq::<Effect>::empty()),
            };
            assert(kinds_kept(w.bodies, wa.bodies));
            let (ws, es) = match ship_in(w.bodies, a, b) {
                Some(s) => hit_ship(wa, s, damage),
                None => (wa, Seq::<Effect>::empty()),
            };
            assert(kinds_kept(wa.bodies, ws.bodies));
            assert forall|i: int| 0 <= i < w.bodies.len() implies same_kind(
                #[trigger] w.bodies[i],
                ws.bodies[i],
            ) by {
                assert(same_kind(w.bodies[i], wa.bodies[i]));
                assert(same_kind(wa.bodies[i], ws.bodies[i]));
            }
        }
    }
}

/// Contacts never change what kind of body an entry of the table is, nor the
/// table's length, and leave projectiles and other bodies as they were.
pub proof fn lemma_run_keeps_kinds(w: World, events: Seq<CollisionEvent>)
    requires
        run_defined(w, events),
    ensures
        kinds_kept(w.bodies, run(w, events).0.bodies),
    decreases events.len(),
{
    if events.len() > 0 {
        let w1 = run(w, events.drop_last()).0;
        lemma_run_keeps_kinds(w, events.drop_last());
        lemma_step_keeps_kinds(w1, events.last());
        let w2 = step(w1, events.last()).0;
        assert forall|i: int| 0 <= i < w.bodies.len() implies same_kind(
            #[trigger] w.bodies[i],
            w2.bodies[i],
        ) by {
            assert(same_kind(w.bodies[i], w1.bodies[i]));
            assert(same_kind(w1.bodies[i], w2.bodies[i]));
        }
    }
}

/// A projectile that takes part in a contact that starts shows its impact
/// and is set to despawn after a delay.
pub proof fn lemma_projectile_contact_despawns(w: World, a: usize, b: usize)
    requires
        a < w.bodies.len(),
        b < w.bodies.len(),
        w.bodies[a as int] is Projectile || w.bodies[b as int] is Projectile,
    ensures
        ({
            let p = if w.bodies[a as int] is Projectile { a } else { b };
            let effects = step(w, CollisionEvent::Started(a, b)).1;
            &&& effects[0] == (Effect::Collision { avatar: Avatars::Projectile, entity: p, other: None })
            &&& effects[1] == (Effect::DespawnDelay { entity: p })
        }),
{
}

/// Every projectile of the table deals no negative damage.
pub open spec fn damages_nonnegative(bodies: Seq<Body>) -> bool {
    forall|i: int| 0 <= i < bodies.len() && (#[trigger] bodies[i]) is Projectile ==> bodies[i]->damage >= 0
}

/// The health of a body, where it has one.
pub open spec fn health_of(b: Body) -> int {
    match b {
        Body::Asteroid { health } => health as int,
        Body::Ship { health } => health as int,
        _ => 0,
    }
}

proof fn lemma_step_never_heals(w: World, event: CollisionEvent)
    requires
        step_defined(w, event),
        damages_nonnegative(w.bodies),
    ensures
        forall|i: int| 0 <= i < w.bodies.len() ==> health_of(#[trigger] step(w, event).0.bodies[i]) <= health_of(w.bodies[i]),
        damages_nonnegative(step(w, event).0.bodies),
{
    lemma_step_keeps_kinds(w, event);
    let after = step(w, event).0.bodies;
    assert forall|i: int| 0 <= i < after.len() && (#[trigger] after[i]) is Projectile implies after[i]->damage >= 0 by {
        assert(same_kind(w.bodies[i], after[i]));
    }
}

/// While projectiles deal no negative damage, contacts never raise the health
/// of an asteroid or of the ship.
pub proof fn lemma_collisions_never_heal(w: World, events: Seq<CollisionEvent>)
    requires
        run_defined(w, events),
        damages_nonnegative(w.bodies),
    ensures
        damages_nonnegative(run(w, events).0.bodies),
        run(w, events).0.bodies.len() == w.bodies.len(),
        forall|i: int| 0 <= i < w.bodies.len() ==> health_of(#[trigger] run(w, events).0.bodies[i]) <= health_of(w.bodies[i]),
    decreases events.len(),
{
    lemma_run_keeps_kinds(w, events);
    if events.len() > 0 {
        let w1 = run(w, events.drop_last()).0;
        lemma_collisions_never_heal(w, events.drop_last());
        lemma_step_never_heals(w1, events.last());
        let w2 = step(w1, events.last()).0;
        assert forall|i: int| 0 <= i < w.bodies.len() implies health_of(#[trigger] w2.bodies[i]) <= health_of(w.bodies[i]) by {
            assert(health_of(w1.bodies[i]) <= health_of(w.bodies[i]));
            assert(health_of(w2.bodies[i]) <= health_of(w1.bodies[i]));
        }
    }
}

/// A projectile of damage `d` hitting a ship of health `h` (either way
/// round): the ship is left with `h - d`; it is destroyed exactly when
/// `h - d <= 0`, and otherwise shows that it was hit; the projectile's impact
/// and despawn delay come first; nothing else in the table and not the score
/// changes.
pub proof fn lemma_ship_hit(w: World, a: usize, b: usize)
    requires
        a < w.bodies.len(),
        b < w.bodies.len(),
        (w.bodies[a as int] is Projectile && w.bodies[b as int] is Ship) || (w.bodies[a as int] is Ship
            && w.bodies[b as int] is Projectile),
        step_defined(w, CollisionEvent::Started(a, b)),
    ensures
        ({
            let p = if w.bodies[a as int] is Projectile { a } else { b };
            let s = if w.bodies[a as int] is Ship { a } else { b };
            let (after, effects) = step(w, CollisionEvent::Started(a, b));
            let left = w.bodies[s as int]->Ship_health - w.bodies[p as int]->damage;
            &&& after.bodies.len() == w.bodies.len()
            &&& after.bodies[s as int] == (Body::Ship { health: left as i32 })
            &&& left == after.bodies[s as int]->Ship_health
            &&& forall|i: int| 0 <= i < w.bodies.len() && i != s ==> after.bodies[i] == w.bodies[i]
            &&& after.score == w.score
            &&& effects.len() == 3
            &&& effects[0] == (Effect::Collision { avatar: Avatars::Projectile, entity: p, other: None })
            &&& effects[1] == (Effect::DespawnDelay { entity: p })
            &&& left <= 0 ==> effects.contains(Effect::Destruction { avatar: Avatars::PlayerShip, entity: s })
            &&& left > 0 ==> effects.contains(Effect::Collision { avatar: Avatars::PlayerShip, entity: s, other: None })
            &&& left > 0 ==> forall|i: int| 0 <= i < effects.len() ==> !(#[trigger] effects[i] matches Effect::Destruction { avatar: Avatars::PlayerShip, .. })
            &&& forall|i: int| 0 <= i < effects.len() ==> !(#[trigger] effects[i] matches Effect::Destruction { avatar: Avatars::Asteroid, .. })
        }),
{
    let p = if w.bodies[a as int] is Projectile { a } else { b };
    let s = if w.bodies[a as int] is Ship { a } else { b };
    let (after, effects) = step(w, CollisionEvent::Started(a, b));
    let d = w.bodies[p as int]->damage;
    let left = w.bodies[s as int]->Ship_health - d;
    assert(projectile_in(w.bodies, a, b) == Some(p));
    assert(asteroid_in(w.bodies, a, b) is None);
    assert(ship_in(w.bodies, a, b) == Some(s));
    assert(clash_effects(w.bodies, a, b) =~= Seq::<Effect>::empty());
    let third = if left <= 0 {
        Effect::Destruction { avatar: Avatars::PlayerShip, entity: s }
    } else {
        Effect::Collision { avatar: Avatars::PlayerShip, entity: s, other: None }
    };
    assert(effects =~= seq![
        Effect::Collision { avatar: Avatars::Projectile, entity: p, other: None },
        Effect::DespawnDelay { entity: p },
        third,
    ]);
    assert(effects[2] == third);
}

/// A projectile of damage `d` hitting an asteroid of health `h` (either way
/// round): the asteroid is left with `h - d`; it is destroyed, and the score
/// goes up by one, exactly when `h - d <= 0`; nothing else in the table
/// changes.
pub proof fn lemma_asteroid_hit(w: World, a: usize, b: usize)
    requires
        a < w.bodies.len(),
        b < w.bodies.len(),
        (w.bodies[a as int] is Projectile && w.bodies[b as int] is Asteroid) || (
        w.bodies[a as int] is Asteroid && w.bodies[b as int] is Projectile),
        step_defined(w, CollisionEvent::Started(a, b)),
    ensures
        ({
            let p = if w.bodies[a as int] is Projectile { a } else { b };
            let x = if w.bodies[a as int] is Asteroid { a } else { b };
            let (after, effects) = step(w, CollisionEvent::Started(a, b));
            let left = w.bodies[x as int]->Asteroid_health - w.bodies[p as int]->damage;
            &&& after.bodies.len() == w.bodies.len()
            &&& after.bodies[x as int] == (Body::Asteroid { health: left as i32 })
            &&& left == after.bodies[x as int]->Asteroid_health
            &&& forall|i: int| 0 <= i < w.bodies.len() && i != x ==> after.bodies[i] == w.bodies[i]
            &&& after.score == w.score + (if left <= 0 { 1int } else { 0int })
            &&& effects.len() == (if left <= 0 { 3int } else { 2int })
            &&& effects[0] == (Effect::Collision { avatar: Avatars::Projectile, entity: p, other: None })
            &&& effects[1] == (Effect::DespawnDelay { entity: p })
            &&& left <= 0 <==> effects.contains(Effect::Destruction { avatar: Avatars::Asteroid, entity: x })
            &&& forall|i: int| 0 <= i < effects.len() ==> !(#[trigger] effects[i] matches Effect::Destruction { avatar: Avatars::PlayerShip, .. })
        }),
{
    let p = if w.bodies[a as int] is Projectile { a } else { b };
    let x = if w.bodies[a as int] is Asteroid { a } else { b };
    let (after, effects) = step(w, CollisionEvent::Started(a, b));
    let d = w.bodies[p as int]->damage;
    let left = w.bodies[x as int]->Asteroid_health - d;
    assert(projectile_in(w.bodies, a, b) == Some(p));
    assert(asteroid_in(w.bodies, a, b) == Some(x));
    assert(ship_in(w.bodies, a, b) is None);
    assert(clash_effects(w.bodies, a, b) =~= Seq::<Effect>::empty());
    let imp = seq![
        Effect::Collision { avatar: Avatars::Projectile, entity: p, other: None },
        Effect::DespawnDelay { entity: p },
    ];
    if left <= 0 {
        assert(effects =~= imp.push(Effect::Destruction { avatar: Avatars::Asteroid, entity: x }));
        assert(effects[2] == Effect::Destruction { avatar: Avatars::Asteroid, entity: x });
    } else {
        assert(effects =~= imp);
        if effects.contains(Effect::Destruction { avatar: Avatars::Asteroid, entity: x }) {
            let k = choose|k: int| 0 <= k < effects.len() && effects[k] == Effect::Destruction { avatar: Avatars::Asteroid, entity: x };
            assert(k == 0 || k == 1);
        }
    }
}

/// A contact that involves no projectile damages nothing: the table and the
/// score stay as they were, and nothing is destroyed.
pub proof fn lemma_no_projectile_no_damage(w: World, a: usize, b: usize)
    requires
        a < w.bodies.len(),
        b < w.bodies.len(),
        !(w.bodies[a as int] is Projectile),
        !(w.bodies[b as int] is Projectile),
    ensures
        ({
            let (after, effects) = step(w, CollisionEvent::Started(a, b));
            &&& after.bodies == w.bodies
            &&& after.score == w.score
            &&& forall|i: int| 0 <= i < effects.len() ==> !(#[trigger] effects[i] is Destruction)
            &&& forall|i: int| 0 <= i < effects.len() ==> !(#[trigger] effects[i] is DespawnDelay)
        }),
{
    let (after, effects) = step(w, CollisionEvent::Started(a, b));
    assert(effects =~= clash_effects(w.bodies, a, b));
}

/// Whether an effect names a body of the right kind in the table: an
/// impact or a despawn delay a projectile, a ship's hit or destruction a
/// ship, an asteroid's destruction an asteroid, and a clash two asteroids.
pub open spec fn names_right_body(bodies: Seq<Body>, e: Effect) -> bool {
    match e {
        Effect::Collision { avatar, entity, other } => {
            &&& entity < bodies.len()
            &&& match avatar {
                Avatars::Projectile => bodies[entity as int] is Projectile && other is None,
                Avatars::PlayerShip => bodies[entity as int] is Ship && other is None,
                Avatars::Asteroid => bodies[entity as int] is Asteroid && (other matches Some(o) && o
                    < bodies.len() && bodies[o as int] is Asteroid),
                Avatars::Other => false,
            }
        },
        Effect::DespawnDelay { entity } => entity < bodies.len() && bodies[entity as int] is Projectile,
        Effect::Destruction { avatar, entity } => {
            &&& entity < bodies.len()
            &&& match avatar {
                Avatars::Asteroid => bodies[entity as int] is Asteroid,
                Avatars::PlayerShip => bodies[entity as int] is Ship,
                _ => false,
            }
        },
    }
}

/// The body that an effect is about.
pub open spec fn effect_entity(e: Effect) -> usize {
    match e {
        Effect::Collision { entity, .. } => entity,
        Effect::DespawnDelay { entity } => entity,
        Effect::Destruction { entity, .. } => entity,
    }
}

/// Every effect of a contact is about one of its two bodies and names a body
/// of the right kind: impacts and despawn delays name the projectile, ship
/// hits and destructions the ship, asteroid destructions the asteroid, and
/// clashes the two asteroids.
pub proof fn lemma_effects_name_their_bodies(w: World, a: usize, b: usize)
    requires
        step_defined(w, CollisionEvent::Started(a, b)),
    ensures
        forall|i: int| 0 <= i < step(w, CollisionEvent::Started(a, b)).1.len() ==> {
            let e = #[trigger] step(w, CollisionEvent::Started(a, b)).1[i];
            &&& names_right_body(w.bodies, e)
            &&& (effect_entity(e) == a || effect_entity(e) == b)
        },
{
    let effects = step(w, CollisionEvent::Started(a, b)).1;
    let clash = clash_effects(w.bodies, a, b);
    match projectile_in(w.bodies, a, b) {
        None => {
            assert(effects =~= clash);
        },
        Some(p) => {
            let damage = w.bodies[p as int]->damage;
            let (wa, ea) = match asteroid_in(w.bodies, a, b) {
                Some(x) => hit_asteroid(w, x, damage),
                None => (w, Seq::<Effect>::empty()),
            };
            let (ws, es) = match ship_in(w.bodies, a, b) {
                Some(s) => hit_ship(wa, s, damage),
                None => (wa, Seq::<Effect>::empty()),
            };
            let all = impact_effects(p) + ea + es + clash;
            assert(effects =~= all);
            assert forall|i: int| 0 <= i < all.len() implies {
                let e = #[trigger] all[i];
                &&& names_right_body(w.bodies, e)
                &&& (effect_entity(e) == a || effect_entity(e) == b)
            } by {
                if i < 2 {
                } else if i < 2 + ea.len() {
                    assert(all[i] == ea[i - 2]);
                } else if i < 2 + ea.len() + es.len() {
                    assert(all[i] == es[i - 2 - ea.len()]);
                } else {
                    assert(all[i] == clash[i - 2 - ea.len() - es.len()]);
                }
            }
        },
    }
}

proof fn lemma_names_right_body_kept(before: Seq<Body>, after: Seq<Body>, e: Effect)
    requires
        kinds_kept(before, after),
        names_right_body(after, e),
    ensures
        names_right_body(before, e),
{
    let n = effect_entity(e);
    assert(same_kind(before[n as int], after[n as int]));
    if let Effect::Collision { other: Some(o), .. } = e {
        if o < before.len() {
            assert(same_kind(before[o as int], after[o as int]));
        }
    }
}

/// Every effect of a frame names a body of the right kind in the table the
/// frame started with.
pub proof fn lemma_frame_effects_name_their_bodies(w: World, events: Seq<CollisionEvent>)
    requires
        run_defined(w, events),
    ensures
        forall|i: int| 0 <= i < run(w, events).1.len() ==> names_right_body(w.bodies, #[trigger] run(w, events).1[i]),
    decreases events.len(),
{
    if events.len() > 0 {
        let (w1, e1) = run(w, events.drop_last());
        let ev = events.last();
        let e2 = step(w1, ev).1;
        lemma_frame_effects_name_their_bodies(w, events.drop_last());
        lemma_run_keeps_kinds(w, events.drop_last());
        if let CollisionEvent::Started(a, b) = ev {
            lemma_effects_name_their_bodies(w1, a, b);
        } else {
            assert(e2 =~= Seq::<Effect>::empty());
        }
        let all = e1 + e2;
        assert forall|i: int| 0 <= i < all.len() implies names_right_body(w.bodies, #[trigger] all[i]) by {
            if i >= e1.len() {
                assert(all[i] == e2[i - e1.len()]);
                lemma_names_right_body_kept(w.bodies, w1.bodies, e2[i - e1.len()]);
            }
        }
    }
}

/// A frame of one contact gives exactly the bodies, score and effects of
/// resolving that contact alone.
pub proof fn lemma_single_contact_frame(w: World, event: CollisionEvent)
    ensures
        run(w, seq![event]).0 == step(w, event).0,
        run(w, seq![event]).1 == step(w, event).1,
{
    let one = seq![event];
    assert(one.drop_last() =~= Seq::<CollisionEvent>::empty());
    assert(one.last() == event);
    assert(run(w, one.drop_last()) == (w, Seq::<Effect>::empty()));
    assert(Seq::<Effect>::empty() + step(w, event).1 =~= step(w, event).1);
}

/// Two asteroids that touch clash, once, named in the order of the contact;
/// a contact that is not between two asteroids shows no clash.
pub proof fn lemma_clash_iff_two_asteroids(w: World, a: usize, b: usize)
    requires
        a < w.bodies.len(),
        b < w.bodies.len(),
    ensures
        ({
            let effects = step(w, CollisionEvent::Started(a, b)).1;
            let both = w.bodies[a as int] is Asteroid && w.bodies[b as int] is Asteroid;
            &&& both ==> effects == seq![Effect::Collision { avatar: Avatars::Asteroid, entity: a, other: Some(b) }]
            &&& !both ==> forall|i: int| 0 <= i < effects.len() ==> !(#[trigger] effects[i] matches Effect::Collision { avatar: Avatars::Asteroid, .. })
        }),
{
    let effects = step(w, CollisionEvent::Started(a, b)).1;
    let clash = clash_effects(w.bodies, a, b);
    if w.bodies[a as int] is Asteroid && w.bodies[b as int] is Asteroid {
        assert(effects =~= clash);
    } else {
        assert(clash =~= Seq::<Effect>::empty());
        match projectile_in(w.bodies, a, b) {
            None => {
                assert(effects =~= Seq::<Effect>::empty());
            },
            Some(p) => {
                let damage = w.bodies[p as int]->damage;
                let (wa, ea) = match asteroid_in(w.bodies, a, b) {
                    Some(x) => hit_asteroid(w, x, damage),
                    None => (w, Seq::<Effect>::empty()),
                };
                let (ws, es) = match ship_in(w.bodies, a, b) {
                    Some(s) => hit_ship(wa, s, damage),
                    None => (wa, Seq::<Effect>::empty()),
                };
                let all = impact_effects(p) + ea + es;
                assert(effects =~= all);
                assert forall|i: int| 0 <= i < all.len() implies !(#[trigger] all[i] matches Effect::Collision { avatar: Avatars::Asteroid, .. }) by {
                    if i < 2 {
                    } else if i < 2 + ea.len() {
                        assert(all[i] == ea[i - 2]);
                    } else {
                        assert(all[i] == es[i - 2 - ea.len()]);
                    }
                }
            },
        }
    }
}

/// Every contact between bodies of the table is defined while healths and
/// damages stay within `2^29` in size and the score is below its maximum.
pub proof fn lemma_small_values_defined(w: World, a: usize, b: usize)
    requires
        a < w.bodies.len(),
        b < w.bodies.len(),
        w.score < usize::MAX,
        forall|i: int| 0 <= i < w.bodies.len() ==> -0x2000_0000 <= health_of(#[trigger] w.bodies[i]) <= 0x2000_0000,
        forall|i: int| 0 <= i < w.bodies.len() && (#[trigger] w.bodies[i]) is Projectile ==> -0x2000_0000 <= w.bodies[i]->damage <= 0x2000_0000,
    ensures
        step_defined(w, CollisionEvent::Started(a, b)),
{
    if let Some(p) = projectile_in(w.bodies, a, b) {
        assert(p == a || p == b);
        assert(w.bodies[p as int] is Projectile);
        let d = w.bodies[p as int]->damage;
        assert(-0x2000_0000 <= d <= 0x2000_0000);
        if let Some(x) = asteroid_in(w.bodies, a, b) {
            assert(x == a || x == b);
            assert(health_of(w.bodies[x as int]) == w.bodies[x as int]->Asteroid_health);
            assert(fits_i32(w.bodies[x as int]->Asteroid_health - d));
        }
        if let Some(s) = ship_in(w.bodies, a, b) {
            assert(s == a || s == b);
            assert(health_of(w.bodies[s as int]) == w.bodies[s as int]->Ship_health);
            assert(fits_i32(w.bodies[s as int]->Ship_health - d));
        }
    }
}

} // verus!
