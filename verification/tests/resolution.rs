//! Tests for the two resolution passes and the body builders.
//!
//! Coordinates are fixed-point with 20 units per world unit.

use aabb_physics::body::{RigidBody, StaticBody, CENTER_LIMIT, LAYER_ACTOR, LAYER_WORLD, MASS_LIMIT, SIZE_LIMIT};
use aabb_physics::resolve::{dynamic_dynamic_collision_system, static_dynamic_collision_system};
use aabb_physics::vec2::Vec2;

fn wall(x: i64, y: i64, w: i64, h: i64) -> StaticBody {
    StaticBody::new(Vec2::new(x, y), Vec2::new(w, h), LAYER_WORLD).unwrap()
}

fn actor(x: i64, y: i64, w: i64, h: i64, mass: i64) -> RigidBody {
    RigidBody::new(Vec2::new(x, y), Vec2::new(w, h), mass, LAYER_ACTOR).unwrap()
}

#[test]
fn static_pass_applies_full_displacement() {
    // The dynamic body overlaps one wall with a displacement of half a
    // world unit to the right; it ends the tick shifted by exactly that,
    // and the wall itself is untouched.
    let statics = vec![wall(0, 0, 40, 40)];
    let mut dynamics = vec![actor(20, 0, 20, 20, 1)];
    static_dynamic_collision_system(&statics, &mut dynamics);
    assert_eq!(dynamics[0].center, Vec2::new(30, 0));
    assert_eq!(dynamics[0].size, Vec2::new(20, 20));
    assert_eq!(dynamics[0].mass, 1);
    assert_eq!(statics[0], wall(0, 0, 40, 40));
}

#[test]
fn static_pass_resolves_walls_in_order() {
    // Two overlapping walls are resolved sequentially: the first pushes the
    // body right onto the second, which then pushes it back left.
    let statics = vec![wall(0, 0, 40, 40), wall(40, 0, 40, 40)];
    let mut dynamics = vec![actor(20, 0, 20, 20, 1)];
    static_dynamic_collision_system(&statics, &mut dynamics);
    assert_eq!(dynamics[0].center, Vec2::new(10, 0));
}

#[test]
fn static_pass_leaves_separated_bodies_alone() {
    let statics = vec![wall(0, 0, 40, 40)];
    let mut dynamics = vec![actor(100, 100, 20, 20, 1)];
    static_dynamic_collision_system(&statics, &mut dynamics);
    assert_eq!(dynamics[0].center, Vec2::new(100, 100));
}

#[test]
fn static_pass_on_empty_collections() {
    let statics: Vec<StaticBody> = Vec::new();
    let mut dynamics: Vec<RigidBody> = Vec::new();
    static_dynamic_collision_system(&statics, &mut dynamics);
    assert_eq!(dynamics.len(), 0);
}

#[test]
fn dynamic_pass_splits_evenly_between_equal_masses() {
    // Two unit-mass bodies overlapping by a full world unit (20 units) each
    // move half a world unit, in opposite directions.
    let mut bodies = vec![actor(0, 0, 60, 60, 1), actor(20, 0, 20, 20, 1)];
    dynamic_dynamic_collision_system(&mut bodies);
    assert_eq!(bodies[0].center, Vec2::new(-10, 0));
    assert_eq!(bodies[1].center, Vec2::new(30, 0));
}

#[test]
fn dynamic_pass_moves_heavier_body_less() {
    // With masses 3 and 1 the heavy body takes a quarter of the
    // displacement and the light one three quarters.
    let mut bodies = vec![actor(0, 0, 60, 60, 3), actor(20, 0, 20, 20, 1)];
    dynamic_dynamic_collision_system(&mut bodies);
    assert_eq!(bodies[0].center, Vec2::new(-5, 0));
    assert_eq!(bodies[1].center, Vec2::new(35, 0));
}

#[test]
fn dynamic_pass_rounds_odd_displacement_down() {
    // An 11-unit displacement split between equal masses gives each body a
    // rounded-down share of 5; the remaining unit stays for a later tick.
    let mut bodies = vec![actor(0, 0, 42, 42, 1), actor(20, 0, 20, 20, 1)];
    dynamic_dynamic_collision_system(&mut bodies);
    assert_eq!(bodies[0].center, Vec2::new(-5, 0));
    assert_eq!(bodies[1].center, Vec2::new(25, 0));
}

#[test]
fn dynamic_pass_leaves_separated_bodies_alone() {
    let mut bodies = vec![actor(0, 0, 20, 20, 1), actor(100, 0, 20, 20, 1)];
    dynamic_dynamic_collision_system(&mut bodies);
    assert_eq!(bodies[0].center, Vec2::new(0, 0));
    assert_eq!(bodies[1].center, Vec2::new(100, 0));
}

#[test]
fn dynamic_pass_keeps_masses_and_sizes() {
    let mut bodies = vec![actor(0, 0, 60, 60, 3), actor(20, 0, 20, 20, 1)];
    dynamic_dynamic_collision_system(&mut bodies);
    assert_eq!(bodies[0].size, Vec2::new(60, 60));
    assert_eq!(bodies[0].mass, 3);
    assert_eq!(bodies[1].size, Vec2::new(20, 20));
    assert_eq!(bodies[1].mass, 1);
}

#[test]
fn rigid_body_builder_rejects_bad_fields() {
    let c = Vec2::new(0, 0);
    let s = Vec2::new(20, 20);
    // A mass must be strictly positive and in range.
    assert!(RigidBody::new(c, s, 0, LAYER_ACTOR).is_none());
    assert!(RigidBody::new(c, s, -1, LAYER_ACTOR).is_none());
    assert!(RigidBody::new(c, s, MASS_LIMIT + 1, LAYER_ACTOR).is_none());
    // Sizes must be non-negative and in range.
    assert!(RigidBody::new(c, Vec2::new(-1, 20), 1, LAYER_ACTOR).is_none());
    assert!(RigidBody::new(c, Vec2::new(20, SIZE_LIMIT + 1), 1, LAYER_ACTOR).is_none());
    // Centers must be in range.
    assert!(RigidBody::new(Vec2::new(CENTER_LIMIT + 1, 0), s, 1, LAYER_ACTOR).is_none());
    // A well-formed body is accepted unchanged.
    let b = RigidBody::new(c, s, 1, LAYER_ACTOR).unwrap();
    assert_eq!(b.center, c);
    assert_eq!(b.size, s);
    assert_eq!(b.mass, 1);
    assert_eq!(b.layers, LAYER_ACTOR);
}

#[test]
fn static_body_builder_rejects_bad_fields() {
    let c = Vec2::new(0, 0);
    let s = Vec2::new(20, 20);
    assert!(StaticBody::new(c, Vec2::new(-1, 20), LAYER_WORLD).is_none());
    assert!(StaticBody::new(Vec2::new(0, -CENTER_LIMIT - 1), s, LAYER_WORLD).is_none());
    let b = StaticBody::new(c, s, LAYER_WORLD).unwrap();
    assert_eq!(b.center, c);
    assert_eq!(b.size, s);
    assert_eq!(b.layers, LAYER_WORLD);
}
