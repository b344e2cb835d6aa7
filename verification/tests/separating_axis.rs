//! Tests for the overlap / minimum-translation-vector computation.
//!
//! Coordinates are fixed-point with 20 units per world unit, so every size
//! used here has a whole half.

use aabb_physics::mtv::minimum_separating_axis;
use aabb_physics::vec2::Vec2;

#[test]
fn test_minimum_separating_axis() {
    // Start A at the center and make it 1 unit wide.
    let a = Vec2::new(0, 0);
    let mut a_size = Vec2::new(20, 20);

    // Put B at (1, 1) and make it two units large.
    let mut b = Vec2::new(20, 20);
    let mut b_size = Vec2::new(40, 40);
    // Should overlap:
    assert!(minimum_separating_axis(&a, &a_size, &b, &b_size).is_some());

    // Now make B tiny.  It should not overlap.
    b_size.x = 2;
    b_size.y = 2;
    assert!(minimum_separating_axis(&a, &a_size, &b, &b_size).is_none());

    // Put B on the right and make A really tall.
    //   a-----------------------|
    //               |-----------b
    // (0,0) + + + + + + + + + (1,0)
    a_size.x = 40;
    a_size.y = 2000;
    b.x = 20;
    b.y = 0;
    b_size.x = 20;
    b_size.y = 20;
    // It should push to the right, by half a world unit.
    let mut collision = minimum_separating_axis(&a, &a_size, &b, &b_size);
    assert!(collision.is_some());
    assert_eq!(collision.unwrap().x, 10);
    assert!(collision.unwrap().x > collision.unwrap().y);

    // Put B to the left of A.
    b.x = -20;
    collision = minimum_separating_axis(&a, &a_size, &b, &b_size);
    assert!(collision.is_some());
    assert_eq!(collision.unwrap().x, -10);
}

#[test]
fn gap_on_either_axis_returns_none() {
    let a = Vec2::new(0, 0);
    let a_size = Vec2::new(20, 20);
    let size = Vec2::new(20, 20);
    // Horizontal gap.
    assert!(minimum_separating_axis(&a, &a_size, &Vec2::new(25, 0), &size).is_none());
    // Vertical gap.
    assert!(minimum_separating_axis(&a, &a_size, &Vec2::new(0, 25), &size).is_none());
    // Diagonal gap on both axes.
    assert!(minimum_separating_axis(&a, &a_size, &Vec2::new(-25, -25), &size).is_none());
}

#[test]
fn touching_counts_as_overlapping() {
    // B's left edge exactly on A's right edge: zero penetration is still an
    // overlap and resolves with a zero displacement.
    let a = Vec2::new(0, 0);
    let size = Vec2::new(20, 20);
    let b = Vec2::new(20, 0);
    let r = minimum_separating_axis(&a, &size, &b, &size);
    assert_eq!(r, Some(Vec2::new(0, 0)));
}

#[test]
fn tie_break_prefers_left() {
    // Two concentric squares: all four candidates have equal magnitude, and
    // the earliest (left) wins.
    let c = Vec2::new(0, 0);
    let size = Vec2::new(20, 20);
    let r = minimum_separating_axis(&c, &size, &c, &size);
    assert_eq!(r, Some(Vec2::new(20, 0)));
}

#[test]
fn magnitude_is_least_penetration() {
    // Penetrations of this pair: 10 from the left, 50 from the right, 1010
    // from the top, 1010 from the bottom. The result takes the least.
    let a = Vec2::new(0, 0);
    let a_size = Vec2::new(40, 2000);
    let b = Vec2::new(20, 0);
    let b_size = Vec2::new(20, 20);
    let v = minimum_separating_axis(&a, &a_size, &b, &b_size).unwrap();
    let m = v.x.abs() + v.y.abs();
    assert_eq!(m, 10);
    assert!(m <= 10 && m <= 50 && m <= 1010);
}

#[test]
fn displacement_separates_exactly() {
    // Adding the result to B's center leaves the pair exactly touching: the
    // recomputed displacement is zero.
    let a = Vec2::new(0, 0);
    let a_size = Vec2::new(40, 2000);
    let mut b = Vec2::new(20, 0);
    let b_size = Vec2::new(20, 20);
    let v = minimum_separating_axis(&a, &a_size, &b, &b_size).unwrap();
    b.x += v.x;
    b.y += v.y;
    let after = minimum_separating_axis(&a, &a_size, &b, &b_size);
    assert_eq!(after, Some(Vec2::new(0, 0)));
}

#[test]
fn swapped_order_flips_direction() {
    let a = Vec2::new(0, 0);
    let a_size = Vec2::new(40, 2000);
    let b = Vec2::new(20, 0);
    let b_size = Vec2::new(20, 20);
    let v1 = minimum_separating_axis(&a, &a_size, &b, &b_size).unwrap();
    let v2 = minimum_separating_axis(&b, &b_size, &a, &a_size).unwrap();
    assert_eq!(v1, Vec2::new(10, 0));
    assert_eq!(v2, Vec2::new(-10, 0));
    assert_eq!(v1.x.abs(), v2.x.abs());
    assert_eq!(v1.y.abs(), v2.y.abs());
}
