//! Overlap test and minimum translation vector for axis-aligned rectangles.

use crate::body::{size_ok, work_center_ok, SIZE_LIMIT};
use crate::vec2::{mag, Vec2, Vec2V};
use vstd::prelude::*;

verus! {

/// Half of a size component: a rectangle's extent on either side of its
/// center. Halving rounds down, so an odd size behaves as the next lower
/// even size; callers that care pick a scale in which sizes are even.
pub open spec fn half(s: int) -> int {
    s / 2
}

/// Signed distance from A's right edge to B's left edge: non-negative
/// exactly when A does not end before B begins on the horizontal axis.
pub open spec fn pen_left(ca: Vec2V, sa: Vec2V, cb: Vec2V, sb: Vec2V) -> int {
    (ca.x + half(sa.x)) - (cb.x - half(sb.x))
}

/// Signed distance from A's left edge to B's right edge: non-positive
/// exactly when A does not begin after B ends on the horizontal axis.
pub open spec fn pen_right(ca: Vec2V, sa: Vec2V, cb: Vec2V, sb: Vec2V) -> int {
    (ca.x - half(sa.x)) - (cb.x + half(sb.x))
}

/// Signed distance from A's top edge to B's bottom edge, as [`pen_left`]
/// on the vertical axis.
pub open spec fn pen_top(ca: Vec2V, sa: Vec2V, cb: Vec2V, sb: Vec2V) -> int {
    (ca.y + half(sa.y)) - (cb.y - half(sb.y))
}

/// Signed distance from A's bottom edge to B's top edge, as [`pen_right`]
/// on the vertical axis.
pub open spec fn pen_bottom(ca: Vec2V, sa: Vec2V, cb: Vec2V, sb: Vec2V) -> int {
    (ca.y - half(sa.y)) - (cb.y + half(sb.y))
}

/// The rectangles overlap on both axes. Rectangles that merely touch (zero
/// penetration on some axis) count as overlapping.
pub open spec fn overlapping(ca: Vec2V, sa: Vec2V, cb: Vec2V, sb: Vec2V) -> bool {
    &&& pen_left(ca, sa, cb, sb) >= 0
    &&& pen_right(ca, sa, cb, sb) <= 0
    &&& pen_top(ca, sa, cb, sb) >= 0
    &&& pen_bottom(ca, sa, cb, sb) <= 0
}

/// The minimum translation vector for an overlapping pair: of the four
/// single-axis displacements that push B out of A, the one of least
/// magnitude. Ties go to the earliest of left, right, top, bottom.
pub open spec fn mtv(ca: Vec2V, sa: Vec2V, cb: Vec2V, sb: Vec2V) -> Vec2V {
    let l = pen_left(ca, sa, cb, sb);
    let r = pen_right(ca, sa, cb, sb);
    let t = pen_top(ca, sa, cb, sb);
    let b = pen_bottom(ca, sa, cb, sb);
    if mag(l) <= mag(r) && mag(l) <= mag(t) && mag(l) <= mag(b) {
        Vec2V { x: l, y: 0 }
    } else if mag(r) <= mag(t) && mag(r) <= mag(b) {
        Vec2V { x: r, y: 0 }
    } else if mag(t) <= mag(b) {
        Vec2V { x: 0, y: t }
    } else {
        Vec2V { x: 0, y: b }
    }
}

/// The smaller of two integers.
pub open spec fn lesser(a: int, b: int) -> int {
    if a <= b {
        a
    } else {
        b
    }
}

/// The larger of two integers.
pub open spec fn greater(a: int, b: int) -> int {
    if a >= b {
        a
    } else {
        b
    }
}

/// Width of the horizontal overlap of the two rectangles: the length of the
/// intersection of their horizontal extents, negative when there is a gap.
pub open spec fn overlap_width_x(ca: Vec2V, sa: Vec2V, cb: Vec2V, sb: Vec2V) -> int {
    lesser(ca.x + half(sa.x), cb.x + half(sb.x)) - greater(ca.x - half(sa.x), cb.x - half(sb.x))
}

/// Width of the vertical overlap of the two rectangles, as
/// [`overlap_width_x`] on the vertical axis.
pub open spec fn overlap_width_y(ca: Vec2V, sa: Vec2V, cb: Vec2V, sb: Vec2V) -> int {
    lesser(ca.y + half(sa.y), cb.y + half(sb.y)) - greater(ca.y - half(sa.y), cb.y - half(sb.y))
}

/// The absolute value of a coordinate.
fn magnitude(x: i64) -> (m: i64)
    requires
        x != i64::MIN,
    ensures
        m as int == mag(x as int),
{
    if x < 0 {
        -x
    } else {
        x
    }
}

/// Returns the minimum displacement that, added to B's center, pushes B out
/// of A; `None` when the rectangles do not overlap. Rectangles that merely
/// touch count as overlapping and yield a zero displacement on the touching
/// axis.
///
/// Centers and full sizes are taken; half-sizes are derived internally.
/// The result is `None` exactly when the rectangles do not overlap, and
/// otherwise exactly the [`mtv`] of the pair.
pub fn minimum_separating_axis(
    center_a: &Vec2,
    size_a: &Vec2,
    center_b: &Vec2,
    size_b: &Vec2,
) -> (r: Option<Vec2>)
    requires
        size_ok(size_a@),
        size_ok(size_b@),
        work_center_ok(center_a@),
        work_center_ok(center_b@),
    ensures
        r is Some <==> overlapping(center_a@, size_a@, center_b@, size_b@),
        r matches Some(v) ==> v@ == mtv(center_a@, size_a@, center_b@, size_b@),
{
    let half_a_x: i64 = size_a.x / 2;
    let half_a_y: i64 = size_a.y / 2;
    let half_b_x: i64 = size_b.x / 2;
    let half_b_y: i64 = size_b.y / 2;

    // Distance from A's right to B's left.
    let ab_left: i64 = (center_a.x + half_a_x) - (center_b.x - half_b_x);
    if ab_left < 0 {
        return None;
    }

    // Distance from A's left to B's right.
    let ab_right: i64 = (center_a.x - half_a_x) - (center_b.x + half_b_x);
    if ab_right > 0 {
        return None;
    }

    // Distance from A's top to B's bottom.
    let ab_top: i64 = (center_a.y + half_a_y) - (center_b.y - half_b_y);
    if ab_top < 0 {
        return None;
    }

    // Distance from A's bottom to B's top.
    let ab_bottom: i64 = (center_a.y - half_a_y) - (center_b.y + half_b_y);
    if ab_bottom > 0 {
        return None;
    }

    // There is an overlap: keep the candidate of least magnitude, earliest
    // candidate winning ties.
    let mut best: Vec2 = Vec2 { x: ab_left, y: 0 };
    let mut best_mag: i64 = magnitude(ab_left);

    let mag_right: i64 = magnitude(ab_right);
    if mag_right < best_mag {
        best = Vec2 { x: ab_right, y: 0 };
        best_mag = mag_right;
    }

    let mag_top: i64 = magnitude(ab_top);
    if mag_top < best_mag {
        best = Vec2 { x: 0, y: ab_top };
        best_mag = mag_top;
    }

    let mag_bottom: i64 = magnitude(ab_bottom);
    if mag_bottom < best_mag {
        best = Vec2 { x: 0, y: ab_bottom };
        best_mag = mag_bottom;
    }

    Some(best)
}

/// Law: for an overlapping pair the minimum translation vector lies on a
/// single axis, its magnitude is exactly the least of the four penetration
/// magnitudes, and in particular it never exceeds the penetration on any
/// axis.
pub proof fn lemma_mtv_minimal(ca: Vec2V, sa: Vec2V, cb: Vec2V, sb: Vec2V)
    requires
        overlapping(ca, sa, cb, sb),
    ensures
        ({
            let v = mtv(ca, sa, cb, sb);
            let l = pen_left(ca, sa, cb, sb);
            let r = pen_right(ca, sa, cb, sb);
            let t = pen_top(ca, sa, cb, sb);
            let b = pen_bottom(ca, sa, cb, sb);
            &&& v.x == 0 || v.y == 0
            &&& mag(v.x) + mag(v.y) == lesser(lesser(mag(l), mag(r)), lesser(mag(t), mag(b)))
            &&& mag(v.x) + mag(v.y) <= mag(l)
            &&& mag(v.x) + mag(v.y) <= mag(r)
            &&& mag(v.x) + mag(v.y) <= mag(t)
            &&& mag(v.x) + mag(v.y) <= mag(b)
        }),
{
}

/// Law: adding the minimum translation vector to B's center reduces the
/// overlap to a boundary contact of zero area: on the chosen axis the
/// overlap width becomes exactly zero, the other axis is untouched, and no
/// gap opens on either axis.
pub proof fn lemma_mtv_separates(ca: Vec2V, sa: Vec2V, cb: Vec2V, sb: Vec2V)
    requires
        sa.x >= 0,
        sa.y >= 0,
        sb.x >= 0,
        sb.y >= 0,
        overlapping(ca, sa, cb, sb),
    ensures
        ({
            let v = mtv(ca, sa, cb, sb);
            let cb2 = Vec2V { x: cb.x + v.x, y: cb.y + v.y };
            &&& overlap_width_x(ca, sa, cb2, sb) >= 0
            &&& overlap_width_y(ca, sa, cb2, sb) >= 0
            &&& overlap_width_x(ca, sa, cb2, sb) == 0 || overlap_width_y(ca, sa, cb2, sb) == 0
        }),
{
}

/// Law: whether an overlap is reported does not depend on the order of the
/// two rectangles, and swapping them keeps the minimum translation vector's
/// axis and magnitude while flipping its direction — except that when two
/// opposite candidates tie, the tie-break may pick the same direction for
/// both orders.
pub proof fn lemma_swap_symmetry(ca: Vec2V, sa: Vec2V, cb: Vec2V, sb: Vec2V)
    ensures
        overlapping(ca, sa, cb, sb) == overlapping(cb, sb, ca, sa),
        overlapping(ca, sa, cb, sb) ==> ({
            let v1 = mtv(ca, sa, cb, sb);
            let v2 = mtv(cb, sb, ca, sa);
            &&& mag(v1.x) == mag(v2.x)
            &&& mag(v1.y) == mag(v2.y)
            &&& (v2 == (Vec2V { x: -v1.x, y: -v1.y }) || v2 == v1)
        }),
{
    assert(pen_left(cb, sb, ca, sa) == -pen_right(ca, sa, cb, sb));
    assert(pen_right(cb, sb, ca, sa) == -pen_left(ca, sa, cb, sb));
    assert(pen_top(cb, sb, ca, sa) == -pen_bottom(ca, sa, cb, sb));
    assert(pen_bottom(cb, sb, ca, sa) == -pen_top(ca, sa, cb, sb));
}

/// For in-range sizes the minimum translation vector's components are at
/// most [`SIZE_LIMIT`] in magnitude: the chosen penetration is at most the
/// sum of the two half-sizes on its axis.
pub proof fn lemma_mtv_bounded(ca: Vec2V, sa: Vec2V, cb: Vec2V, sb: Vec2V)
    requires
        size_ok(sa),
        size_ok(sb),
        overlapping(ca, sa, cb, sb),
    ensures
        mag(mtv(ca, sa, cb, sb).x) <= SIZE_LIMIT,
        mag(mtv(ca, sa, cb, sb).y) <= SIZE_LIMIT,
{
    let l = pen_left(ca, sa, cb, sb);
    let r = pen_right(ca, sa, cb, sb);
    let t = pen_top(ca, sa, cb, sb);
    let b = pen_bottom(ca, sa, cb, sb);
    assert(mag(l) + mag(r) == 2 * (half(sa.x) + half(sb.x)));
    assert(mag(t) + mag(b) == 2 * (half(sa.y) + half(sb.y)));
    assert(half(sa.x) + half(sb.x) <= SIZE_LIMIT);
    assert(half(sa.y) + half(sb.y) <= SIZE_LIMIT);
}

} // verus!
