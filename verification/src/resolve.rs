//! The two positional resolution passes over collections of bodies.
//!
//! Both passes run once per simulation tick over a snapshot of bodies and
//! apply pure positional correction: no velocity is read or written.

use crate::body::{
    mass_ok, size_ok, RigidBody, RigidBodyV, StaticBody, StaticBodyV, CENTER_LIMIT, MASS_LIMIT,
    MAX_BODIES, SIZE_LIMIT,
};
use crate::mtv::{lemma_mtv_bounded, minimum_separating_axis, mtv, overlapping};
use crate::vec2::{mag, Vec2, Vec2V};
use vstd::arithmetic::div_mod::{
    lemma_div_is_ordered, lemma_div_multiples_vanish, lemma_fundamental_div_mod,
};
use vstd::arithmetic::mul::lemma_mul_inequality;
use vstd::pervasive::VecAdditionalExecFns;
use vstd::prelude::*;

verus! {

/// The part of a displacement `v` that one body of a pair receives: `v`
/// scaled by `m / msum` with the quotient's magnitude rounded down, keeping
/// `v`'s sign.
pub open spec fn mass_share(v: int, m: int, msum: int) -> int {
    if v >= 0 {
        (v * m) / msum
    } else {
        -((-v * m) / msum)
    }
}

/// The mathematical values of a sequence of rigid bodies.
pub open spec fn rigid_views(s: Seq<RigidBody>) -> Seq<RigidBodyV> {
    s.map_values(|b: RigidBody| b@)
}

/// The mathematical values of a sequence of static bodies.
pub open spec fn static_views(s: Seq<StaticBody>) -> Seq<StaticBodyV> {
    s.map_values(|b: StaticBody| b@)
}

/// One static-dynamic resolution: when the obstacle `s` and the movable
/// body `d` overlap, `d`'s center takes the full minimum translation
/// vector, computed with `s` first so that the vector pushes `d` out.
pub open spec fn resolve_against_static(s: StaticBodyV, d: RigidBodyV) -> RigidBodyV {
    if overlapping(s.center, s.size, d.center, d.size) {
        let v = mtv(s.center, s.size, d.center, d.size);
        RigidBodyV { center: Vec2V { x: d.center.x + v.x, y: d.center.y + v.y }, ..d }
    } else {
        d
    }
}

/// The movable body `d` after resolving against the obstacles at positions
/// `k`, `k + 1`, ... in order, each resolution acting on the position the
/// previous one produced.
pub open spec fn resolve_statics_from(ss: Seq<StaticBodyV>, k: int, d: RigidBodyV) -> RigidBodyV
    decreases ss.len() - k,
{
    if 0 <= k < ss.len() {
        resolve_statics_from(ss, k + 1, resolve_against_static(ss[k], d))
    } else {
        d
    }
}

/// One dynamic-dynamic resolution: when the bodies overlap, the minimum
/// translation vector (which pushes B out of A) is split in proportion to
/// the other body's mass share. A receives the part proportional to B's
/// mass, negated; B receives the part proportional to A's mass. A heavier
/// body therefore moves less.
pub open spec fn resolve_pair(a: RigidBodyV, b: RigidBodyV) -> (RigidBodyV, RigidBodyV) {
    if overlapping(a.center, a.size, b.center, b.size) {
        let v = mtv(a.center, a.size, b.center, b.size);
        let msum = a.mass + b.mass;
        let a2 = RigidBodyV {
            center: Vec2V {
                x: a.center.x - mass_share(v.x, b.mass, msum),
                y: a.center.y - mass_share(v.y, b.mass, msum),
            },
            ..a
        };
        let b2 = RigidBodyV {
            center: Vec2V {
                x: b.center.x + mass_share(v.x, a.mass, msum),
                y: b.center.y + mass_share(v.y, a.mass, msum),
            },
            ..b
        };
        (a2, b2)
    } else {
        (a, b)
    }
}

/// The body sequence after resolving the pair at positions `i` and `j`.
pub open spec fn resolve_pair_at(s: Seq<RigidBodyV>, i: int, j: int) -> Seq<RigidBodyV> {
    let p = resolve_pair(s[i], s[j]);
    s.update(i, p.0).update(j, p.1)
}

/// The body sequence after resolving the pairs `(i, j)`, `(i, j + 1)`, ...
/// up to the end, in that order, each resolution acting on the positions
/// the previous ones produced.
pub open spec fn resolve_pairs_inner(s: Seq<RigidBodyV>, i: int, j: int) -> Seq<RigidBodyV>
    decreases s.len() - j,
{
    if 0 <= i < j < s.len() {
        resolve_pairs_inner(resolve_pair_at(s, i, j), i, j + 1)
    } else {
        s
    }
}

/// The body sequence of length `n` after resolving every pair whose smaller
/// position is at least `i`: the pairs `(i, i + 1)` ... `(i, n - 1)`, then
/// those of `i + 1`, and so on.
pub open spec fn resolve_pairs_from(s: Seq<RigidBodyV>, n: int, i: int) -> Seq<RigidBodyV>
    decreases n - i,
{
    if 0 <= i && i + 1 < n {
        resolve_pairs_from(resolve_pairs_inner(s, i, i + 1), n, i + 1)
    } else {
        s
    }
}

/// The whole dynamic-dynamic pass: every unordered pair exactly once, no
/// self-pairs, ordered by the smaller position and then the larger.
pub open spec fn resolve_pairs(s: Seq<RigidBodyV>) -> Seq<RigidBodyV> {
    resolve_pairs_from(s, s.len() as int, 0)
}

/// The executable mass share: `|v| * m / msum` rounded down, with `v`'s
/// sign put back.
fn scaled_share(v: i64, m: i64, msum: i64) -> (r: i64)
    requires
        -SIZE_LIMIT <= v <= SIZE_LIMIT,
        1 <= m,
        m < msum,
        msum <= 2 * MASS_LIMIT,
    ensures
        r as int == mass_share(v as int, m as int, msum as int),
        mag(r as int) <= mag(v as int),
{
    let v_mag: i64 = if v >= 0 {
        v
    } else {
        -v
    };
    proof {
        assert(v_mag * m <= v_mag * msum) by (nonlinear_arith)
            requires
                0 <= v_mag,
                m <= msum,
        ;
        assert(v_mag * msum <= SIZE_LIMIT * 2 * MASS_LIMIT) by (nonlinear_arith)
            requires
                0 <= v_mag <= SIZE_LIMIT,
                0 < msum <= 2 * MASS_LIMIT,
        ;
        lemma_div_is_ordered(v_mag * m, v_mag * msum, msum as int);
        lemma_div_multiples_vanish(v_mag as int, msum as int);
        assert(v_mag * msum == msum * v_mag) by (nonlinear_arith);
    }
    let q: u64 = (v_mag as u64) * (m as u64) / (msum as u64);
    let q_i: i64 = q as i64;
    if v >= 0 {
        q_i
    } else {
        -q_i
    }
}

/// Static-dynamic resolution pass: every movable body is resolved against
/// every obstacle, in obstacle order, receiving the full minimum
/// translation vector of each overlap it is found in. Overlaps are resolved
/// sequentially, so a body overlapping several obstacles is pushed by each
/// in turn, each resolution seeing the position the previous one produced.
/// Obstacles are never moved.
///
/// Each movable body ends at exactly the position the
/// [`resolve_statics_from`] fold assigns it; its size, mass and layers are
/// untouched, and its center stays in the working range.
pub fn static_dynamic_collision_system(statics: &Vec<StaticBody>, dynamics: &mut Vec<RigidBody>)
    requires
        forall|k: int| 0 <= k < statics@.len() ==> (#[trigger] statics@[k]).wf(),
        forall|k: int| 0 <= k < old(dynamics)@.len() ==> (#[trigger] old(dynamics)@[k]).wf(),
    ensures
        final(dynamics)@.len() == old(dynamics)@.len(),
        forall|k: int|
            0 <= k < old(dynamics)@.len() ==> (#[trigger] final(dynamics)@[k])@
                == resolve_statics_from(static_views(statics@), 0, old(dynamics)@[k]@),
        forall|k: int|
            0 <= k < old(dynamics)@.len() ==> (#[trigger] final(dynamics)@[k]).wf_moved()
                && final(dynamics)@[k].size == old(dynamics)@[k].size
                && final(dynamics)@[k].mass == old(dynamics)@[k].mass
                && final(dynamics)@[k].layers == old(dynamics)@[k].layers,
{
    let ghost svs: Seq<StaticBodyV> = static_views(statics@);
    let n_dyn: usize = dynamics.len();
    let mut di: usize = 0;
    while di < n_dyn
        invariant
            n_dyn == dynamics@.len(),
            dynamics@.len() == old(dynamics)@.len(),
            svs == static_views(statics@),
            forall|k: int| 0 <= k < statics@.len() ==> (#[trigger] statics@[k]).wf(),
            forall|k: int| 0 <= k < old(dynamics)@.len() ==> (#[trigger] old(dynamics)@[k]).wf(),
            di <= n_dyn,
            forall|k: int|
                0 <= k < di ==> (#[trigger] dynamics@[k])@
                    == resolve_statics_from(svs, 0, old(dynamics)@[k]@),
            forall|k: int|
                0 <= k < di ==> (#[trigger] dynamics@[k]).wf_moved()
                    && dynamics@[k].size == old(dynamics)@[k].size
                    && dynamics@[k].mass == old(dynamics)@[k].mass
                    && dynamics@[k].layers == old(dynamics)@[k].layers,
            forall|k: int| di <= k < n_dyn ==> #[trigger] dynamics@[k] == old(dynamics)@[k],
        decreases n_dyn - di,
    {
        let mut d: RigidBody = dynamics[di];
        let ghost d_start: RigidBodyV = old(dynamics)@[di as int]@;
        let n_st: usize = statics.len();
        let mut si: usize = 0;
        while si < n_st
            invariant
                n_st == statics@.len(),
                svs == static_views(statics@),
                forall|k: int| 0 <= k < statics@.len() ==> (#[trigger] statics@[k]).wf(),
                si <= n_st,
                size_ok(d.size@),
                mass_ok(d.mass as int),
                -(CENTER_LIMIT + SIZE_LIMIT) <= d.center.x <= CENTER_LIMIT + SIZE_LIMIT,
                -(CENTER_LIMIT + SIZE_LIMIT) <= d.center.y <= CENTER_LIMIT + SIZE_LIMIT,
                d.size@ == d_start.size && d.mass as int == d_start.mass
                    && d.layers == d_start.layers,
                resolve_statics_from(svs, si as int, d@) == resolve_statics_from(svs, 0, d_start),
            decreases n_st - si,
        {
            let s: StaticBody = statics[si];
            let ghost d_before: RigidBodyV = d@;
            if let Some(v) = minimum_separating_axis(&s.center, &s.size, &d.center, &d.size) {
                proof {
                    lemma_mtv_bounded(s.center@, s.size@, d.center@, d.size@);
                }
                d = RigidBody {
                    center: Vec2 { x: d.center.x + v.x, y: d.center.y + v.y },
                    ..d
                };
            }
            proof {
                assert(svs[si as int] == statics@[si as int]@);
                assert(d@ == resolve_against_static(svs[si as int], d_before));
            }
            si += 1;
        }
        dynamics.set(di, d);
        di += 1;
    }
}

/// The exact share taken from a displacement that divides evenly: scaling
/// `v` by `c * m / (k * m)` gives `c` times the `k`-th part of `v` whenever
/// `k` divides `v`.
proof fn lemma_share_exact(v: int, m: int, k: int, c: int)
    requires
        1 <= m,
        1 <= k,
        0 <= c <= k,
        v % k == 0,
    ensures
        mass_share(v, c * m, k * m) == c * (v / k),
{
    lemma_fundamental_div_mod(v, k);
    assert(0 < k * m) by (nonlinear_arith)
        requires
            1 <= k,
            1 <= m,
    ;
    if v >= 0 {
        let q = v / k;
        assert(v == k * q);
        assert(v * (c * m) == (k * m) * (c * q)) by (nonlinear_arith)
            requires
                v == k * q,
        ;
        lemma_div_multiples_vanish(c * q, k * m);
        assert((k * m) * (c * q) / (k * m) == c * q);
    } else {
        let q = v / k;
        assert(v == k * q);
        assert(-v == k * (-q)) by (nonlinear_arith)
            requires
                v == k * q,
        ;
        assert(-v * (c * m) == (k * m) * (c * (-q))) by (nonlinear_arith)
            requires
                -v == k * (-q),
        ;
        lemma_div_multiples_vanish(c * (-q), k * m);
        assert(mass_share(v, c * m, k * m) == -(c * (-q)));
        assert(-(c * (-q)) == c * q) by (nonlinear_arith);
    }
}

/// At most `n * n` pair resolutions run over `n` bodies, each moving a
/// center by at most [`SIZE_LIMIT`], so the accumulated drift stays within
/// [`CENTER_LIMIT`].
proof fn lemma_steps_drift(n: int, steps: int)
    requires
        0 <= n <= MAX_BODIES as int,
        0 <= steps,
        steps <= n * n,
    ensures
        steps * SIZE_LIMIT <= CENTER_LIMIT,
{
    lemma_mul_inequality(steps, n * n, SIZE_LIMIT as int);
    assert(n * n <= (MAX_BODIES as int) * (MAX_BODIES as int)) by (nonlinear_arith)
        requires
            0 <= n <= MAX_BODIES as int,
    ;
    lemma_mul_inequality(n * n, (MAX_BODIES as int) * (MAX_BODIES as int), SIZE_LIMIT as int);
    assert((MAX_BODIES as int) * (MAX_BODIES as int) * (SIZE_LIMIT as int) == CENTER_LIMIT);
}

/// The step count at outer position `i` and inner position `j` of the pair
/// enumeration is below `n * n`, so the drift bound of [`lemma_steps_drift`]
/// applies mid-pass.
proof fn lemma_drift_bound(i: int, j: int, n: int, steps: int)
    requires
        0 <= i,
        i + 1 <= j,
        j <= n,
        n <= MAX_BODIES as int,
        0 <= steps,
        steps <= i * n + j - i - 1,
    ensures
        steps * SIZE_LIMIT <= CENTER_LIMIT,
{
    assert(steps <= n * n) by (nonlinear_arith)
        requires
            0 <= i,
            i + 1 <= j,
            j <= n,
            0 <= steps,
            steps <= i * n + j - i - 1,
    ;
    lemma_steps_drift(n, steps);
}

/// Dynamic-dynamic resolution pass: every unordered pair of movable bodies
/// is visited exactly once — no self-pairs, no duplicate pairs — in order
/// of the smaller index, then the larger. An overlapping pair is pushed
/// apart along the minimum translation vector, split in proportion to the
/// other body's mass: the body at the smaller index receives the part
/// proportional to the other's mass, negated; the body at the larger index
/// the part proportional to the first's mass. Each resolution acts on the
/// positions the previous ones produced.
///
/// The bodies end exactly as the [`resolve_pairs`] fold leaves them; sizes,
/// masses and layers are untouched, and centers stay in the working range.
pub fn dynamic_dynamic_collision_system(bodies: &mut Vec<RigidBody>)
    requires
        old(bodies)@.len() <= MAX_BODIES,
        forall|k: int| 0 <= k < old(bodies)@.len() ==> (#[trigger] old(bodies)@[k]).wf(),
    ensures
        final(bodies)@.len() == old(bodies)@.len(),
        rigid_views(final(bodies)@) == resolve_pairs(rigid_views(old(bodies)@)),
        forall|k: int|
            0 <= k < old(bodies)@.len() ==> (#[trigger] final(bodies)@[k]).wf_moved()
                && final(bodies)@[k].size == old(bodies)@[k].size
                && final(bodies)@[k].mass == old(bodies)@[k].mass
                && final(bodies)@[k].layers == old(bodies)@[k].layers,
{
    let ghost orig: Seq<RigidBodyV> = rigid_views(bodies@);
    let n: usize = bodies.len();
    let ghost mut steps: int = 0;
    let mut i: usize = 0;
    while i + 1 < n
        invariant
            n == bodies@.len(),
            bodies@.len() == old(bodies)@.len(),
            n <= MAX_BODIES,
            orig == rigid_views(old(bodies)@),
            i <= n,
            0 <= steps,
            steps <= (i as int) * (n as int),
            resolve_pairs_from(rigid_views(bodies@), n as int, i as int) == resolve_pairs_from(
                orig,
                n as int,
                0,
            ),
            forall|k: int|
                0 <= k < n ==> size_ok((#[trigger] bodies@[k]).size@)
                    && mass_ok(bodies@[k].mass as int)
                    && bodies@[k].size == old(bodies)@[k].size
                    && bodies@[k].mass == old(bodies)@[k].mass
                    && bodies@[k].layers == old(bodies)@[k].layers
                    && mag(bodies@[k].center@.x) <= CENTER_LIMIT + steps * SIZE_LIMIT
                    && mag(bodies@[k].center@.y) <= CENTER_LIMIT + steps * SIZE_LIMIT,
        decreases n - i,
    {
        let mut j: usize = i + 1;
        while j < n
            invariant
                n == bodies@.len(),
                bodies@.len() == old(bodies)@.len(),
                n <= MAX_BODIES,
                orig == rigid_views(old(bodies)@),
                i + 1 < n,
                i + 1 <= j <= n,
                0 <= steps,
                steps <= (i as int) * (n as int) + (j as int) - (i as int) - 1,
                resolve_pairs_from(
                    resolve_pairs_inner(rigid_views(bodies@), i as int, j as int),
                    n as int,
                    i as int + 1,
                ) == resolve_pairs_from(orig, n as int, 0),
                forall|k: int|
                    0 <= k < n ==> size_ok((#[trigger] bodies@[k]).size@)
                        && mass_ok(bodies@[k].mass as int)
                        && bodies@[k].size == old(bodies)@[k].size
                        && bodies@[k].mass == old(bodies)@[k].mass
                        && bodies@[k].layers == old(bodies)@[k].layers
                        && mag(bodies@[k].center@.x) <= CENTER_LIMIT + steps * SIZE_LIMIT
                        && mag(bodies@[k].center@.y) <= CENTER_LIMIT + steps * SIZE_LIMIT,
            decreases n - j,
        {
            let ghost pre: Seq<RigidBodyV> = rigid_views(bodies@);
            proof {
                lemma_drift_bound(i as int, j as int, n as int, steps);
            }
            let a: RigidBody = bodies[i];
            let b: RigidBody = bodies[j];
            let maybe: Option<Vec2> = minimum_separating_axis(
                &a.center,
                &a.size,
                &b.center,
                &b.size,
            );
            if let Some(v) = maybe {
                proof {
                    lemma_mtv_bounded(a.center@, a.size@, b.center@, b.size@);
                }
                let msum: i64 = a.mass + b.mass;
                let share_ax: i64 = scaled_share(v.x, b.mass, msum);
                let share_ay: i64 = scaled_share(v.y, b.mass, msum);
                let share_bx: i64 = scaled_share(v.x, a.mass, msum);
                let share_by: i64 = scaled_share(v.y, a.mass, msum);
                let a2: RigidBody = RigidBody {
                    center: Vec2 { x: a.center.x - share_ax, y: a.center.y - share_ay },
                    ..a
                };
                let b2: RigidBody = RigidBody {
                    center: Vec2 { x: b.center.x + share_bx, y: b.center.y + share_by },
                    ..b
                };
                bodies.set(i, a2);
                bodies.set(j, b2);
            }
            proof {
                assert(rigid_views(bodies@) =~= resolve_pair_at(pre, i as int, j as int));
                assert(resolve_pairs_inner(pre, i as int, j as int) == resolve_pairs_inner(
                    rigid_views(bodies@),
                    i as int,
                    j as int + 1,
                ));
                steps = steps + 1;
            }
            j += 1;
        }
        proof {
            assert(((i + 1) as int) * (n as int) == (i as int) * (n as int) + (n as int))
                by (nonlinear_arith);
        }
        i += 1;
    }
    proof {
        assert(steps <= (n as int) * (n as int)) by (nonlinear_arith)
            requires
                0 <= steps,
                steps <= (i as int) * (n as int),
                0 <= i <= n,
        ;
        lemma_steps_drift(n as int, steps);
    }
}

/// Law: when the two bodies of a pair have equal mass, each moves by
/// exactly half the minimum translation vector, in opposite directions —
/// provided the halves are whole; an odd component is rounded down for
/// both bodies alike.
pub proof fn lemma_equal_mass_half_split(a: RigidBodyV, b: RigidBodyV)
    requires
        a.mass == b.mass,
        1 <= a.mass,
        overlapping(a.center, a.size, b.center, b.size),
        mtv(a.center, a.size, b.center, b.size).x % 2 == 0,
        mtv(a.center, a.size, b.center, b.size).y % 2 == 0,
    ensures
        ({
            let v = mtv(a.center, a.size, b.center, b.size);
            let p = resolve_pair(a, b);
            &&& p.0.center.x == a.center.x - v.x / 2
            &&& p.0.center.y == a.center.y - v.y / 2
            &&& p.1.center.x == b.center.x + v.x / 2
            &&& p.1.center.y == b.center.y + v.y / 2
        }),
{
    let v = mtv(a.center, a.size, b.center, b.size);
    let m = a.mass;
    lemma_share_exact(v.x, m, 2, 1);
    lemma_share_exact(v.y, m, 2, 1);
    assert(a.mass + b.mass == 2 * m);
    assert(1 * m == m);
    assert(1 * (v.x / 2) == v.x / 2);
    assert(1 * (v.y / 2) == v.y / 2);
}

/// Law: when A's mass is three times B's, A moves by a quarter of the
/// minimum translation vector and B by three quarters — provided the
/// quarters are whole.
pub proof fn lemma_triple_mass_quarter_split(a: RigidBodyV, b: RigidBodyV)
    requires
        a.mass == 3 * b.mass,
        1 <= b.mass,
        overlapping(a.center, a.size, b.center, b.size),
        mtv(a.center, a.size, b.center, b.size).x % 4 == 0,
        mtv(a.center, a.size, b.center, b.size).y % 4 == 0,
    ensures
        ({
            let v = mtv(a.center, a.size, b.center, b.size);
            let p = resolve_pair(a, b);
            &&& p.0.center.x == a.center.x - v.x / 4
            &&& p.0.center.y == a.center.y - v.y / 4
            &&& p.1.center.x == b.center.x + 3 * (v.x / 4)
            &&& p.1.center.y == b.center.y + 3 * (v.y / 4)
        }),
{
    let v = mtv(a.center, a.size, b.center, b.size);
    let m = b.mass;
    lemma_share_exact(v.x, m, 4, 1);
    lemma_share_exact(v.y, m, 4, 1);
    lemma_share_exact(v.x, m, 4, 3);
    lemma_share_exact(v.y, m, 4, 3);
    assert(a.mass + b.mass == 4 * m);
    assert(1 * m == m);
    assert(1 * (v.x / 4) == v.x / 4);
    assert(1 * (v.y / 4) == v.y / 4);
}

} // verus!
