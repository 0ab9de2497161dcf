//! The global guarantees of the simulation, stated and proved over the same
//! spec functions that the executable contracts use.

use vstd::prelude::*;

use crate::arith::{lemma_div_trunc_exact, mag};
use crate::decomp::decomp_spec;
use crate::marble::{
    collide, collide_fixed, in_range, lemma_collide_fixed_frame, lemma_collide_frame, step_axis,
    wall_step, MarbleModel,
};
use crate::vec2::{dot2, V2};
use crate::world::{
    apply_pair, fixed_fold, pairs_inner, pairs_outer, phase1, small_step, substeps, world_step,
    WorldModel, SUBSTEP_FACTOR, SUBSTEP_THRESHOLD,
};

verus! {

/// The vector from the first body's center to the second's.
pub open spec fn center_axis(a: MarbleModel, b: MarbleModel) -> V2 {
    V2 { x: b.p.x - a.p.x, y: b.p.y - a.p.y }
}

/// A body whose center lies inside the walls, with room for its radius.
pub open spec fn contained(m: MarbleModel, width: int, height: int) -> bool {
    &&& m.r <= m.p.x <= width - m.r
    &&& m.r <= m.p.y <= height - m.r
}

/// Every mobile body is contained and its diameter fits the arena.
pub open spec fn snug(w: WorldModel) -> bool {
    forall|i: int|
        0 <= i < w.m.len() ==> contained(#[trigger] w.m[i], w.width, w.height) && 2 * w.m[i].r
            <= w.width && 2 * w.m[i].r <= w.height
}

/// A single-axis wall bounce only ever flips the sign of the velocity on
/// that axis: speed magnitude on the axis is preserved.
pub proof fn wall_bounce_preserves_axis_speed(p: int, v: int, r: int, dim: int, dt: int)
    ensures
        mag(step_axis(p, v, r, dim, dt).1) == mag(v),
{
}

/// One axis of the wall bounce keeps a contained coordinate contained.
pub proof fn lemma_step_axis_contained(p: int, v: int, r: int, dim: int, dt: int)
    requires
        dt >= 0,
        r <= p,
        p <= dim - r,
        2 * r <= dim,
    ensures
        r <= step_axis(p, v, r, dim, dt).0,
        step_axis(p, v, r, dim, dt).0 <= dim - r,
{
    assert(v > 0 ==> v * dt >= 0) by (nonlinear_arith)
        requires
            dt >= 0,
    ;
    assert(v < 0 ==> v * dt <= 0) by (nonlinear_arith)
        requires
            dt >= 0,
    ;
    assert(v == 0 ==> v * dt == 0) by (nonlinear_arith);
}

/// Bouncing off a sequence of immobile bodies never moves a body.
pub proof fn lemma_fixed_fold_frame(m: MarbleModel, fx: Seq<MarbleModel>, k: int)
    ensures
        fixed_fold(m, fx, k).p == m.p,
        fixed_fold(m, fx, k).r == m.r,
    decreases k,
{
    if k > 0 {
        lemma_fixed_fold_frame(m, fx, k - 1);
        lemma_collide_fixed_frame(fixed_fold(m, fx, k - 1), fx[k - 1]);
    }
}

/// Pair resolution never moves a body nor changes a radius.
pub proof fn lemma_pairs_inner_frame(s: Seq<MarbleModel>, i: int, j: int)
    requires
        0 <= i < s.len(),
        0 <= j <= i,
    ensures
        pairs_inner(s, i, j).len() == s.len(),
        forall|t: int|
            0 <= t < s.len() ==> (#[trigger] pairs_inner(s, i, j)[t]).p == s[t].p && pairs_inner(
                s,
                i,
                j,
            )[t].r == s[t].r,
    decreases j,
{
    if j > 0 {
        lemma_pairs_inner_frame(s, i, j - 1);
        let sp = pairs_inner(s, i, j - 1);
        lemma_collide_frame(sp[j - 1], sp[i]);
        assert(pairs_inner(s, i, j) == apply_pair(sp, i, j - 1));
    }
}

/// The outer pair loop never moves a body nor changes a radius.
pub proof fn lemma_pairs_outer_frame(s: Seq<MarbleModel>, i: int)
    requires
        0 <= i <= s.len(),
    ensures
        pairs_outer(s, i).len() == s.len(),
        forall|t: int|
            0 <= t < s.len() ==> (#[trigger] pairs_outer(s, i)[t]).p == s[t].p && pairs_outer(
                s,
                i,
            )[t].r == s[t].r,
    decreases i,
{
    if i > 0 {
        lemma_pairs_outer_frame(s, i - 1);
        lemma_pairs_inner_frame(pairs_outer(s, i - 1), i - 1, i - 1);
    }
}

/// One undivided step keeps every mobile body contained.
pub proof fn lemma_small_step_containment(w: WorldModel, dt: int)
    requires
        dt >= 0,
        snug(w),
    ensures
        snug(small_step(w, dt)),
{
    let s1 = phase1(w.m, w.fixed, dt, w.width, w.height);
    assert forall|t: int| 0 <= t < s1.len() implies contained(
        #[trigger] s1[t],
        w.width,
        w.height,
    ) && s1[t].r == w.m[t].r by {
        lemma_step_axis_contained(w.m[t].p.x, w.m[t].v.x, w.m[t].r, w.width, dt);
        lemma_step_axis_contained(w.m[t].p.y, w.m[t].v.y, w.m[t].r, w.height, dt);
        lemma_fixed_fold_frame(wall_step(w.m[t], dt, w.width, w.height), w.fixed, w.fixed.len() as int);
    };
    lemma_pairs_outer_frame(s1, s1.len() as int);
    assert forall|t: int| 0 <= t < small_step(w, dt).m.len() implies contained(
        #[trigger] small_step(w, dt).m[t],
        w.width,
        w.height,
    ) && 2 * small_step(w, dt).m[t].r <= w.width && 2 * small_step(w, dt).m[t].r <= w.height by {
        assert(small_step(w, dt).m[t].p == s1[t].p);
        assert(small_step(w, dt).m[t].r == s1[t].r);
    };
}

/// Wall containment: a full step, substepping included, keeps every mobile
/// body's center within `[radius, dimension - radius]` on both axes.
pub proof fn world_step_containment(w: WorldModel, dt: int)
    requires
        dt >= 0,
        snug(w),
    ensures
        snug(world_step(w, dt)),
    decreases dt, 0int,
{
    if dt > SUBSTEP_THRESHOLD as int {
        let sub = dt / (SUBSTEP_FACTOR as int);
        lemma_substeps_containment(w, sub, SUBSTEP_FACTOR as int - 1);
        world_step_containment(
            substeps(w, sub, SUBSTEP_FACTOR as int - 1),
            dt - (SUBSTEP_FACTOR as int - 1) * sub,
        );
    } else {
        lemma_small_step_containment(w, dt);
    }
}

/// Containment over a run of substeps.
pub proof fn lemma_substeps_containment(w: WorldModel, dt: int, n: int)
    requires
        dt >= 0,
        snug(w),
    ensures
        snug(substeps(w, dt, n)),
    decreases dt, n,
{
    if n > 0 {
        lemma_substeps_containment(w, dt, n - 1);
        world_step_containment(substeps(w, dt, n - 1), dt);
    }
}

/// Elastic pair exchange: two equal-radius bodies meeting head-on along the
/// horizontal axis with opposite velocities leave with those velocities
/// exactly swapped.
pub proof fn head_on_swap(a: MarbleModel, b: MarbleModel, s: int)
    requires
        in_range(a),
        in_range(b),
        a.r == b.r,
        a.p.y == b.p.y,
        a.p.x < b.p.x,
        b.p.x - a.p.x <= a.r + b.r,
        a.v == (V2 { x: s, y: 0 }),
        b.v == (V2 { x: -s, y: 0 }),
        s >= 0,
    ensures
        collide(a, b).0.v == (V2 { x: -s, y: 0 }),
        collide(a, b).1.v == (V2 { x: s, y: 0 }),
        collide(a, b).0.p == a.p,
        collide(a, b).1.p == b.p,
{
    let dx = b.p.x - a.p.x;
    let dsq = dx * dx;
    assert(dx * dx > 0 && dx * dx <= (a.r + b.r) * (a.r + b.r)) by (nonlinear_arith)
        requires
            0 < dx <= a.r + b.r,
    ;
    assert(dx * s >= 0) by (nonlinear_arith)
        requires
            dx > 0,
            s >= 0,
    ;
    assert(dx * (-s) == -(dx * s)) by (nonlinear_arith);
    assert(decomp_spec(a, b) is Some);
    let dc = decomp_spec(a, b)->0;
    assert(dc.vd0 == dx * s);
    assert(dc.vd1 == -(dx * s));
    assert(dc.vo0 == 0 && dc.vo1 == 0);
    assert((-(dx * s)) * dx == (-s) * (dx * dx)) by (nonlinear_arith);
    assert((dx * s) * dx == s * (dx * dx)) by (nonlinear_arith);
    lemma_div_trunc_exact(-s, dsq);
    lemma_div_trunc_exact(s, dsq);
    lemma_div_trunc_exact(0, dsq);
}

/// Separating pairs are untouched: when the second body's parallel
/// coefficient already exceeds the first's, the collision check changes
/// nothing.
pub proof fn separating_pair_untouched(a: MarbleModel, b: MarbleModel)
    requires
        decomp_spec(a, b) is Some,
        (decomp_spec(a, b)->0).vd1 > (decomp_spec(a, b)->0).vd0,
    ensures
        collide(a, b).0 == a,
        collide(a, b).1 == b,
{
}

/// Fixed-body bounce: a mobile body moving directly at an immobile body's
/// center (velocity parallel to the center axis and approaching) reverses
/// its whole velocity on contact, exactly; the immobile body is, by
/// construction, never changed.
pub proof fn fixed_body_bounce(a: MarbleModel, f: MarbleModel)
    requires
        in_range(a),
        in_range(f),
        a.v.x * center_axis(a, f).y == a.v.y * center_axis(a, f).x,
        dot2(center_axis(a, f), a.v) > 0,
        dot2(center_axis(a, f), center_axis(a, f)) <= (a.r + f.r) * (a.r + f.r),
        dot2(center_axis(a, f), center_axis(a, f)) != 0,
    ensures
        collide_fixed(a, f).v.x == -a.v.x,
        collide_fixed(a, f).v.y == -a.v.y,
        collide_fixed(a, f).p == a.p,
        collide_fixed(a, f).r == a.r,
{
    let dx = center_axis(a, f).x;
    let dy = center_axis(a, f).y;
    let vx = a.v.x;
    let vy = a.v.y;
    let dsq = dx * dx + dy * dy;
    assert(dx * dx + dy * dy >= 0) by (nonlinear_arith);
    assert(dy * vx + (-dx) * vy == 0) by (nonlinear_arith)
        requires
            vx * dy == vy * dx,
    ;
    assert(decomp_spec(a, f) is Some);
    let dc = decomp_spec(a, f)->0;
    assert(dc.vd0 == dx * vx + dy * vy && dc.vd0 > 0 && dc.vo0 == 0);
    assert((-(dx * vx + dy * vy)) * dx == (-vx) * (dx * dx + dy * dy)) by (nonlinear_arith)
        requires
            vx * dy == vy * dx,
    ;
    assert((-(dx * vx + dy * vy)) * dy == (-vy) * (dx * dx + dy * dy)) by (nonlinear_arith)
        requires
            vx * dy == vy * dx,
    ;
    lemma_div_trunc_exact(-vx, dsq);
    lemma_div_trunc_exact(-vy, dsq);
}

/// No-collision short-circuit: bodies whose center distance exceeds the sum
/// of their radii are unaffected by either collision check.
pub proof fn no_contact_untouched(a: MarbleModel, b: MarbleModel)
    requires
        dot2(center_axis(a, b), center_axis(a, b)) > (a.r + b.r) * (a.r + b.r),
    ensures
        collide(a, b).0 == a,
        collide(a, b).1 == b,
        collide_fixed(a, b) == a,
{
}

/// Substep equivalence: one step of 250 time units is exactly ten successive
/// full steps of 25, by the threshold-and-split rule.
pub proof fn substep_equivalence(w: WorldModel)
    ensures
        world_step(w, 250) == world_step(
            world_step(
                world_step(
                    world_step(
                        world_step(
                            world_step(
                                world_step(
                                    world_step(world_step(world_step(w, 25), 25), 25),
                                    25,
                                ),
                                25,
                            ),
                            25,
                        ),
                        25,
                    ),
                    25,
                ),
                25,
            ),
            25,
        ),
{
    assert(substeps(w, 25, 0) == w);
    assert(substeps(w, 25, 1) == world_step(substeps(w, 25, 0), 25));
    assert(substeps(w, 25, 2) == world_step(substeps(w, 25, 1), 25));
    assert(substeps(w, 25, 3) == world_step(substeps(w, 25, 2), 25));
    assert(substeps(w, 25, 4) == world_step(substeps(w, 25, 3), 25));
    assert(substeps(w, 25, 5) == world_step(substeps(w, 25, 4), 25));
    assert(substeps(w, 25, 6) == world_step(substeps(w, 25, 5), 25));
    assert(substeps(w, 25, 7) == world_step(substeps(w, 25, 6), 25));
    assert(substeps(w, 25, 8) == world_step(substeps(w, 25, 7), 25));
    assert(substeps(w, 25, 9) == world_step(substeps(w, 25, 8), 25));
    assert(world_step(w, 250) == world_step(substeps(w, 25, 9), 25));
}

} // verus!
