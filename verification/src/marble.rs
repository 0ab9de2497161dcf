//! A single circular body and its three operations: wall-bounce integration,
//! elastic collision with another mobile body, and elastic collision with an
//! immobile body.

use vstd::prelude::*;

use crate::arith::mag;
use crate::decomp::{
    decomp_spec, lemma_decomp_spec_wf, lemma_restore_v_bound, restore_v, Decomposition, PQ_BOUND,
};
use crate::rng::rand_range;
use crate::vec2::{Vec2, V2};

verus! {

/// Largest magnitude of a coordinate (position, velocity or radius, in
/// subunits) for which a pair is considered for collision resolution.
pub const LIMIT: i64 = 1_000_000_000;

/// Margin, in subunits, kept from the walls when a body is placed at random.
pub const MARGIN: i64 = 10_000;

/// Initial velocities are drawn from `[-VEL_INIT, VEL_INIT)` subunits per
/// time unit.
pub const VEL_INIT: i64 = 250;

/// A circular body: radius, center position and velocity, all in subunits.
#[derive(Clone, Copy, Debug, PartialEq, Eq, Structural)]
pub struct Marble {
    pub r: i64,
    pub p: Vec2,
    pub v: Vec2,
}

/// The mathematical model of a body.
pub ghost struct MarbleModel {
    pub r: int,
    pub p: V2,
    pub v: V2,
}

impl View for Marble {
    type V = MarbleModel;

    open spec fn view(&self) -> MarbleModel {
        MarbleModel { r: self.r as int, p: self.p@, v: self.v@ }
    }
}

/// Whether all of a body's coordinates lie in the representable window.
pub open spec fn in_range(m: MarbleModel) -> bool {
    &&& 0 < m.r <= LIMIT
    &&& mag(m.p.x) <= LIMIT
    &&& mag(m.p.y) <= LIMIT
    &&& mag(m.v.x) <= LIMIT
    &&& mag(m.v.y) <= LIMIT
}

/// One axis of the wall bounce: integrate, then reflect at the far wall if
/// moving outward, then reflect at the near wall if moving outward there.
pub open spec fn step_axis(p: int, v: int, r: int, dim: int, dt: int) -> (int, int) {
    let p1 = p + v * dt;
    let q = if p1 > dim - r && v > 0 {
        (dim - r, -v)
    } else {
        (p1, v)
    };
    if q.0 < r && q.1 < 0 {
        (r, -q.1)
    } else {
        q
    }
}

/// Wall-bounce integration of a body over `dt`, both axes independently.
pub open spec fn wall_step(m: MarbleModel, dt: int, width: int, height: int) -> MarbleModel {
    MarbleModel {
        r: m.r,
        p: V2 {
            x: step_axis(m.p.x, m.v.x, m.r, width, dt).0,
            y: step_axis(m.p.y, m.v.y, m.r, height, dt).0,
        },
        v: V2 {
            x: step_axis(m.p.x, m.v.x, m.r, width, dt).1,
            y: step_axis(m.p.y, m.v.y, m.r, height, dt).1,
        },
    }
}

/// Elastic, equal-mass collision of two mobile bodies: when they are in
/// contact and not already separating, the coefficients along the center
/// axis are exchanged and both orthogonal coefficients are kept.
pub open spec fn collide(a: MarbleModel, b: MarbleModel) -> (MarbleModel, MarbleModel) {
    match decomp_spec(a, b) {
        Option::None => (a, b),
        Option::Some(dc) => if dc.vd1 > dc.vd0 {
            (a, b)
        } else {
            (
                MarbleModel { v: restore_v(dc, dc.vd1, dc.vo0), ..a },
                MarbleModel { v: restore_v(dc, dc.vd0, dc.vo1), ..b },
            )
        },
    }
}

/// Collision of a mobile body with an immobile one: when in contact and
/// approaching, the coefficient along the center axis flips sign; the
/// immobile body is never changed.
pub open spec fn collide_fixed(a: MarbleModel, f: MarbleModel) -> MarbleModel {
    match decomp_spec(a, f) {
        Option::None => a,
        Option::Some(dc) => if dc.vd0 > 0 {
            MarbleModel { v: restore_v(dc, -dc.vd0, dc.vo0), ..a }
        } else {
            a
        },
    }
}

/// A collision never moves a body and never leaves a velocity component at
/// the very bottom of the `i64` range.
pub proof fn lemma_collide_frame(a: MarbleModel, b: MarbleModel)
    ensures
        collide(a, b).0.r == a.r,
        collide(a, b).0.p == a.p,
        collide(a, b).1.r == b.r,
        collide(a, b).1.p == b.p,
        collide(a, b).0.v == a.v || (mag(collide(a, b).0.v.x) <= 2 * (PQ_BOUND as int) && mag(
            collide(a, b).0.v.y,
        ) <= 2 * (PQ_BOUND as int)),
        collide(a, b).1.v == b.v || (mag(collide(a, b).1.v.x) <= 2 * (PQ_BOUND as int) && mag(
            collide(a, b).1.v.y,
        ) <= 2 * (PQ_BOUND as int)),
{
    if decomp_spec(a, b) is Some {
        let dc = decomp_spec(a, b)->0;
        lemma_decomp_spec_wf(a, b);
        lemma_restore_v_bound(dc, dc.vd1, dc.vo0);
        lemma_restore_v_bound(dc, dc.vd0, dc.vo1);
    }
}

/// The fixed-body variant of the frame lemma.
pub proof fn lemma_collide_fixed_frame(a: MarbleModel, f: MarbleModel)
    ensures
        collide_fixed(a, f).r == a.r,
        collide_fixed(a, f).p == a.p,
        collide_fixed(a, f).v == a.v || (mag(collide_fixed(a, f).v.x) <= 2 * (PQ_BOUND as int)
            && mag(collide_fixed(a, f).v.y) <= 2 * (PQ_BOUND as int)),
{
    if decomp_spec(a, f) is Some {
        let dc = decomp_spec(a, f)->0;
        lemma_decomp_spec_wf(a, f);
        lemma_restore_v_bound(dc, -dc.vd0, dc.vo0);
    }
}

/// One axis of the wall bounce, on machine integers.
fn step_axis_exec(p: i64, v: i64, r: i64, dim: i64, dt: u64) -> (res: (i64, i64))
    requires
        r >= 0,
        dim >= 0,
        v > i64::MIN,
    ensures
        res.0 as int == step_axis(p as int, v as int, r as int, dim as int, dt as int).0,
        res.1 as int == step_axis(p as int, v as int, r as int, dim as int, dt as int).1,
{
    proof {
        assert((v as int) * (dt as int) <= 0x7fff_ffff_ffff_ffff_8000_0000_0000_0000 && -0x7fff_ffff_ffff_ffff_8000_0000_0000_0000
            <= (v as int) * (dt as int)) by (nonlinear_arith)
            requires
                -0x7fff_ffff_ffff_ffff <= v as int <= 0x7fff_ffff_ffff_ffff,
                0 <= dt as int <= 0xffff_ffff_ffff_ffff,
        ;
        assert(v > 0 ==> (v as int) * (dt as int) >= 0) by (nonlinear_arith)
            requires
                0 <= dt as int,
        ;
        assert(v < 0 ==> (v as int) * (dt as int) <= 0) by (nonlinear_arith)
            requires
                0 <= dt as int,
        ;
        assert(v == 0 ==> (v as int) * (dt as int) == 0) by (nonlinear_arith);
    }
    let p1: i128 = (p as i128) + (v as i128) * (dt as i128);
    let lim: i128 = (dim as i128) - (r as i128);
    let (p2, v2): (i128, i64) = if p1 > lim && v > 0 {
        (lim, -v)
    } else {
        (p1, v)
    };
    let (p3, v3): (i128, i64) = if p2 < (r as i128) && v2 < 0 {
        (r as i128, -v2)
    } else {
        (p2, v2)
    };
    (p3 as i64, v3)
}

impl Marble {
    /// A body with the given radius, placed uniformly at random inside the
    /// arena with a fixed margin from the walls, with a small uniformly
    /// random initial velocity.
    pub fn new(radius: i64, width: i64, height: i64) -> (m: Marble)
        requires
            0 < radius,
            2 * MARGIN < width,
            2 * MARGIN < height,
        ensures
            m@.r == radius,
            MARGIN <= m@.p.x < width - MARGIN,
            MARGIN <= m@.p.y < height - MARGIN,
            -VEL_INIT <= m@.v.x < VEL_INIT,
            -VEL_INIT <= m@.v.y < VEL_INIT,
    {
        Marble {
            r: radius,
            p: Vec2 { x: rand_range(MARGIN, width - MARGIN), y: rand_range(MARGIN, height - MARGIN) },
            v: Vec2 { x: rand_range(-VEL_INIT, VEL_INIT), y: rand_range(-VEL_INIT, VEL_INIT) },
        }
    }

    /// Move the body by `diff` time units, bouncing off the walls of a
    /// `width` by `height` arena.
    pub fn step(&mut self, diff: u64, width: i64, height: i64)
        requires
            old(self)@.r >= 0,
            width >= 0,
            height >= 0,
            old(self)@.v.x > i64::MIN,
            old(self)@.v.y > i64::MIN,
        ensures
            final(self)@ == wall_step(old(self)@, diff as int, width as int, height as int),
    {
        let (px, vx) = step_axis_exec(self.p.x, self.v.x, self.r, width, diff);
        let (py, vy) = step_axis_exec(self.p.y, self.v.y, self.r, height, diff);
        self.p = Vec2 { x: px, y: py };
        self.v = Vec2 { x: vx, y: vy };
    }

    /// Check collision with another mobile body, exchanging the velocity
    /// coefficients along the center axis if the two are in contact and not
    /// separating.
    pub fn check_collision(&mut self, othr: &mut Marble)
        ensures
            final(self)@ == collide(old(self)@, old(othr)@).0,
            final(othr)@ == collide(old(self)@, old(othr)@).1,
    {
        let mut dec = match Decomposition::new(self, othr) {
            Option::None => { return; },
            Option::Some(d) => d,
        };
        if dec.v_d.1 > dec.v_d.0 {
            return;
        }
        dec.v_d = (dec.v_d.1, dec.v_d.0);
        self.v = dec.restore(0);
        othr.v = dec.restore(1);
    }

    /// Same, but against an immobile body, which is never changed.
    pub fn check_collision_fixed(&mut self, othr: &Marble)
        ensures
            final(self)@ == collide_fixed(old(self)@, othr@),
    {
        let mut dec = match Decomposition::new(self, othr) {
            Option::None => { return; },
            Option::Some(d) => d,
        };
        if dec.v_d.0 > 0 {
            dec.v_d = (-dec.v_d.0, dec.v_d.1);
            self.v = dec.restore(0);
        }
    }
}

} // verus!
