//! Change of basis for a colliding pair: each body's velocity is written as
//! a linear combination of the center-to-center vector `d` and the
//! orthogonal vector `o = (d.y, -d.x)`.
//!
//! The coefficients are kept scaled by `|d|^2` so that everything is exact
//! integer arithmetic; a single truncating division happens when a velocity
//! is restored to Cartesian coordinates.

use vstd::prelude::*;

use crate::arith::{div_trunc, div_trunc_i128, lemma_div_trunc_bound, mag};
use crate::marble::{in_range, Marble, MarbleModel, LIMIT};
use crate::vec2::{dot2, Vec2, V2};

verus! {

/// Largest magnitude a scaled coefficient can take: a coefficient is a dot
/// product of a vector bounded by `2 * LIMIT` per component with one bounded
/// by `LIMIT` per component.
pub const PQ_BOUND: i64 = 4_000_000_000_000_000_000;

/// Mathematical model of a decomposition.
pub ghost struct DecompModel {
    pub d: V2,
    pub o: V2,
    pub dsq: int,
    pub vd0: int,
    pub vd1: int,
    pub vo0: int,
    pub vo1: int,
}

/// What every decomposition that the solver builds satisfies; enough to
/// restore velocities without overflow.
pub open spec fn decomp_wf(dc: DecompModel) -> bool {
    &&& dc.o.x == dc.d.y
    &&& dc.o.y == -dc.d.x
    &&& dc.dsq == dot2(dc.d, dc.d)
    &&& 0 < dc.dsq
    &&& mag(dc.d.x) <= 2 * (LIMIT as int)
    &&& mag(dc.d.y) <= 2 * (LIMIT as int)
    &&& mag(dc.vd0) <= PQ_BOUND as int
    &&& mag(dc.vd1) <= PQ_BOUND as int
    &&& mag(dc.vo0) <= PQ_BOUND as int
    &&& mag(dc.vo1) <= PQ_BOUND as int
}

/// The decomposition of a candidate pair, or `None` when there is nothing to
/// resolve: a body outside the representable range, no overlap, or
/// coincident centers (no usable collision axis).
pub open spec fn decomp_spec(a: MarbleModel, b: MarbleModel) -> Option<DecompModel> {
    let d = V2 { x: b.p.x - a.p.x, y: b.p.y - a.p.y };
    let o = V2 { x: d.y, y: -d.x };
    let dsq = dot2(d, d);
    let min_d = a.r + b.r;
    if !in_range(a) || !in_range(b) {
        Option::None
    } else if dsq > min_d * min_d {
        Option::None
    } else if dsq == 0 {
        Option::None
    } else {
        Option::Some(
            DecompModel {
                d,
                o,
                dsq,
                vd0: dot2(d, a.v),
                vd1: dot2(d, b.v),
                vo0: dot2(o, a.v),
                vo1: dot2(o, b.v),
            },
        )
    }
}

/// Cartesian velocity rebuilt from scaled coefficients `pc` (along `d`) and
/// `qc` (along `o`), with one truncating division by `|d|^2`.
pub open spec fn restore_v(dc: DecompModel, pc: int, qc: int) -> V2 {
    V2 {
        x: div_trunc(pc * dc.d.x + qc * dc.o.x, dc.dsq),
        y: div_trunc(pc * dc.d.y + qc * dc.o.y, dc.dsq),
    }
}

/// A dot product of componentwise-bounded vectors is bounded.
pub proof fn lemma_dot_bound(a: V2, b: V2, ka: int, kb: int)
    requires
        0 <= ka,
        0 <= kb,
        mag(a.x) <= ka,
        mag(a.y) <= ka,
        mag(b.x) <= kb,
        mag(b.y) <= kb,
    ensures
        mag(dot2(a, b)) <= 2 * (ka * kb),
{
    assert(a.x * b.x <= ka * kb && -(ka * kb) <= a.x * b.x) by (nonlinear_arith)
        requires
            -ka <= a.x <= ka,
            -kb <= b.x <= kb,
            0 <= ka,
            0 <= kb,
    ;
    assert(a.y * b.y <= ka * kb && -(ka * kb) <= a.y * b.y) by (nonlinear_arith)
        requires
            -ka <= a.y <= ka,
            -kb <= b.y <= kb,
            0 <= ka,
            0 <= kb,
    ;
}

/// One restored component stays below `2 * PQ_BOUND` in magnitude, because
/// each of `|dx|` and `|ox|` is at most `dsq`.
pub proof fn lemma_restore_bound(pc: int, qc: int, dx: int, ox: int, dsq: int)
    requires
        0 < dsq,
        dx * dx <= dsq,
        ox * ox <= dsq,
        mag(pc) <= PQ_BOUND as int,
        mag(qc) <= PQ_BOUND as int,
    ensures
        mag(pc * dx) <= (PQ_BOUND as int) * dsq,
        mag(qc * ox) <= (PQ_BOUND as int) * dsq,
        mag(div_trunc(pc * dx + qc * ox, dsq)) <= 2 * (PQ_BOUND as int),
{
    assert(dx <= dx * dx && -dx <= dx * dx) by (nonlinear_arith);
    assert(ox <= ox * ox && -ox <= ox * ox) by (nonlinear_arith);
    let pq = PQ_BOUND as int;
    assert(pc * dx <= pq * dsq && -(pq * dsq) <= pc * dx) by (nonlinear_arith)
        requires
            -pq <= pc <= pq,
            -dsq <= dx <= dsq,
            0 <= pq,
            0 < dsq,
    ;
    assert(qc * ox <= pq * dsq && -(pq * dsq) <= qc * ox) by (nonlinear_arith)
        requires
            -pq <= qc <= pq,
            -dsq <= ox <= dsq,
            0 <= pq,
            0 < dsq,
    ;
    assert((2 * pq) * dsq == pq * dsq + pq * dsq) by (nonlinear_arith);
    lemma_div_trunc_bound(pc * dx + qc * ox, dsq, 2 * pq);
}

/// The component squares of the axis vector never exceed `dsq`.
pub proof fn lemma_axis_squares(dc: DecompModel)
    requires
        decomp_wf(dc),
    ensures
        dc.d.x * dc.d.x <= dc.dsq,
        dc.d.y * dc.d.y <= dc.dsq,
        dc.o.x * dc.o.x <= dc.dsq,
        dc.o.y * dc.o.y <= dc.dsq,
{
    assert(dc.d.x * dc.d.x >= 0 && dc.d.y * dc.d.y >= 0 && dc.o.y * dc.o.y == dc.d.x * dc.d.x)
        by (nonlinear_arith)
        requires
            dc.o.y == -dc.d.x,
    ;
}

/// A restored velocity is bounded in both components.
pub proof fn lemma_restore_v_bound(dc: DecompModel, pc: int, qc: int)
    requires
        decomp_wf(dc),
        mag(pc) <= PQ_BOUND as int,
        mag(qc) <= PQ_BOUND as int,
    ensures
        mag(restore_v(dc, pc, qc).x) <= 2 * (PQ_BOUND as int),
        mag(restore_v(dc, pc, qc).y) <= 2 * (PQ_BOUND as int),
{
    lemma_axis_squares(dc);
    lemma_restore_bound(pc, qc, dc.d.x, dc.o.x, dc.dsq);
    lemma_restore_bound(pc, qc, dc.d.y, dc.o.y, dc.dsq);
}

/// A decomposition the spec builds is well formed.
pub proof fn lemma_decomp_spec_wf(a: MarbleModel, b: MarbleModel)
    requires
        decomp_spec(a, b) is Some,
    ensures
        decomp_wf(decomp_spec(a, b)->0),
{
    let d = V2 { x: b.p.x - a.p.x, y: b.p.y - a.p.y };
    let o = V2 { x: d.y, y: -d.x };
    assert(d.x * d.x >= 0 && d.y * d.y >= 0) by (nonlinear_arith);
    lemma_dot_bound(d, a.v, 2 * (LIMIT as int), LIMIT as int);
    lemma_dot_bound(d, b.v, 2 * (LIMIT as int), LIMIT as int);
    lemma_dot_bound(o, a.v, 2 * (LIMIT as int), LIMIT as int);
    lemma_dot_bound(o, b.v, 2 * (LIMIT as int), LIMIT as int);
}

/// The working state of one collision check: the axis pair and each body's
/// scaled coefficients along it.
pub struct Decomposition {
    pub d: Vec2,
    pub o: Vec2,
    pub dsq: i64,
    pub v_d: (i64, i64),
    pub v_o: (i64, i64),
}

impl View for Decomposition {
    type V = DecompModel;

    open spec fn view(&self) -> DecompModel {
        DecompModel {
            d: self.d@,
            o: self.o@,
            dsq: self.dsq as int,
            vd0: self.v_d.0 as int,
            vd1: self.v_d.1 as int,
            vo0: self.v_o.0 as int,
            vo1: self.v_o.1 as int,
        }
    }
}

/// Whether both components of a marble lie in the representable window.
fn marble_in_range(m: &Marble) -> (b: bool)
    ensures
        b == in_range(m@),
{
    0 < m.r && m.r <= LIMIT && -LIMIT <= m.p.x && m.p.x <= LIMIT && -LIMIT <= m.p.y && m.p.y
        <= LIMIT && -LIMIT <= m.v.x && m.v.x <= LIMIT && -LIMIT <= m.v.y && m.v.y <= LIMIT
}

impl Decomposition {
    /// Returns `None` when the marbles did not actually collide (distance
    /// too large), when their centers coincide, or when a body is outside
    /// the representable window.
    pub fn new(x: &Marble, y: &Marble) -> (res: Option<Decomposition>)
        ensures
            (match res {
                Option::None => decomp_spec(x@, y@) is None,
                Option::Some(dc) => decomp_spec(x@, y@) == Option::Some(dc@) && decomp_wf(dc@),
            }),
    {
        if !marble_in_range(x) || !marble_in_range(y) {
            return Option::None;
        }
        let d = Vec2 { x: y.p.x - x.p.x, y: y.p.y - x.p.y };
        let o = Vec2 { x: d.y, y: -d.x };
        proof {
            lemma_dot_bound(d@, d@, 2 * (LIMIT as int), 2 * (LIMIT as int));
            lemma_dot_bound(d@, x.v@, 2 * (LIMIT as int), LIMIT as int);
            lemma_dot_bound(d@, y.v@, 2 * (LIMIT as int), LIMIT as int);
            lemma_dot_bound(o@, x.v@, 2 * (LIMIT as int), LIMIT as int);
            lemma_dot_bound(o@, y.v@, 2 * (LIMIT as int), LIMIT as int);
        }
        let dsq = d.dot(d);
        let min_d = x.r + y.r;
        proof {
            assert(min_d * min_d <= 4_000_000_000_000_000_000) by (nonlinear_arith)
                requires
                    0 < min_d <= 2_000_000_000,
            ;
            assert(min_d * min_d > 0) by (nonlinear_arith)
                requires
                    0 < min_d,
            ;
        }
        let minsq = min_d * min_d;
        if dsq > minsq {
            return Option::None;
        }
        if dsq == 0 {
            return Option::None;
        }
        let res = Decomposition {
            d,
            o,
            dsq,
            v_d: (d.dot(x.v), d.dot(y.v)),
            v_o: (o.dot(x.v), o.dot(y.v)),
        };
        proof {
            assert(d@.x * d@.x >= 0 && d@.y * d@.y >= 0) by (nonlinear_arith);
        }
        Option::Some(res)
    }

    /// Recompute the velocity of body `idx` in Cartesian coordinates.
    pub fn restore(&self, idx: usize) -> (w: Vec2)
        requires
            decomp_wf(self@),
            idx < 2,
        ensures
            idx == 0 ==> w@ == restore_v(self@, self@.vd0, self@.vo0),
            idx == 1 ==> w@ == restore_v(self@, self@.vd1, self@.vo1),
    {
        let (pc, qc) = if idx == 0 {
            (self.v_d.0, self.v_o.0)
        } else {
            (self.v_d.1, self.v_o.1)
        };
        proof {
            lemma_axis_squares(self@);
            lemma_restore_bound(pc as int, qc as int, self@.d.x, self@.o.x, self@.dsq);
            lemma_restore_bound(pc as int, qc as int, self@.d.y, self@.o.y, self@.dsq);
            assert((PQ_BOUND as int) * self@.dsq <= 0x2000_0000_0000_0000_0000_0000_0000_0000)
                by (nonlinear_arith)
                requires
                    0 < self@.dsq <= 0x7fff_ffff_ffff_ffff,
                    PQ_BOUND as int == 4_000_000_000_000_000_000,
            ;
        }
        let nx = (pc as i128) * (self.d.x as i128) + (qc as i128) * (self.o.x as i128);
        let ny = (pc as i128) * (self.d.y as i128) + (qc as i128) * (self.o.y as i128);
        let wx = div_trunc_i128(nx, self.dsq as i128);
        let wy = div_trunc_i128(ny, self.dsq as i128);
        Vec2 { x: wx as i64, y: wy as i64 }
    }
}

} // verus!
