//! The arena: the full set of mobile bodies, the set of immobile ones, and
//! one simulation step over them, with substepping for large time deltas.

use vstd::prelude::*;

use crate::arith::{div_trunc, div_trunc_i128, lemma_div_trunc_bound};
use crate::marble::{
    collide, collide_fixed, lemma_collide_fixed_frame, lemma_collide_frame, wall_step, Marble,
    MarbleModel, MARGIN, VEL_INIT,
};

verus! {

/// Subunits per pixel: the resolution of the fixed-point coordinates.
pub const SCALE: i64 = 1_000;

/// Largest arena dimension, in pixels, that keeps every wall coordinate
/// inside the representable window.
pub const MAX_DIM: i64 = 1_000_000;

/// A step larger than this many time units is subdivided.
pub const SUBSTEP_THRESHOLD: u64 = 100;

/// How many substeps a large step is split into; the last substep also
/// carries the remainder of the division.
pub const SUBSTEP_FACTOR: u64 = 10;

/// How many mobile bodies a new arena is populated with.
pub const N_MOBILE: usize = 25;

/// How many immobile bodies a new arena is populated with.
pub const N_FIXED: usize = 5;

/// Radius of a mobile body, in subunits.
pub const MOBILE_RADIUS: i64 = 10_000;

/// Radius of an immobile body, in subunits.
pub const FIXED_RADIUS: i64 = 50_000;

/// The mathematical model of the arena.
pub ghost struct WorldModel {
    pub width: int,
    pub height: int,
    pub m: Seq<MarbleModel>,
    pub fixed: Seq<MarbleModel>,
}

/// An RGB color handed to the reporting interface.
#[derive(Clone, Copy, Debug, PartialEq, Eq, Structural)]
pub struct Color {
    pub red: u8,
    pub green: u8,
    pub blue: u8,
}

/// What is reported for one body: pixel coordinates, pixel radius, color.
#[derive(Clone, Copy, Debug, PartialEq, Eq, Structural)]
pub struct Report {
    pub x: i64,
    pub y: i64,
    pub radius: i64,
    pub color: Color,
}

/// The mathematical model of one report entry.
pub ghost struct ReportModel {
    pub x: int,
    pub y: int,
    pub radius: int,
    pub color: Color,
}

impl View for Report {
    type V = ReportModel;

    open spec fn view(&self) -> ReportModel {
        ReportModel {
            x: self.x as int,
            y: self.y as int,
            radius: self.radius as int,
            color: self.color,
        }
    }
}

/// The color mobile bodies are reported with.
pub open spec fn mobile_color() -> Color {
    Color { red: 200, green: 0, blue: 0 }
}

/// The color immobile bodies are reported with.
pub open spec fn fixed_color() -> Color {
    Color { red: 0, green: 0, blue: 0 }
}

/// What one body reports: its center and radius in pixels, and its color.
pub open spec fn report_of(m: MarbleModel, c: Color) -> ReportModel {
    ReportModel {
        x: div_trunc(m.p.x, SCALE as int),
        y: div_trunc(m.p.y, SCALE as int),
        radius: div_trunc(m.r, SCALE as int),
        color: c,
    }
}

/// The interface through which the arena reports each body for one frame;
/// the embedding application implements it.
pub trait Reporter {
    /// Report one body; an error aborts the frame and is handed back to the
    /// caller of `draw`.
    fn report(&mut self, x: i64, y: i64, radius: i64, color: Color) -> Result<(), String>;
}

/// A body after bouncing off the first `k` immobile bodies in order.
pub open spec fn fixed_fold(m: MarbleModel, fx: Seq<MarbleModel>, k: int) -> MarbleModel
    decreases k,
{
    if k <= 0 {
        m
    } else {
        collide_fixed(fixed_fold(m, fx, k - 1), fx[k - 1])
    }
}

/// Phase one of a step: every mobile body integrates with wall bounce, then
/// bounces off every immobile body in order.
pub open spec fn phase1(
    ms: Seq<MarbleModel>,
    fx: Seq<MarbleModel>,
    dt: int,
    width: int,
    height: int,
) -> Seq<MarbleModel> {
    Seq::new(ms.len(), |i: int| fixed_fold(wall_step(ms[i], dt, width, height), fx, fx.len() as int))
}

/// Resolve the pair `(j, i)` in place.
pub open spec fn apply_pair(s: Seq<MarbleModel>, i: int, j: int) -> Seq<MarbleModel> {
    let c = collide(s[j], s[i]);
    s.update(j, c.0).update(i, c.1)
}

/// Resolve the pairs `(0, i)` through `(j - 1, i)` in order.
pub open spec fn pairs_inner(s: Seq<MarbleModel>, i: int, j: int) -> Seq<MarbleModel>
    decreases j,
{
    if j <= 0 {
        s
    } else {
        apply_pair(pairs_inner(s, i, j - 1), i, j - 1)
    }
}

/// Resolve every unordered pair among the first `i` bodies, each visited
/// exactly once, in ascending-index order.
pub open spec fn pairs_outer(s: Seq<MarbleModel>, i: int) -> Seq<MarbleModel>
    decreases i,
{
    if i <= 0 {
        s
    } else {
        pairs_inner(pairs_outer(s, i - 1), i - 1, i - 1)
    }
}

/// Phase two of a step: resolve every unordered pair of mobile bodies.
pub open spec fn phase2(s: Seq<MarbleModel>) -> Seq<MarbleModel> {
    pairs_outer(s, s.len() as int)
}

/// One undivided simulation step.
pub open spec fn small_step(w: WorldModel, dt: int) -> WorldModel {
    WorldModel { m: phase2(phase1(w.m, w.fixed, dt, w.width, w.height)), ..w }
}

/// A full simulation step: a delta above the threshold is recursively split
/// into `SUBSTEP_FACTOR` substeps of `dt / SUBSTEP_FACTOR` each, the last of
/// which also carries the division remainder, so no time is dropped.
pub open spec fn world_step(w: WorldModel, dt: int) -> WorldModel
    decreases dt, 0int,
    via world_step_decreases
{
    if dt > SUBSTEP_THRESHOLD as int {
        world_step(
            substeps(w, dt / (SUBSTEP_FACTOR as int), SUBSTEP_FACTOR as int - 1),
            dt - (SUBSTEP_FACTOR as int - 1) * (dt / (SUBSTEP_FACTOR as int)),
        )
    } else {
        small_step(w, dt)
    }
}

#[via_fn]
proof fn world_step_decreases(w: WorldModel, dt: int) {
    if dt > SUBSTEP_THRESHOLD as int {
        vstd::arithmetic::div_mod::lemma_fundamental_div_mod(dt, SUBSTEP_FACTOR as int);
        vstd::arithmetic::div_mod::lemma_mod_division_less_than_divisor(dt, SUBSTEP_FACTOR as int);
    }
}

/// `n` successive full steps of `dt` each.
pub open spec fn substeps(w: WorldModel, dt: int, n: int) -> WorldModel
    decreases dt, n,
{
    if n <= 0 || dt < 0 {
        w
    } else {
        world_step(substeps(w, dt, n - 1), dt)
    }
}

/// A body freshly placed by the arena constructor.
pub open spec fn placed(m: MarbleModel, radius: int, width: int, height: int) -> bool {
    &&& m.r == radius
    &&& MARGIN <= m.p.x < width - MARGIN
    &&& MARGIN <= m.p.y < height - MARGIN
    &&& -VEL_INIT <= m.v.x < VEL_INIT
    &&& -VEL_INIT <= m.v.y < VEL_INIT
}

/// The arena's invariant: positive dimensions, positive radii, and no
/// velocity component at the very bottom of the `i64` range (its reflection
/// must be representable).
pub open spec fn wf_model(w: WorldModel) -> bool {
    &&& 0 < w.width
    &&& 0 < w.height
    &&& forall|i: int|
        0 <= i < w.m.len() ==> 0 < (#[trigger] w.m[i]).r && w.m[i].v.x > i64::MIN && w.m[i].v.y
            > i64::MIN
}

/// The arena.
pub struct World {
    pub width: i64,
    pub height: i64,
    pub m: Vec<Marble>,
    pub fixed: Vec<Marble>,
}

impl View for World {
    type V = WorldModel;

    open spec fn view(&self) -> WorldModel {
        WorldModel {
            width: self.width as int,
            height: self.height as int,
            m: self.m@.map_values(|mm: Marble| mm@),
            fixed: self.fixed@.map_values(|mm: Marble| mm@),
        }
    }
}

/// Truncating conversion from subunits to pixels.
fn to_px(a: i64) -> (r: i64)
    ensures
        r as int == div_trunc(a as int, SCALE as int),
{
    proof {
        lemma_div_trunc_bound(a as int, SCALE as int, 9_223_372_036_854_776);
    }
    div_trunc_i128(a as i128, SCALE as i128) as i64
}

impl World {
    /// The arena's invariant.
    pub open spec fn wf(self) -> bool {
        wf_model(self@)
    }

    /// A new arena of `width` by `height` pixels, populated with
    /// `N_MOBILE` small mobile bodies and `N_FIXED` large immobile ones,
    /// placed uniformly at random.
    pub fn new(width: i64, height: i64) -> (w: World)
        requires
            20 < width <= MAX_DIM,
            20 < height <= MAX_DIM,
        ensures
            w@.width == width * SCALE,
            w@.height == height * SCALE,
            w@.m.len() == N_MOBILE,
            w@.fixed.len() == N_FIXED,
            forall|i: int|
                0 <= i < N_MOBILE ==> placed(
                    #[trigger] w@.m[i],
                    MOBILE_RADIUS as int,
                    width * SCALE,
                    height * SCALE,
                ),
            forall|i: int|
                0 <= i < N_FIXED ==> placed(
                    #[trigger] w@.fixed[i],
                    FIXED_RADIUS as int,
                    width * SCALE,
                    height * SCALE,
                ),
            w.wf(),
    {
        let ws = width * SCALE;
        let hs = height * SCALE;
        let mut m: Vec<Marble> = Vec::new();
        let mut i: usize = 0;
        while i < N_MOBILE
            invariant
                i <= N_MOBILE,
                m@.len() == i,
                20 < width <= MAX_DIM,
                20 < height <= MAX_DIM,
                ws == width * SCALE,
                hs == height * SCALE,
                forall|t: int|
                    0 <= t < i ==> placed(
                        (#[trigger] m@[t])@,
                        MOBILE_RADIUS as int,
                        ws as int,
                        hs as int,
                    ),
            decreases N_MOBILE - i,
        {
            m.push(Marble::new(MOBILE_RADIUS, ws, hs));
            i += 1;
        }
        let mut fixed: Vec<Marble> = Vec::new();
        let mut j: usize = 0;
        while j < N_FIXED
            invariant
                j <= N_FIXED,
                fixed@.len() == j,
                20 < width <= MAX_DIM,
                20 < height <= MAX_DIM,
                ws == width * SCALE,
                hs == height * SCALE,
                forall|t: int|
                    0 <= t < j ==> placed(
                        (#[trigger] fixed@[t])@,
                        FIXED_RADIUS as int,
                        ws as int,
                        hs as int,
                    ),
            decreases N_FIXED - j,
        {
            fixed.push(Marble::new(FIXED_RADIUS, ws, hs));
            j += 1;
        }
        World { width: ws, height: hs, m, fixed }
    }

    /// An arena assembled from explicit parts.
    pub fn from_parts(width: i64, height: i64, m: Vec<Marble>, fixed: Vec<Marble>) -> (w: World)
        requires
            0 < width,
            0 < height,
            forall|i: int|
                0 <= i < m@.len() ==> 0 < (#[trigger] m@[i])@.r && m@[i]@.v.x > i64::MIN
                    && m@[i]@.v.y > i64::MIN,
        ensures
            w@.width == width as int,
            w@.height == height as int,
            w@.m == m@.map_values(|mm: Marble| mm@),
            w@.fixed == fixed@.map_values(|mm: Marble| mm@),
            w.wf(),
    {
        World { width, height, m, fixed }
    }

    /// Update the arena bounds; bodies are not repositioned (one outside the
    /// new bounds is only corrected by its next wall-bounce check).
    pub fn resize(&mut self, width: i64, height: i64)
        requires
            0 < width <= MAX_DIM,
            0 < height <= MAX_DIM,
        ensures
            (final(self)@ == WorldModel {
                width: width * SCALE,
                height: height * SCALE,
                ..old(self)@
            }),
            old(self).wf() ==> final(self).wf(),
    {
        self.width = width * SCALE;
        self.height = height * SCALE;
    }

    /// One undivided step: integrate and bounce every mobile body, then
    /// resolve every unordered pair.
    fn step_small(&mut self, dt: u64)
        requires
            old(self).wf(),
        ensures
            final(self)@ == small_step(old(self)@, dt as int),
            final(self).wf(),
    {
        let ghost w0 = self@;
        let mut i: usize = 0;
        while i < self.m.len()
            invariant
                self.wf(),
                self@.width == w0.width,
                self@.height == w0.height,
                self@.fixed == w0.fixed,
                self@.m.len() == w0.m.len(),
                i <= w0.m.len(),
                forall|t: int|
                    0 <= t < i ==> (#[trigger] self@.m[t]) == phase1(
                        w0.m,
                        w0.fixed,
                        dt as int,
                        w0.width,
                        w0.height,
                    )[t],
                forall|t: int| i <= t < w0.m.len() ==> (#[trigger] self@.m[t]) == w0.m[t],
            decreases w0.m.len() - i,
        {
            let mut mb = self.m[i];
            proof {
                assert(mb@ == self@.m[i as int]);
                assert(self@.m[i as int] == w0.m[i as int]);
            }
            mb.step(dt, self.width, self.height);
            let ghost mstart = wall_step(w0.m[i as int], dt as int, w0.width, w0.height);
            proof {
                assert(mb@ == mstart);
            }
            let mut j: usize = 0;
            while j < self.fixed.len()
                invariant
                    self@.fixed == w0.fixed,
                    j <= w0.fixed.len(),
                    self@.fixed.len() == w0.fixed.len(),
                    mb@ == fixed_fold(mstart, w0.fixed, j as int),
                    mb@.r == mstart.r,
                    mb@.v.x > i64::MIN,
                    mb@.v.y > i64::MIN,
                decreases w0.fixed.len() - j,
            {
                proof {
                    lemma_collide_fixed_frame(mb@, self@.fixed[j as int]);
                }
                mb.check_collision_fixed(&self.fixed[j]);
                j += 1;
            }
            let ghost pre_m = self@.m;
            self.m[i] = mb;
            proof {
                assert(self@.m =~= pre_m.update(i as int, mb@));
                assert(phase1(w0.m, w0.fixed, dt as int, w0.width, w0.height)[i as int] == mb@);
            }
            i += 1;
        }
        let ghost s1 = phase1(w0.m, w0.fixed, dt as int, w0.width, w0.height);
        proof {
            assert(self@.m =~= s1);
        }
        let mut i: usize = 0;
        while i < self.m.len()
            invariant
                self.wf(),
                self@.width == w0.width,
                self@.height == w0.height,
                self@.fixed == w0.fixed,
                self@.m.len() == s1.len(),
                i <= s1.len(),
                self@.m == pairs_outer(s1, i as int),
            decreases s1.len() - i,
        {
            let mut j: usize = 0;
            while j < i
                invariant
                    self.wf(),
                    self@.width == w0.width,
                    self@.height == w0.height,
                    self@.fixed == w0.fixed,
                    self@.m.len() == s1.len(),
                    j <= i < s1.len(),
                    self@.m == pairs_inner(pairs_outer(s1, i as int), i as int, j as int),
                decreases i - j,
            {
                let ghost s_prev = pairs_inner(pairs_outer(s1, i as int), i as int, j as int);
                let mut a = self.m[j];
                let mut b = self.m[i];
                proof {
                    lemma_collide_frame(a@, b@);
                }
                a.check_collision(&mut b);
                self.m[j] = a;
                self.m[i] = b;
                j += 1;
                proof {
                    assert(self@.m =~= apply_pair(s_prev, i as int, (j - 1) as int));
                }
            }
            i += 1;
        }
        proof {
            assert(self@.m =~= phase2(s1));
            assert(self@ == small_step(w0, dt as int));
        }
    }

    /// The recursive worker: a delta above the threshold is split into
    /// `SUBSTEP_FACTOR` substeps of `dt / SUBSTEP_FACTOR`, the last also
    /// carrying the division remainder, each taken recursively.
    fn step_eps(&mut self, dt: u64)
        requires
            old(self).wf(),
        ensures
            final(self)@ == world_step(old(self)@, dt as int),
            final(self).wf(),
        decreases dt,
    {
        if dt > SUBSTEP_THRESHOLD {
            let sub = dt / SUBSTEP_FACTOR;
            proof {
                vstd::arithmetic::div_mod::lemma_fundamental_div_mod(dt as int, 10);
                vstd::arithmetic::div_mod::lemma_mod_division_less_than_divisor(dt as int, 10);
                assert(sub as int == dt as int / 10);
                assert((SUBSTEP_FACTOR - 1) as int * (sub as int) == 9 * (sub as int));
            }
            let head = dt - (SUBSTEP_FACTOR - 1) * sub;
            let ghost w0 = self@;
            let mut k: usize = 0;
            while k < 9
                invariant
                    dt > SUBSTEP_THRESHOLD,
                    sub == dt / SUBSTEP_FACTOR,
                    k <= 9,
                    self.wf(),
                    self@ == substeps(w0, sub as int, k as int),
                decreases 9 - k,
            {
                self.step_eps(sub);
                k += 1;
            }
            proof {
                vstd::arithmetic::div_mod::lemma_fundamental_div_mod(
                    dt as int,
                    SUBSTEP_FACTOR as int,
                );
                vstd::arithmetic::div_mod::lemma_mod_division_less_than_divisor(
                    dt as int,
                    SUBSTEP_FACTOR as int,
                );
            }
            self.step_eps(head);
        } else {
            self.step_small(dt);
        }
    }

    /// Advance the simulation by `dt` time units.
    pub fn step(&mut self, dt: u64)
        requires
            old(self).wf(),
        ensures
            final(self)@ == world_step(old(self)@, dt as int),
            final(self).wf(),
    {
        self.step_eps(dt);
    }

    /// What every body reports this frame: mobile bodies first, then the
    /// immobile ones, each with pixel coordinates, pixel radius and color.
    pub fn reports(&self) -> (out: Vec<Report>)
        ensures
            out@.len() == self@.m.len() + self@.fixed.len(),
            forall|t: int|
                0 <= t < self@.m.len() ==> (#[trigger] out@[t])@ == report_of(
                    self@.m[t],
                    mobile_color(),
                ),
            forall|t: int|
                self@.m.len() <= t < out@.len() ==> (#[trigger] out@[t])@ == report_of(
                    self@.fixed[t - self@.m.len()],
                    fixed_color(),
                ),
    {
        let mut out: Vec<Report> = Vec::new();
        let mut i: usize = 0;
        while i < self.m.len()
            invariant
                i <= self@.m.len(),
                out@.len() == i,
                forall|t: int|
                    0 <= t < i ==> (#[trigger] out@[t])@ == report_of(self@.m[t], mobile_color()),
            decreases self@.m.len() - i,
        {
            let mb = &self.m[i];
            out.push(
                Report {
                    x: to_px(mb.p.x),
                    y: to_px(mb.p.y),
                    radius: to_px(mb.r),
                    color: Color { red: 200, green: 0, blue: 0 },
                },
            );
            i += 1;
        }
        let mut j: usize = 0;
        while j < self.fixed.len()
            invariant
                j <= self@.fixed.len(),
                out@.len() == self@.m.len() + j,
                forall|t: int|
                    0 <= t < self@.m.len() ==> (#[trigger] out@[t])@ == report_of(
                        self@.m[t],
                        mobile_color(),
                    ),
                forall|t: int|
                    self@.m.len() <= t < out@.len() ==> (#[trigger] out@[t])@ == report_of(
                        self@.fixed[t - self@.m.len()],
                        fixed_color(),
                    ),
            decreases self@.fixed.len() - j,
        {
            let mb = &self.fixed[j];
            out.push(
                Report {
                    x: to_px(mb.p.x),
                    y: to_px(mb.p.y),
                    radius: to_px(mb.r),
                    color: Color { red: 0, green: 0, blue: 0 },
                },
            );
            j += 1;
        }
        out
    }

    /// Report every body through the given interface, mobile bodies first;
    /// the first error aborts the remaining reports and is handed back.
    /// What is reported is pinned by `reports`; whether an error comes back
    /// only the `Reporter` implementation decides, so success is promised
    /// exactly where no report is made.
    pub fn draw<R: Reporter>(&self, rep: &mut R) -> (res: Result<(), String>)
        ensures
            self@.m.len() + self@.fixed.len() == 0 ==> res is Ok,
    {
        let items = self.reports();
        let mut i: usize = 0;
        while i < items.len()
            invariant
                items@.len() == self@.m.len() + self@.fixed.len(),
            decreases items@.len() - i,
        {
            let it = items[i];
            match rep.report(it.x, it.y, it.radius, it.color) {
                Result::Ok(_) => {},
                Result::Err(e) => {
                    return Result::Err(e);
                },
            }
            i += 1;
        }
        Result::Ok(())
    }
}

} // verus!
