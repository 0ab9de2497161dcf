use bounce::decomp::Decomposition;
use bounce::marble::Marble;
use bounce::vec2::Vec2;
use bounce::world::{Color, Report, Reporter, World};

fn marble(r: i64, px: i64, py: i64, vx: i64, vy: i64) -> Marble {
    Marble { r, p: Vec2 { x: px, y: py }, v: Vec2 { x: vx, y: vy } }
}

#[test]
fn dot_product_exact() {
    let a = Vec2 { x: 3, y: -4 };
    let b = Vec2 { x: 10, y: 7 };
    assert_eq!(a.dot(b), 3 * 10 + (-4) * 7);
}

#[test]
fn decomposition_none_when_far() {
    let a = marble(10_000, 100_000, 100_000, 5, 5);
    let b = marble(10_000, 500_000, 100_000, -5, 5);
    assert!(Decomposition::new(&a, &b).is_none());
}

#[test]
fn decomposition_none_when_coincident() {
    let a = marble(10_000, 100_000, 100_000, 5, 5);
    let b = marble(10_000, 100_000, 100_000, -5, 5);
    assert!(Decomposition::new(&a, &b).is_none());
}

#[test]
fn decomposition_some_when_overlapping() {
    let a = marble(10_000, 100_000, 100_000, 5, 5);
    let b = marble(10_000, 115_000, 100_000, -5, 5);
    assert!(Decomposition::new(&a, &b).is_some());
}

#[test]
fn wall_bounce_clamps_and_reflects() {
    let mut m = marble(10_000, 995_000, 500_000, 1_000, 0);
    m.step(10, 1_000_000, 1_000_000);
    assert_eq!(m.p.x, 990_000);
    assert_eq!(m.v.x, -1_000);
    assert_eq!(m.p.y, 500_000);
    assert_eq!(m.v.y, 0);
}

#[test]
fn wall_bounce_preserves_axis_speed() {
    let mut m = marble(10_000, 15_000, 500_000, -700, 300);
    m.step(10, 1_000_000, 1_000_000);
    assert_eq!(m.p.x, 10_000);
    assert_eq!(m.v.x.abs(), 700);
    assert_eq!(m.v.y, 300);
}

#[test]
fn head_on_swap() {
    let mut a = marble(10_000, 100_000, 100_000, 500, 0);
    let mut b = marble(10_000, 115_000, 100_000, -500, 0);
    a.check_collision(&mut b);
    assert_eq!((a.v.x, a.v.y), (-500, 0));
    assert_eq!((b.v.x, b.v.y), (500, 0));
    assert_eq!((a.p.x, a.p.y), (100_000, 100_000));
    assert_eq!((b.p.x, b.p.y), (115_000, 100_000));
}

#[test]
fn separating_pair_untouched() {
    let mut a = marble(10_000, 100_000, 100_000, -500, 0);
    let mut b = marble(10_000, 115_000, 100_000, 500, 0);
    a.check_collision(&mut b);
    assert_eq!((a.v.x, a.v.y), (-500, 0));
    assert_eq!((b.v.x, b.v.y), (500, 0));
}

#[test]
fn diagonal_collision_exchanges_parallel_part() {
    let mut a = marble(10_000, 100_000, 100_000, 300, 400);
    let mut b = marble(10_000, 110_000, 110_000, 0, 0);
    a.check_collision(&mut b);
    assert_eq!((a.v.x, a.v.y), (-50, 50));
    assert_eq!((b.v.x, b.v.y), (350, 350));
}

#[test]
fn inexact_collision_truncates_toward_zero() {
    let mut a = marble(10_000, 100_000, 100_000, 301, 402);
    let mut b = marble(10_000, 110_000, 110_000, 0, 0);
    a.check_collision(&mut b);
    // Exact coefficients give -50.5, 50.5 and 351.5; each quotient is
    // truncated toward zero.
    assert_eq!((a.v.x, a.v.y), (-50, 50));
    assert_eq!((b.v.x, b.v.y), (351, 351));
}

#[test]
fn fixed_body_bounce_reverses_velocity() {
    let mut a = marble(10_000, 100_000, 100_000, 100, 0);
    let f = marble(50_000, 100_020, 100_000, 0, 0);
    a.check_collision_fixed(&f);
    assert_eq!((a.v.x, a.v.y), (-100, 0));
    assert_eq!((a.p.x, a.p.y), (100_000, 100_000));
    assert_eq!((f.v.x, f.v.y), (0, 0));
    assert_eq!((f.p.x, f.p.y), (100_020, 100_000));
}

#[test]
fn fixed_body_bounce_diagonal_approach() {
    // Velocity parallel to the center axis but not an integer multiple of it.
    let mut a = marble(10_000, 100_000, 100_000, 2, 1);
    let f = marble(50_000, 100_020, 100_010, 0, 0);
    a.check_collision_fixed(&f);
    assert_eq!((a.v.x, a.v.y), (-2, -1));
}

#[test]
fn fixed_body_receding_untouched() {
    let mut a = marble(10_000, 100_000, 100_000, -100, 0);
    let f = marble(50_000, 100_020, 100_000, 0, 0);
    a.check_collision_fixed(&f);
    assert_eq!((a.v.x, a.v.y), (-100, 0));
}

#[test]
fn no_contact_short_circuit() {
    let mut a = marble(10_000, 100_000, 100_000, 42, -17);
    let mut b = marble(10_000, 600_000, 100_000, -3, 9);
    a.check_collision(&mut b);
    assert_eq!((a.v.x, a.v.y), (42, -17));
    assert_eq!((b.v.x, b.v.y), (-3, 9));
    a.check_collision_fixed(&b);
    assert_eq!((a.v.x, a.v.y), (42, -17));
}

fn sample_world() -> World {
    let m = vec![
        marble(10_000, 100_000, 100_000, 240, -180),
        marble(10_000, 112_000, 100_500, -200, 30),
        marble(10_000, 500_000, 400_000, 249, 249),
        marble(10_000, 15_000, 15_000, -249, -249),
    ];
    let fixed = vec![marble(50_000, 300_000, 300_000, 0, 0)];
    World::from_parts(1_024_000, 768_000, m, fixed)
}

#[test]
fn substep_equivalence() {
    let mut w1 = sample_world();
    let mut w2 = sample_world();
    w1.step(250);
    for _ in 0..10 {
        w2.step(25);
    }
    assert_eq!(w1.width, w2.width);
    assert_eq!(w1.height, w2.height);
    for i in 0..w1.m.len() {
        assert_eq!(w1.m[i], w2.m[i]);
    }
}

#[test]
fn step_integrates_position() {
    let m = vec![marble(10_000, 100_000, 100_000, 100, -50)];
    let mut w = World::from_parts(1_000_000, 1_000_000, m, Vec::new());
    w.step(10);
    assert_eq!((w.m[0].p.x, w.m[0].p.y), (101_000, 99_500));
    assert_eq!((w.m[0].v.x, w.m[0].v.y), (100, -50));
}

#[test]
fn large_step_drops_no_time() {
    // 105 time units split into nine substeps of 10 and one of 15; the full
    // delta is integrated.
    let m = vec![marble(10_000, 100_000, 100_000, 100, 0)];
    let mut w = World::from_parts(1_000_000, 1_000_000, m, Vec::new());
    w.step(105);
    assert_eq!((w.m[0].p.x, w.m[0].p.y), (110_500, 100_000));
}

#[test]
fn step_keeps_bodies_contained() {
    let mut w = sample_world();
    for _ in 0..100 {
        w.step(170);
        for m in w.m.iter() {
            assert!(m.r <= m.p.x && m.p.x <= w.width - m.r);
            assert!(m.r <= m.p.y && m.p.y <= w.height - m.r);
        }
    }
}

#[test]
fn new_populates_arena() {
    let w = World::new(1024, 768);
    assert_eq!(w.width, 1_024_000);
    assert_eq!(w.height, 768_000);
    assert_eq!(w.m.len(), 25);
    assert_eq!(w.fixed.len(), 5);
    for m in w.m.iter() {
        assert_eq!(m.r, 10_000);
        assert!(10_000 <= m.p.x && m.p.x < 1_024_000 - 10_000);
        assert!(10_000 <= m.p.y && m.p.y < 768_000 - 10_000);
        assert!(-250 <= m.v.x && m.v.x < 250);
        assert!(-250 <= m.v.y && m.v.y < 250);
    }
    for f in w.fixed.iter() {
        assert_eq!(f.r, 50_000);
        assert!(10_000 <= f.p.x && f.p.x < 1_024_000 - 10_000);
        assert!(10_000 <= f.p.y && f.p.y < 768_000 - 10_000);
    }
}

#[test]
fn resize_updates_bounds_only() {
    let mut w = sample_world();
    let before = w.m.clone();
    w.resize(800, 600);
    assert_eq!(w.width, 800_000);
    assert_eq!(w.height, 600_000);
    for i in 0..before.len() {
        assert_eq!(w.m[i], before[i]);
    }
}

#[test]
fn reports_pixel_values_and_colors() {
    let m = vec![marble(10_000, 12_345, 67_890, 1, 2)];
    let fixed = vec![marble(50_000, 300_000, 299_999, 0, 0)];
    let w = World::from_parts(1_000_000, 1_000_000, m, fixed);
    let reports = w.reports();
    assert_eq!(reports.len(), 2);
    assert_eq!(reports[0].x, 12);
    assert_eq!(reports[0].y, 67);
    assert_eq!(reports[0].radius, 10);
    assert_eq!(reports[0].color, Color { red: 200, green: 0, blue: 0 });
    assert_eq!(reports[1].x, 300);
    assert_eq!(reports[1].y, 299);
    assert_eq!(reports[1].radius, 50);
    assert_eq!(reports[1].color, Color { red: 0, green: 0, blue: 0 });
}

struct Collecting {
    seen: Vec<Report>,
    fail_after: Option<usize>,
}

impl Reporter for Collecting {
    fn report(&mut self, x: i64, y: i64, radius: i64, color: Color) -> Result<(), String> {
        if self.fail_after == Some(self.seen.len()) {
            return Err(String::from("sink closed"));
        }
        self.seen.push(Report { x, y, radius, color });
        Ok(())
    }
}

#[test]
fn draw_reports_every_body() {
    let w = sample_world();
    let mut sink = Collecting { seen: Vec::new(), fail_after: None };
    assert_eq!(w.draw(&mut sink), Ok(()));
    assert_eq!(sink.seen.len(), w.m.len() + w.fixed.len());
    assert_eq!(sink.seen[0].x, w.m[0].p.x / 1000);
    assert_eq!(sink.seen[4].color, Color { red: 0, green: 0, blue: 0 });
}

#[test]
fn draw_on_empty_world_is_ok() {
    let w = World::from_parts(1_000_000, 1_000_000, Vec::new(), Vec::new());
    let mut sink = Collecting { seen: Vec::new(), fail_after: Some(0) };
    assert_eq!(w.draw(&mut sink), Ok(()));
    assert!(sink.seen.is_empty());
}

#[test]
fn draw_stops_at_first_error() {
    let w = sample_world();
    let mut sink = Collecting { seen: Vec::new(), fail_after: Some(2) };
    let res = w.draw(&mut sink);
    assert_eq!(res, Err(String::from("sink closed")));
    assert_eq!(sink.seen.len(), 2);
}
