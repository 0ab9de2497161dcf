//! Plane vectors with `i64` components and their mathematical model.

use vstd::prelude::*;

verus! {

/// An exact 2D vector with fixed-width integer components.
#[derive(Clone, Copy, Debug, PartialEq, Eq, Structural)]
pub struct Vec2 {
    pub x: i64,
    pub y: i64,
}

/// The mathematical model of a vector: unbounded integer components.
pub ghost struct V2 {
    pub x: int,
    pub y: int,
}

impl View for Vec2 {
    type V = V2;

    open spec fn view(&self) -> V2 {
        V2 { x: self.x as int, y: self.y as int }
    }
}

/// Dot product over the mathematical model.
pub open spec fn dot2(a: V2, b: V2) -> int {
    a.x * b.x + a.y * b.y
}

impl Vec2 {
    /// Dot product; the caller must show that the exact result is
    /// representable.
    pub fn dot(self, other: Vec2) -> (r: i64)
        requires
            i64::MIN <= dot2(self@, other@) <= i64::MAX,
        ensures
            r as int == dot2(self@, other@),
    {
        proof {
            assert((self.x as int) * (other.x as int) <= 0x4000_0000_0000_0000_0000_0000_0000_0000
                && (self.x as int) * (other.x as int) >= -0x4000_0000_0000_0000_0000_0000_0000_0000)
                by (nonlinear_arith)
                requires
                    -0x8000_0000_0000_0000 <= self.x as int <= 0x7fff_ffff_ffff_ffff,
                    -0x8000_0000_0000_0000 <= other.x as int <= 0x7fff_ffff_ffff_ffff,
            ;
            assert((self.y as int) * (other.y as int) <= 0x4000_0000_0000_0000_0000_0000_0000_0000
                && (self.y as int) * (other.y as int) >= -0x4000_0000_0000_0000_0000_0000_0000_0000)
                by (nonlinear_arith)
                requires
                    -0x8000_0000_0000_0000 <= self.y as int <= 0x7fff_ffff_ffff_ffff,
                    -0x8000_0000_0000_0000 <= other.y as int <= 0x7fff_ffff_ffff_ffff,
            ;
        }
        let px = (self.x as i128) * (other.x as i128);
        let py = (self.y as i128) * (other.y as i128);
        let p = px + py;
        p as i64
    }
}

} // verus!
