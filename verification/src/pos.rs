//! Plane and space positions in fixed-point micro-units, together with the
//! pose types that pair a position with a heading.

use vstd::prelude::*;

use crate::angle::Angle;
use crate::num::{abs_i, isqrt, mul_i64, sqrt_floor, tdiv, tdiv128};

verus! {

/// World coordinates stay within this many micro-units of the origin.
pub const COORD_LIMIT: i64 = 1_000_000_000_000_000;

/// Intermediate vector coordinates may grow up to this bound.
pub const VEC_LIMIT: i64 = 1_000_000_000_000_000_000;

/// A two-dimensional point or vector, coordinates in micro-units.
#[derive(Clone, Copy, Debug, PartialEq, Eq, Structural)]
pub struct Pos2 {
    pub x: i64,
    pub y: i64,
}

/// A three-dimensional point, coordinates in micro-units.
#[derive(Clone, Copy, Debug, PartialEq, Eq, Structural)]
pub struct Pos3 {
    pub x: i64,
    pub y: i64,
    pub z: i64,
}

/// Squared distance between two points, as a mathematical integer.
pub open spec fn dist2(a: Pos2, b: Pos2) -> int {
    (a.x - b.x) * (a.x - b.x) + (a.y - b.y) * (a.y - b.y)
}

/// A coordinate clamped into the world box.
pub open spec fn clamp_coord(v: int) -> int {
    if v < -COORD_LIMIT {
        -COORD_LIMIT as int
    } else if v > COORD_LIMIT {
        COORD_LIMIT as int
    } else {
        v
    }
}

impl Pos2 {
    /// Coordinates fit the intermediate-vector bound.
    pub open spec fn bounded(self) -> bool {
        abs_i(self.x as int) <= VEC_LIMIT && abs_i(self.y as int) <= VEC_LIMIT
    }

    /// Coordinates fit the world bound.
    pub open spec fn in_world(self) -> bool {
        abs_i(self.x as int) <= COORD_LIMIT && abs_i(self.y as int) <= COORD_LIMIT
    }

    /// Component-wise sum as a specification value.
    pub open spec fn add_v(self, o: Pos2) -> Pos2 {
        Pos2 { x: (self.x + o.x) as i64, y: (self.y + o.y) as i64 }
    }

    /// Component-wise difference as a specification value.
    pub open spec fn sub_v(self, o: Pos2) -> Pos2 {
        Pos2 { x: (self.x - o.x) as i64, y: (self.y - o.y) as i64 }
    }

    /// Component-wise negation as a specification value.
    pub open spec fn neg_v(self) -> Pos2 {
        Pos2 { x: (-self.x) as i64, y: (-self.y) as i64 }
    }

    /// Scaling by `num / den`, as a specification value.
    pub open spec fn mul_div_v(self, num: int, den: int) -> Pos2 {
        Pos2 { x: tdiv(self.x * num, den) as i64, y: tdiv(self.y * num, den) as i64 }
    }

    /// Both coordinates clamped into the world box, as a specification value.
    pub open spec fn clamp_world_v(self) -> Pos2 {
        Pos2 { x: clamp_coord(self.x as int) as i64, y: clamp_coord(self.y as int) as i64 }
    }

    pub fn zero() -> (r: Pos2)
        ensures
            r == (Pos2 { x: 0, y: 0 }),
    {
        Pos2 { x: 0, y: 0 }
    }

    pub fn new(x: i64, y: i64) -> (r: Pos2)
        ensures
            r == (Pos2 { x, y }),
    {
        Pos2 { x, y }
    }

    /// Component-wise sum.
    pub fn plus(self, o: Pos2) -> (r: Pos2)
        requires
            self.bounded(),
            o.bounded(),
        ensures
            r == self.add_v(o),
            r.x == self.x + o.x,
            r.y == self.y + o.y,
    {
        Pos2 { x: self.x + o.x, y: self.y + o.y }
    }

    /// Component-wise difference.
    pub fn minus(self, o: Pos2) -> (r: Pos2)
        requires
            self.bounded(),
            o.bounded(),
        ensures
            r == self.sub_v(o),
            r.x == self.x - o.x,
            r.y == self.y - o.y,
    {
        Pos2 { x: self.x - o.x, y: self.y - o.y }
    }

    /// Component-wise negation.
    pub fn negate(self) -> (r: Pos2)
        requires
            self.bounded(),
        ensures
            r == self.neg_v(),
            r.x == -self.x,
            r.y == -self.y,
    {
        Pos2 { x: -self.x, y: -self.y }
    }

    /// Dot product, widened so it is exact.
    pub fn dot(self, o: Pos2) -> (r: i128)
        requires
            self.bounded(),
            o.bounded(),
        ensures
            r == self.x * o.x + self.y * o.y,
    {
        let a = mul_i64(self.x, o.x);
        let b = mul_i64(self.y, o.y);
        proof {
            assert(a + b <= i128::MAX && a + b >= i128::MIN) by (nonlinear_arith)
                requires
                    a == self.x * o.x,
                    b == self.y * o.y,
                    abs_i(self.x as int) <= VEC_LIMIT,
                    abs_i(self.y as int) <= VEC_LIMIT,
                    abs_i(o.x as int) <= VEC_LIMIT,
                    abs_i(o.y as int) <= VEC_LIMIT,
            ;
        }
        a + b
    }

    /// Perpendicular dot product (the z component of the cross product).
    pub fn perp_dot(self, o: Pos2) -> (r: i128)
        requires
            self.bounded(),
            o.bounded(),
        ensures
            r == self.x * o.y - self.y * o.x,
    {
        let a = mul_i64(self.x, o.y);
        let b = mul_i64(self.y, o.x);
        proof {
            assert(a - b <= i128::MAX && a - b >= i128::MIN) by (nonlinear_arith)
                requires
                    a == self.x * o.y,
                    b == self.y * o.x,
                    abs_i(self.x as int) <= VEC_LIMIT,
                    abs_i(self.y as int) <= VEC_LIMIT,
                    abs_i(o.x as int) <= VEC_LIMIT,
                    abs_i(o.y as int) <= VEC_LIMIT,
            ;
        }
        a - b
    }

    /// Anticlockwise perpendicular: rotates the vector a quarter turn.
    pub fn perp(self) -> (r: Pos2)
        requires
            self.bounded(),
        ensures
            r.x == -self.y,
            r.y == self.x,
    {
        Pos2 { x: -self.y, y: self.x }
    }

    /// Squared length, exact.
    pub fn length_squared(self) -> (r: i128)
        requires
            self.bounded(),
        ensures
            r == dist2(self, Pos2 { x: 0, y: 0 }),
            r >= 0,
    {
        proof {
            assert(self.x * self.x + self.y * self.y == dist2(
                self,
                Pos2 { x: 0, y: 0 },
            )) by (nonlinear_arith);
            assert(self.x * self.x >= 0 && self.y * self.y >= 0) by (nonlinear_arith);
        }
        self.dot(self)
    }

    /// Euclidean length, rounded down.
    pub fn length(self) -> (r: i64)
        requires
            self.bounded(),
        ensures
            r == sqrt_floor(dist2(self, Pos2 { x: 0, y: 0 })),
            crate::num::is_sqrt_floor(dist2(self, Pos2 { x: 0, y: 0 }), r as int),
            r >= 0,
    {
        let sq = self.length_squared();
        proof {
            assert(sq <= 2 * ((VEC_LIMIT as int) * (VEC_LIMIT as int))) by (nonlinear_arith)
                requires
                    sq == dist2(self, Pos2 { x: 0, y: 0 }),
                    abs_i(self.x as int) <= VEC_LIMIT,
                    abs_i(self.y as int) <= VEC_LIMIT,
            ;
        }
        let root = isqrt(sq as u128);
        proof {
            assert((root as int) * (root as int) <= sq < ((root as int) + 1) * ((root as int)
                + 1));
            assert(root <= u64::MAX);
            assert((root as int) <= 4_000_000_000_000_000_000int) by (nonlinear_arith)
                requires
                    (root as int) * (root as int) <= sq,
                    0 <= root,
                    sq <= 2 * ((VEC_LIMIT as int) * (VEC_LIMIT as int)),
            ;
        }
        root as i64
    }

    /// Distance between two points, rounded down.
    pub fn distance(self, o: Pos2) -> (r: i64)
        requires
            self.in_world(),
            o.in_world(),
        ensures
            r == sqrt_floor(dist2(self, o)),
            crate::num::is_sqrt_floor(dist2(self, o), r as int),
            r >= 0,
    {
        let d = self.minus(o);
        proof {
            assert(dist2(d, Pos2 { x: 0, y: 0 }) == dist2(self, o)) by (nonlinear_arith)
                requires
                    d.x == self.x - o.x,
                    d.y == self.y - o.y,
            ;
        }
        d.length()
    }

    /// Scales the vector by the ratio `num / den`, truncating toward zero.
    pub fn mul_div(self, num: i64, den: i64) -> (r: Pos2)
        requires
            den > 0,
            abs_i(self.x * num) <= den * VEC_LIMIT,
            abs_i(self.y * num) <= den * VEC_LIMIT,
        ensures
            r == self.mul_div_v(num as int, den as int),
            r.x == tdiv(self.x * num, den as int),
            r.y == tdiv(self.y * num, den as int),
            r.bounded(),
    {
        let px = mul_i64(self.x, num);
        let py = mul_i64(self.y, num);
        proof {
            crate::num::lemma_tdiv_abs(px as int, den as int, VEC_LIMIT as int);
            crate::num::lemma_tdiv_abs(py as int, den as int, VEC_LIMIT as int);
        }
        let qx = tdiv128(px, den as i128);
        let qy = tdiv128(py, den as i128);
        Pos2 { x: qx as i64, y: qy as i64 }
    }

    /// Clamps both coordinates into the world box.
    pub fn clamp_world(self) -> (r: Pos2)
        ensures
            r == self.clamp_world_v(),
            r.in_world(),
            self.in_world() ==> r == self,
    {
        let x = if self.x < -COORD_LIMIT {
            -COORD_LIMIT
        } else if self.x > COORD_LIMIT {
            COORD_LIMIT
        } else {
            self.x
        };
        let y = if self.y < -COORD_LIMIT {
            -COORD_LIMIT
        } else if self.y > COORD_LIMIT {
            COORD_LIMIT
        } else {
            self.y
        };
        Pos2 { x, y }
    }

    /// Lifts the point into space at altitude `z`.
    pub fn extend(self, z: i64) -> (r: Pos3)
        ensures
            r == (Pos3 { x: self.x, y: self.y, z }),
    {
        Pos3 { x: self.x, y: self.y, z }
    }
}

impl Pos3 {
    /// Coordinates fit the intermediate-vector bound.
    pub open spec fn bounded(self) -> bool {
        abs_i(self.x as int) <= VEC_LIMIT && abs_i(self.y as int) <= VEC_LIMIT && abs_i(
            self.z as int,
        ) <= VEC_LIMIT
    }

    pub fn zero() -> (r: Pos3)
        ensures
            r == (Pos3 { x: 0, y: 0, z: 0 }),
    {
        Pos3 { x: 0, y: 0, z: 0 }
    }

    pub fn new(x: i64, y: i64, z: i64) -> (r: Pos3)
        ensures
            r == (Pos3 { x, y, z }),
    {
        Pos3 { x, y, z }
    }

    /// Drops the altitude component.
    pub fn xy(self) -> (r: Pos2)
        ensures
            r == (Pos2 { x: self.x, y: self.y }),
    {
        Pos2 { x: self.x, y: self.y }
    }
}

/// A spatial pose: position plus heading.
#[derive(Clone, Copy, Debug, PartialEq, Eq, Structural)]
pub struct Pos3Angle(pub Pos3, pub Angle);

impl Pos3Angle {
    /// Projects the pose onto the plane.
    pub fn to_2(self) -> (r: Pos2Angle)
        ensures
            r == Pos2Angle(Pos2 { x: self.0.x, y: self.0.y }, self.1),
    {
        Pos2Angle(self.0.xy(), self.1)
    }
}

/// A planar pose: position plus heading.
#[derive(Clone, Copy, Debug, PartialEq, Eq, Structural)]
pub struct Pos2Angle(pub Pos2, pub Angle);

impl Pos2Angle {
    /// Lifts the pose into space at altitude `z`.
    pub fn to_3(self, z: i64) -> (r: Pos3Angle)
        ensures
            r == Pos3Angle(Pos3 { x: self.0.x, y: self.0.y, z }, self.1),
    {
        Pos3Angle(self.0.extend(z), self.1)
    }
}

} // verus!
