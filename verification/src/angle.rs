//! Headings in fixed-point micro-radians, with rational approximations of
//! sine, cosine and the arc tangent.  Every function is pinned exactly to a
//! specification-level formula, so callers reason about the same integers the
//! executable computes.

use vstd::prelude::*;

use crate::direction::Rotation;
use crate::num::{abs_i, lemma_tdiv_abs, lemma_tdiv_le, tdiv, tdiv128, SCALE};
use crate::pos::Pos2;

verus! {

/// Half turn, in micro-radians.
pub const PI_UR: i64 = 3_141_592;

/// Full turn, in micro-radians.
pub const TAU_UR: i64 = 6_283_184;

/// Quarter turn, in micro-radians.
pub const HALF_PI_UR: i64 = 1_570_796;

/// Eighth of a turn, in micro-radians.
pub const QUARTER_PI_UR: i64 = 785_398;

/// Correction coefficient of the arc-tangent approximation, scaled by `SCALE`.
pub const ATAN_C: i64 = 273_000;

/// Magnitude cap on arc-tangent operands.
pub const ATAN_IN_LIMIT: i128 = 5_000_000_000_000_000_000_000_000_000_000;

/// Rational approximation of `SCALE * sin(x)` on the first half turn.
pub open spec fn sin_half(x: int) -> int
    recommends
        0 <= x <= PI_UR,
{
    tdiv(16 * x * (PI_UR - x) * SCALE, 5 * PI_UR * PI_UR - 4 * x * (PI_UR - x))
}

/// `SCALE * sin(x)` for `x` within one full turn.
pub open spec fn sin_ur(x: int) -> int
    recommends
        0 <= x < TAU_UR,
{
    if x <= PI_UR {
        sin_half(x)
    } else {
        -sin_half(x - PI_UR)
    }
}

/// `SCALE * cos(x)` for `x` within one full turn.
pub open spec fn cos_ur(x: int) -> int
    recommends
        0 <= x < TAU_UR,
{
    if x + HALF_PI_UR < TAU_UR {
        sin_ur(x + HALF_PI_UR)
    } else {
        sin_ur(x + HALF_PI_UR - TAU_UR)
    }
}

/// Euclidean remainder bringing any angle into `[0, TAU_UR)`.
pub open spec fn norm_ur(a: int) -> int {
    a % (TAU_UR as int)
}

/// Remainder that keeps the sign of the angle, in `(-TAU_UR, TAU_UR)`.
pub open spec fn clamp_ur(a: int) -> int {
    if a >= 0 {
        a % (TAU_UR as int)
    } else {
        -((-a) % (TAU_UR as int))
    }
}

/// Rational approximation of the arc tangent on `[0, 1]`, operand scaled by
/// `SCALE`, result in micro-radians.
pub open spec fn atan_unit(z: int) -> int
    recommends
        0 <= z <= SCALE,
{
    tdiv(QUARTER_PI_UR * z * SCALE + ATAN_C * z * (SCALE - z), SCALE * SCALE)
}

/// Quadrant-corrected arc tangent of `y / x`, in micro-radians.
pub open spec fn atan2_ur(y: int, x: int) -> int {
    let ax = abs_i(x);
    let ay = abs_i(y);
    if ax == 0 && ay == 0 {
        0
    } else {
        let base = if ax >= ay {
            atan_unit(tdiv(ay * SCALE, ax))
        } else {
            HALF_PI_UR - atan_unit(tdiv(ax * SCALE, ay))
        };
        if x >= 0 && y >= 0 {
            base
        } else if x < 0 && y >= 0 {
            PI_UR - base
        } else if x < 0 {
            base - PI_UR
        } else {
            -base
        }
    }
}

/// Unit direction vector of an angle, scaled by `SCALE`.
pub open spec fn dir_vec(a: int) -> Pos2 {
    Pos2 { x: cos_ur(norm_ur(a)) as i64, y: sin_ur(norm_ur(a)) as i64 }
}

/// Rotation of a vector by an angle, as a specification value.
pub open spec fn rot_v(v: Pos2, a: int) -> Pos2 {
    Pos2 {
        x: tdiv(v.x * cos_ur(norm_ur(a)) - v.y * sin_ur(norm_ur(a)), SCALE as int) as i64,
        y: tdiv(v.x * sin_ur(norm_ur(a)) + v.y * cos_ur(norm_ur(a)), SCALE as int) as i64,
    }
}

/// A heading or turn amount in micro-radians.
#[derive(Clone, Copy, Debug, PartialEq, Eq, Structural)]
pub struct Angle(pub i64);

/// The half-turn sine approximation stays within `[0, SCALE]`.
pub proof fn lemma_sin_half_bounds(x: int)
    requires
        0 <= x <= PI_UR,
    ensures
        0 <= sin_half(x) <= SCALE,
{
    let p = x * (PI_UR - x);
    let num = 16 * x * (PI_UR - x) * (SCALE as int);
    let den = 5 * (PI_UR as int) * (PI_UR as int) - 4 * x * (PI_UR - x);
    assert(0 <= p && 4 * p <= (PI_UR as int) * (PI_UR as int) && num == 16 * p * (SCALE as int)
        && den == 5 * (PI_UR as int) * (PI_UR as int) - 4 * p) by (nonlinear_arith)
        requires
            p == x * (PI_UR - x),
            num == 16 * x * (PI_UR - x) * (SCALE as int),
            den == 5 * (PI_UR as int) * (PI_UR as int) - 4 * x * (PI_UR - x),
            0 <= x <= PI_UR,
    ;
    assert(0 <= num && num <= den * (SCALE as int)) by (nonlinear_arith)
        requires
            num == 16 * p * (SCALE as int),
            den == 5 * (PI_UR as int) * (PI_UR as int) - 4 * p,
            0 <= p,
            4 * p <= (PI_UR as int) * (PI_UR as int),
    ;
    lemma_tdiv_le(num, den, SCALE as int);
}

/// The full-turn sine approximation stays within `[-SCALE, SCALE]`.
pub proof fn lemma_sin_ur_bounds(x: int)
    requires
        0 <= x < TAU_UR,
    ensures
        -SCALE <= sin_ur(x) <= SCALE,
{
    if x <= PI_UR {
        lemma_sin_half_bounds(x);
    } else {
        lemma_sin_half_bounds(x - PI_UR);
    }
}

/// The cosine approximation stays within `[-SCALE, SCALE]`.
pub proof fn lemma_cos_ur_bounds(x: int)
    requires
        0 <= x < TAU_UR,
    ensures
        -SCALE <= cos_ur(x) <= SCALE,
{
    if x + HALF_PI_UR < TAU_UR {
        lemma_sin_ur_bounds(x + HALF_PI_UR);
    } else {
        lemma_sin_ur_bounds(x + HALF_PI_UR - TAU_UR);
    }
}

fn sin_half_fp(x: i64) -> (r: i64)
    requires
        0 <= x <= PI_UR,
    ensures
        r == sin_half(x as int),
        0 <= r <= SCALE,
{
    proof {
        assert(0 <= (x as int) * ((PI_UR - x) as int) <= (PI_UR as int) * (PI_UR as int))
            by (nonlinear_arith)
            requires
                0 <= x <= PI_UR,
        ;
    }
    let p: i128 = (x as i128) * ((PI_UR - x) as i128);
    let num: i128 = 16 * p * (SCALE as i128);
    let den: i128 = 5 * (PI_UR as i128) * (PI_UR as i128) - 4 * p;
    proof {
        assert(num == 16 * (x as int) * ((PI_UR - x) as int) * (SCALE as int) && den == 5 * (
        PI_UR as int) * (PI_UR as int) - 4 * (x as int) * ((PI_UR - x) as int))
            by (nonlinear_arith)
            requires
                p == (x as int) * ((PI_UR - x) as int),
                num == 16 * p * (SCALE as int),
                den == 5 * (PI_UR as int) * (PI_UR as int) - 4 * p,
        ;
        lemma_sin_half_bounds(x as int);
    }
    let q = tdiv128(num, den);
    q as i64
}

/// `SCALE * sin(x)` for a normalized angle.
pub fn sin_fp(x: i64) -> (r: i64)
    requires
        0 <= x < TAU_UR,
    ensures
        r == sin_ur(x as int),
        -SCALE <= r <= SCALE,
{
    if x <= PI_UR {
        sin_half_fp(x)
    } else {
        -sin_half_fp(x - PI_UR)
    }
}

/// `SCALE * cos(x)` for a normalized angle.
pub fn cos_fp(x: i64) -> (r: i64)
    requires
        0 <= x < TAU_UR,
    ensures
        r == cos_ur(x as int),
        -SCALE <= r <= SCALE,
{
    if x + HALF_PI_UR < TAU_UR {
        sin_fp(x + HALF_PI_UR)
    } else {
        sin_fp(x + HALF_PI_UR - TAU_UR)
    }
}

fn atan_unit_fp(z: i128) -> (r: i64)
    requires
        0 <= z <= SCALE,
    ensures
        r == atan_unit(z as int),
        0 <= r < HALF_PI_UR,
{
    proof {
        assert(0 <= (QUARTER_PI_UR as int) * z * (SCALE as int) <= (QUARTER_PI_UR as int) * (
        SCALE as int) * (SCALE as int) && 0 <= (ATAN_C as int) * z * ((SCALE as int) - z) <= (
        ATAN_C as int) * (SCALE as int) * (SCALE as int)) by (nonlinear_arith)
            requires
                0 <= z <= SCALE,
        ;
    }
    let num: i128 = (QUARTER_PI_UR as i128) * z * (SCALE as i128) + (ATAN_C as i128) * z * (
    (SCALE as i128) - z);
    let den: i128 = (SCALE as i128) * (SCALE as i128);
    proof {
        assert(num < den * (HALF_PI_UR as int)) by (nonlinear_arith)
            requires
                num == (QUARTER_PI_UR as int) * z * (SCALE as int) + (ATAN_C as int) * z * ((
                SCALE as int) - z),
                den == (SCALE as int) * (SCALE as int),
                0 <= z <= SCALE,
        ;
        lemma_tdiv_le(num as int, den as int, HALF_PI_UR as int);
        vstd::arithmetic::div_mod::lemma_multiply_divide_lt(
            num as int,
            den as int,
            HALF_PI_UR as int,
        );
    }
    let q = tdiv128(num, den);
    q as i64
}

/// Quadrant-corrected arc tangent; the magnitudes of both operands must stay
/// under `ATAN_IN_LIMIT`.
pub fn atan2_fp(y: i128, x: i128) -> (r: i64)
    requires
        abs_i(y as int) <= ATAN_IN_LIMIT,
        abs_i(x as int) <= ATAN_IN_LIMIT,
    ensures
        r == atan2_ur(y as int, x as int),
        -PI_UR <= r <= PI_UR,
{
    let ax: i128 = if x >= 0 {
        x
    } else {
        -x
    };
    let ay: i128 = if y >= 0 {
        y
    } else {
        -y
    };
    if ax == 0 && ay == 0 {
        return 0;
    }
    let base: i64 = if ax >= ay {
        proof {
            lemma_tdiv_le(ay * (SCALE as int), ax as int, SCALE as int);
            assert(ay * (SCALE as int) <= ax * (SCALE as int)) by (nonlinear_arith)
                requires
                    0 <= ay <= ax,
            ;
        }
        let z = tdiv128(ay * (SCALE as i128), ax);
        atan_unit_fp(z)
    } else {
        proof {
            lemma_tdiv_le(ax * (SCALE as int), ay as int, SCALE as int);
            assert(ax * (SCALE as int) <= ay * (SCALE as int)) by (nonlinear_arith)
                requires
                    0 <= ax <= ay,
            ;
        }
        let z = tdiv128(ax * (SCALE as i128), ay);
        HALF_PI_UR - atan_unit_fp(z)
    };
    if x >= 0 && y >= 0 {
        base
    } else if x < 0 && y >= 0 {
        PI_UR - base
    } else if x < 0 {
        base - PI_UR
    } else {
        -base
    }
}

impl Angle {
    /// Wraps the angle into `(-TAU_UR, TAU_UR)`, keeping its sign.
    pub fn clamp(self) -> (r: Angle)
        requires
            self.0 > i64::MIN,
        ensures
            r.0 == clamp_ur(self.0 as int),
            -TAU_UR < r.0 < TAU_UR,
    {
        proof {
            vstd::arithmetic::div_mod::lemma_mod_division_less_than_divisor(
                abs_i(self.0 as int),
                TAU_UR as int,
            );
            vstd::arithmetic::div_mod::lemma_mod_bound(abs_i(self.0 as int), TAU_UR as int);
        }
        if self.0 >= 0 {
            Angle((((self.0 as u64) % (TAU_UR as u64)) as i64))
        } else {
            Angle(-((((-self.0) as u64) % (TAU_UR as u64)) as i64))
        }
    }

    /// Wraps the angle into `[0, TAU_UR)`.
    pub fn norm(self) -> (r: i64)
        requires
            self.0 > i64::MIN,
        ensures
            r == norm_ur(self.0 as int),
            0 <= r < TAU_UR,
    {
        let c = self.clamp();
        let n = if c.0 < 0 {
            c.0 + TAU_UR
        } else {
            c.0
        };
        proof {
            if self.0 < 0 {
                let t = TAU_UR as int;
                let na = -(self.0 as int);
                vstd::arithmetic::div_mod::lemma_fundamental_div_mod(na, t);
                let q = na / t;
                let m = na % t;
                if m == 0 {
                    vstd::arithmetic::div_mod::lemma_fundamental_div_mod_converse_mod(
                        self.0 as int,
                        t,
                        -q,
                        0,
                    );
                } else {
                    vstd::arithmetic::div_mod::lemma_fundamental_div_mod_converse_mod(
                        self.0 as int,
                        t,
                        -q - 1,
                        t - m,
                    );
                }
            }
        }
        n
    }

    /// Unit direction vector of the heading, scaled by `SCALE`.
    pub fn vec(self) -> (r: Pos2)
        requires
            self.0 > i64::MIN,
        ensures
            r == dir_vec(self.0 as int),
            abs_i(r.x as int) <= SCALE,
            abs_i(r.y as int) <= SCALE,
    {
        let n = self.norm();
        Pos2 { x: cos_fp(n), y: sin_fp(n) }
    }

    /// The rotation sense of a signed turn amount, if any.
    pub fn turning_rot(self) -> (r: Option<Rotation>)
        ensures
            r == (if self.0 > 0 {
                Some(Rotation::Anticlockwise)
            } else if self.0 < 0 {
                Some(Rotation::Clockwise)
            } else {
                None::<Rotation>
            }),
    {
        if self.0 > 0 {
            Some(Rotation::Anticlockwise)
        } else if self.0 < 0 {
            Some(Rotation::Clockwise)
        } else {
            None
        }
    }
}

impl Pos2 {
    /// Heading of the vector, measured anticlockwise from the x axis.
    pub fn to_angle(self) -> (r: Angle)
        ensures
            r.0 == atan2_ur(self.y as int, self.x as int),
            -PI_UR <= r.0 <= PI_UR,
    {
        Angle(atan2_fp(self.y as i128, self.x as i128))
    }

    /// Signed angle that rotates `self` onto `o`.
    pub fn angle_between(self, o: Pos2) -> (r: Angle)
        requires
            abs_i(self.x as int) <= 10_000_000_000_000,
            abs_i(self.y as int) <= 10_000_000_000_000,
            abs_i(o.x as int) <= 100_000_000_000_000_000,
            abs_i(o.y as int) <= 100_000_000_000_000_000,
        ensures
            r.0 == atan2_ur(
                (self.x * o.y - self.y * o.x) as int,
                (self.x * o.x + self.y * o.y) as int,
            ),
            -PI_UR <= r.0 <= PI_UR,
    {
        let pd = self.perp_dot(o);
        let d = self.dot(o);
        proof {
            assert(abs_i(pd as int) <= ATAN_IN_LIMIT && abs_i(d as int) <= ATAN_IN_LIMIT)
                by (nonlinear_arith)
                requires
                    pd == self.x * o.y - self.y * o.x,
                    d == self.x * o.x + self.y * o.y,
                    abs_i(self.x as int) <= 10_000_000_000_000,
                    abs_i(self.y as int) <= 10_000_000_000_000,
                    abs_i(o.x as int) <= 100_000_000_000_000_000,
                    abs_i(o.y as int) <= 100_000_000_000_000_000,
            ;
        }
        Angle(atan2_fp(pd, d))
    }

    /// Rotates the vector by the given angle, truncating each coordinate.
    pub fn rotate_by(self, a: Angle) -> (r: Pos2)
        requires
            a.0 > i64::MIN,
            self.bounded(),
        ensures
            r == rot_v(self, a.0 as int),
            r.x == tdiv(
                self.x * cos_ur(norm_ur(a.0 as int)) - self.y * sin_ur(norm_ur(a.0 as int)),
                SCALE as int,
            ),
            r.y == tdiv(
                self.x * sin_ur(norm_ur(a.0 as int)) + self.y * cos_ur(norm_ur(a.0 as int)),
                SCALE as int,
            ),
            abs_i(r.x as int) <= abs_i(self.x as int) + abs_i(self.y as int),
            abs_i(r.y as int) <= abs_i(self.x as int) + abs_i(self.y as int),
    {
        let u = a.vec();
        let c: i128 = u.x as i128;
        let s: i128 = u.y as i128;
        proof {
            vstd::arithmetic::div_mod::lemma_mod_division_less_than_divisor(
                a.0 as int,
                TAU_UR as int,
            );
            lemma_cos_ur_bounds(norm_ur(a.0 as int));
            lemma_sin_ur_bounds(norm_ur(a.0 as int));
            assert(abs_i((self.x as int) * c) <= (SCALE as int) * crate::pos::VEC_LIMIT && abs_i(
                (self.y as int) * s,
            ) <= (SCALE as int) * crate::pos::VEC_LIMIT && abs_i((self.x as int) * s) <= (
            SCALE as int) * crate::pos::VEC_LIMIT && abs_i((self.y as int) * c) <= (SCALE as int)
                * crate::pos::VEC_LIMIT) by (nonlinear_arith)
                requires
                    abs_i(c as int) <= SCALE,
                    abs_i(s as int) <= SCALE,
                    abs_i(self.x as int) <= crate::pos::VEC_LIMIT,
                    abs_i(self.y as int) <= crate::pos::VEC_LIMIT,
            ;
        }
        let nx: i128 = (self.x as i128) * c - (self.y as i128) * s;
        let ny: i128 = (self.x as i128) * s + (self.y as i128) * c;
        proof {
            assert(abs_i(nx as int) <= (SCALE as int) * (abs_i(self.x as int) + abs_i(
                self.y as int,
            )) && abs_i(ny as int) <= (SCALE as int) * (abs_i(self.x as int) + abs_i(
                self.y as int,
            ))) by (nonlinear_arith)
                requires
                    nx == self.x * c - self.y * s,
                    ny == self.x * s + self.y * c,
                    abs_i(c as int) <= SCALE,
                    abs_i(s as int) <= SCALE,
            ;
            lemma_tdiv_abs(nx as int, SCALE as int, abs_i(self.x as int) + abs_i(self.y as int));
            lemma_tdiv_abs(ny as int, SCALE as int, abs_i(self.x as int) + abs_i(self.y as int));
        }
        let rx = tdiv128(nx, SCALE as i128);
        let ry = tdiv128(ny, SCALE as i128);
        Pos2 { x: rx as i64, y: ry as i64 }
    }
}

} // verus!
