//! Two-dimensional vectors over nanometre coordinates.
use crate::fixed::{abs_int, div_scale, mul_div_scale, SCALE};
use vstd::prelude::*;

verus! {

/// A point or displacement on the field, both coordinates in nanometres.
#[derive(Clone, Copy, PartialEq, Eq, Structural, Debug)]
pub struct Vec2 {
    pub x: i64,
    pub y: i64,
}

/// The squared Euclidean length of `(x, y)`.
pub open spec fn mag_sq_spec(x: int, y: int) -> int {
    x * x + y * y
}

impl Vec2 {
    /// The vector `(x, y)`.
    pub fn new(x: i64, y: i64) -> (r: Vec2)
        ensures
            r == (Vec2 { x, y }),
    {
        Vec2 { x, y }
    }

    /// The x coordinate, in nanometres.
    pub fn x(&self) -> (r: i64)
        ensures
            r == self.x,
    {
        self.x
    }

    /// The y coordinate, in nanometres.
    pub fn y(&self) -> (r: i64)
        ensures
            r == self.y,
    {
        self.y
    }

    /// A mutable borrow of the x coordinate.
    pub fn mut_x(&mut self) -> (r: &mut i64)
        ensures
            *r == old(self).x,
            *final(self) == (Vec2 { x: *final(r), y: old(self).y }),
    {
        &mut self.x
    }

    /// A mutable borrow of the y coordinate.
    pub fn mut_y(&mut self) -> (r: &mut i64)
        ensures
            *r == old(self).y,
            *final(self) == (Vec2 { x: old(self).x, y: *final(r) }),
    {
        &mut self.y
    }

    /// Component-wise sum.
    pub fn add(self, other: Vec2) -> (r: Vec2)
        requires
            i64::MIN <= self.x + other.x <= i64::MAX,
            i64::MIN <= self.y + other.y <= i64::MAX,
        ensures
            r.x == self.x + other.x,
            r.y == self.y + other.y,
    {
        Vec2 { x: self.x + other.x, y: self.y + other.y }
    }

    /// Component-wise difference.
    pub fn sub(self, other: Vec2) -> (r: Vec2)
        requires
            i64::MIN <= self.x - other.x <= i64::MAX,
            i64::MIN <= self.y - other.y <= i64::MAX,
        ensures
            r.x == self.x - other.x,
            r.y == self.y - other.y,
    {
        Vec2 { x: self.x - other.x, y: self.y - other.y }
    }

    /// The vector scaled by a nano-unit factor (`SCALE` is the identity).
    pub fn mul(self, factor: i64) -> (r: Vec2)
        requires
            i64::MIN <= mul_div_scale(self.x as int, factor as int) <= i64::MAX,
            i64::MIN <= mul_div_scale(self.y as int, factor as int) <= i64::MAX,
        ensures
            r.x == mul_div_scale(self.x as int, factor as int),
            r.y == mul_div_scale(self.y as int, factor as int),
    {
        let x: i128 = crate::fixed::scaled_product_wide(self.x as i128, factor as i128);
        let y: i128 = crate::fixed::scaled_product_wide(self.y as i128, factor as i128);
        Vec2 { x: x as i64, y: y as i64 }
    }

    /// The vector divided by a nano-unit factor (`SCALE` is the identity).
    pub fn div(self, factor: i64) -> (r: Vec2)
        requires
            factor != 0,
            i64::MIN <= div_scale(self.x as int, factor as int) <= i64::MAX,
            i64::MIN <= div_scale(self.y as int, factor as int) <= i64::MAX,
        ensures
            r.x == div_scale(self.x as int, factor as int),
            r.y == div_scale(self.y as int, factor as int),
    {
        let x: i128 = crate::fixed::scaled_quotient(self.x as i128, factor as i128);
        let y: i128 = crate::fixed::scaled_quotient(self.y as i128, factor as i128);
        Vec2 { x: x as i64, y: y as i64 }
    }

    /// The opposite vector.
    pub fn neg(self) -> (r: Vec2)
        requires
            self.x != i64::MIN,
            self.y != i64::MIN,
        ensures
            r.x == -self.x,
            r.y == -self.y,
    {
        Vec2 { x: -self.x, y: -self.y }
    }

    /// The dot product, in squared nanometres.
    pub fn dot(&self, other: &Vec2) -> (r: i128)
        requires
            i128::MIN <= self.x * other.x + self.y * other.y <= i128::MAX,
        ensures
            r == self.x * other.x + self.y * other.y,
    {
        assert(abs_int((self.x as int) * (other.x as int)) <= 0x8000_0000_0000_0000
            * 0x8000_0000_0000_0000) by (nonlinear_arith)
            requires
                abs_int(self.x as int) <= 0x8000_0000_0000_0000,
                abs_int(other.x as int) <= 0x8000_0000_0000_0000,
        ;
        assert(abs_int((self.y as int) * (other.y as int)) <= 0x8000_0000_0000_0000
            * 0x8000_0000_0000_0000) by (nonlinear_arith)
            requires
                abs_int(self.y as int) <= 0x8000_0000_0000_0000,
                abs_int(other.y as int) <= 0x8000_0000_0000_0000,
        ;
        (self.x as i128) * (other.x as i128) + (self.y as i128) * (other.y as i128)
    }

    /// The squared length, in squared nanometres.
    pub fn mag_sq(&self) -> (r: i128)
        requires
            mag_sq_spec(self.x as int, self.y as int) <= i128::MAX,
        ensures
            r == mag_sq_spec(self.x as int, self.y as int),
            r >= 0,
    {
        assert((self.x as int) * (self.x as int) >= 0) by (nonlinear_arith);
        assert((self.y as int) * (self.y as int) >= 0) by (nonlinear_arith);
        self.dot(self)
    }

    /// The length in nanometres, rounded down to the nearest integer.
    pub fn mag(&self) -> (r: u64)
        requires
            mag_sq_spec(self.x as int, self.y as int) <= i128::MAX,
        ensures
            r == crate::fixed::sqrt_floor(mag_sq_spec(self.x as int, self.y as int)),
            (r as int) * (r as int) <= mag_sq_spec(self.x as int, self.y as int),
            mag_sq_spec(self.x as int, self.y as int) < (r as int + 1) * (r as int + 1),
    {
        let sq: i128 = self.mag_sq();
        crate::fixed::isqrt(sq as u128)
    }

    /// The unit vector with this vector's direction, in nano units.
    /// A zero vector has no direction: callers must rule it out first.
    pub fn normalised(self) -> (r: Vec2)
        requires
            mag_sq_spec(self.x as int, self.y as int) <= i128::MAX,
            !(self.x == 0 && self.y == 0),
        ensures
            r.x == div_scale(
                self.x as int,
                crate::fixed::sqrt_floor(mag_sq_spec(self.x as int, self.y as int)),
            ),
            r.y == div_scale(
                self.y as int,
                crate::fixed::sqrt_floor(mag_sq_spec(self.x as int, self.y as int)),
            ),
            abs_int(r.x as int) <= SCALE as int,
            abs_int(r.y as int) <= SCALE as int,
    {
        let m: u64 = self.mag();
        proof {
            assert(m as int > 0) by {
                if m == 0 {
                    assert(mag_sq_spec(self.x as int, self.y as int) < 1);
                    assert((self.x as int) * (self.x as int) >= 1 || (self.y as int) * (self.y
                        as int) >= 1) by (nonlinear_arith)
                        requires
                            !(self.x as int == 0 && self.y as int == 0),
                    ;
                    assert((self.x as int) * (self.x as int) >= 0) by (nonlinear_arith);
                    assert((self.y as int) * (self.y as int) >= 0) by (nonlinear_arith);
                }
            }
        }
        let x: i128 = crate::fixed::scaled_quotient(self.x as i128, m as i128);
        let y: i128 = crate::fixed::scaled_quotient(self.y as i128, m as i128);
        proof {
            lemma_component_ratio_bounded(self.x as int, self.y as int, m as int);
        }
        Vec2 { x: x as i64, y: y as i64 }
    }
}

impl From<[i64; 2]> for Vec2 {
    /// A vector from an `[x, y]` coordinate pair.
    fn from(val: [i64; 2]) -> (r: Vec2)
        ensures
            r == (Vec2 { x: val[0], y: val[1] }),
    {
        Vec2 { x: val[0], y: val[1] }
    }
}

impl vstd::std_specs::convert::FromSpecImpl<[i64; 2]> for Vec2 {
    open spec fn obeys_from_spec() -> bool {
        true
    }

    open spec fn from_spec(val: [i64; 2]) -> Vec2 {
        Vec2 { x: val[0], y: val[1] }
    }
}

/// Each coordinate of a vector is at most the vector's rounded length, so
/// normalising never produces a component beyond one unit.
proof fn lemma_component_ratio_bounded(x: int, y: int, m: int)
    requires
        0 < m,
        mag_sq_spec(x, y) < (m + 1) * (m + 1),
    ensures
        abs_int(div_scale(x, m)) <= SCALE as int,
        abs_int(div_scale(y, m)) <= SCALE as int,
{
    assert(abs_int(x) <= m && abs_int(y) <= m) by (nonlinear_arith)
        requires
            0 < m,
            x * x + y * y < (m + 1) * (m + 1),
    ;
    assert(abs_int(x) * (SCALE as int) <= m * (SCALE as int)) by (nonlinear_arith)
        requires
            abs_int(x) <= m,
            SCALE as int > 0,
    ;
    assert(abs_int(y) * (SCALE as int) <= m * (SCALE as int)) by (nonlinear_arith)
        requires
            abs_int(y) <= m,
            SCALE as int > 0,
    ;
    assert(m * (SCALE as int) / m == SCALE as int) by (nonlinear_arith)
        requires
            0 < m,
    ;
    vstd::arithmetic::div_mod::lemma_div_is_ordered(
        abs_int(x) * (SCALE as int),
        m * (SCALE as int),
        m,
    );
    vstd::arithmetic::div_mod::lemma_div_is_ordered(
        abs_int(y) * (SCALE as int),
        m * (SCALE as int),
        m,
    );
    assert(abs_int(x) * (SCALE as int) / m >= 0) by {
        vstd::arithmetic::div_mod::lemma_div_pos_is_pos(abs_int(x) * (SCALE as int), m);
        assert(abs_int(x) * (SCALE as int) >= 0) by (nonlinear_arith)
            requires
                abs_int(x) >= 0,
        ;
    }
    assert(abs_int(y) * (SCALE as int) / m >= 0) by {
        vstd::arithmetic::div_mod::lemma_div_pos_is_pos(abs_int(y) * (SCALE as int), m);
        assert(abs_int(y) * (SCALE as int) >= 0) by (nonlinear_arith)
            requires
                abs_int(y) >= 0,
        ;
    }
}

} // verus!
