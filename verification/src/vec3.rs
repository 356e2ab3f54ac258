//! Three-component fixed-point vectors.

use crate::fixed::{
    ceil_sqrt, div_toward_zero, lemma_ceil_sqrt_exists, lemma_div_toward_zero,
    lemma_rescaled_length, magnitude, product, quotient, sqrt_ceil, UNIT, WORLD_LIMIT,
};
use vstd::prelude::*;

verus! {

/// How far below `UNIT` the length of a normalised vector may fall by
/// rounding: five millionths.
pub const UNIT_SLACK: i64 = 5;

/// A vector of three fixed-point scalars; `y` points up.
#[derive(Clone, Copy, Debug, PartialEq, Eq, Structural)]
pub struct Vec3 {
    pub x: i64,
    pub y: i64,
    pub z: i64,
}

impl Vec3 {
    /// The squared length, in squared millionths.
    pub open spec fn length_squared(self) -> int {
        self.x * self.x + self.y * self.y + self.z * self.z
    }

    /// The squared length of the horizontal part `(x, 0, z)`.
    pub open spec fn horizontal_squared(self) -> int {
        self.x * self.x + self.z * self.z
    }

    /// Every component has magnitude at most `bound`.
    pub open spec fn within(self, bound: int) -> bool {
        &&& magnitude(self.x as int) <= bound
        &&& magnitude(self.y as int) <= bound
        &&& magnitude(self.z as int) <= bound
    }

    /// All components are zero.
    pub open spec fn spec_is_zero(&self) -> bool {
        self.x == 0 && self.y == 0 && self.z == 0
    }

    /// The length is one, up to rounding: at most `UNIT`, and no more than
    /// `UNIT_SLACK` below it.
    pub open spec fn is_unit(self) -> bool {
        (UNIT - UNIT_SLACK) * (UNIT - UNIT_SLACK) <= self.length_squared() <= UNIT * UNIT
    }

    /// The vector is zero or of length one: never partially normalised.
    pub open spec fn is_unit_or_zero(self) -> bool {
        self.spec_is_zero() || self.is_unit()
    }

    /// The horizontal part `(x, 0, z)`.
    pub open spec fn spec_flattened(&self) -> Vec3 {
        Vec3 { x: self.x, y: 0, z: self.z }
    }

    /// The direction of `self` as a vector of length at most `UNIT`: each
    /// component times `UNIT`, divided by the length rounded up. The zero
    /// vector, and a vector with a component beyond `WORLD_LIMIT`, give zero.
    pub open spec fn normalized(self) -> Vec3 {
        if self.spec_is_zero() || !self.within(WORLD_LIMIT as int) {
            Vec3 { x: 0, y: 0, z: 0 }
        } else {
            let len = ceil_sqrt(self.length_squared() * (UNIT * UNIT));
            Vec3 {
                x: div_toward_zero(self.x * (UNIT * UNIT), len) as i64,
                y: div_toward_zero(self.y * (UNIT * UNIT), len) as i64,
                z: div_toward_zero(self.z * (UNIT * UNIT), len) as i64,
            }
        }
    }

    /// The vector with the given components.
    pub fn new(x: i64, y: i64, z: i64) -> (v: Vec3)
        ensures
            v == (Vec3 { x, y, z }),
    {
        Vec3 { x, y, z }
    }

    /// The zero vector.
    pub fn zero() -> (v: Vec3)
        ensures
            v == (Vec3 { x: 0, y: 0, z: 0 }),
            v.spec_is_zero(),
    {
        Vec3 { x: 0, y: 0, z: 0 }
    }

    /// The horizontal part `(x, 0, z)`.
    #[verifier::when_used_as_spec(spec_flattened)]
    pub fn flattened(&self) -> (v: Vec3)
        ensures
            v == self.spec_flattened(),
    {
        Vec3 { x: self.x, y: 0, z: self.z }
    }

    /// Whether all components are zero.
    #[verifier::when_used_as_spec(spec_is_zero)]
    pub fn is_zero(&self) -> (b: bool)
        ensures
            b == self.spec_is_zero(),
    {
        self.x == 0 && self.y == 0 && self.z == 0
    }

    /// Whether every component has magnitude at most `bound`.
    pub fn is_within(&self, bound: i64) -> (b: bool)
        requires
            bound >= 0,
        ensures
            b == self.within(bound as int),
    {
        -bound <= self.x && self.x <= bound && -bound <= self.y && self.y <= bound && -bound
            <= self.z && self.z <= bound
    }

    /// Whether the vector is zero or of length one up to rounding.
    pub fn is_direction(&self) -> (b: bool)
        ensures
            b == (self.within(UNIT as int) && self.is_unit_or_zero()),
    {
        if !self.is_within(UNIT) {
            return false;
        }
        if self.is_zero() {
            return true;
        }
        let xx = product(self.x, self.x);
        let yy = product(self.y, self.y);
        let zz = product(self.z, self.z);
        proof {
            lemma_square_bounds(self.x as int, UNIT as int);
            lemma_square_bounds(self.y as int, UNIT as int);
            lemma_square_bounds(self.z as int, UNIT as int);
            assert((UNIT - UNIT_SLACK) * (UNIT - UNIT_SLACK) == 999_990_000_025)
                by (nonlinear_arith);
        }
        let len_sq: i128 = xx + yy + zz;
        999_990_000_025 <= len_sq && len_sq <= 1_000_000_000_000
    }

    /// The unit-length direction of `self`, or zero where it has none: for
    /// the zero vector, and for one with a component beyond `WORLD_LIMIT`.
    pub fn normalize_or_zero(&self) -> (w: Vec3)
        ensures
            w == self.normalized(),
            w.within(UNIT as int),
            w.is_unit_or_zero(),
            w.spec_is_zero() <==> self.spec_is_zero() || !self.within(WORLD_LIMIT as int),
            self.y == 0 ==> w.y == 0,
    {
        if self.is_zero() || !self.is_within(WORLD_LIMIT) {
            return Vec3::zero();
        }
        proof {
            lemma_normalized_is_unit(*self);
            if self.y == 0 {
                lemma_normalized_stays_level(*self);
            }
        }
        let xx = product(self.x, self.x);
        let yy = product(self.y, self.y);
        let zz = product(self.z, self.z);
        proof {
            lemma_square_bounds(self.x as int, WORLD_LIMIT as int);
            lemma_square_bounds(self.y as int, WORLD_LIMIT as int);
            lemma_square_bounds(self.z as int, WORLD_LIMIT as int);
        }
        let scaled: i128 = (xx + yy + zz) * 1_000_000_000_000;
        assert(scaled == self.length_squared() * (UNIT * UNIT));
        let len = sqrt_ceil(scaled as u128) as i128;
        let wx = quotient((self.x as i128) * 1_000_000_000_000, len);
        let wy = quotient((self.y as i128) * 1_000_000_000_000, len);
        let wz = quotient((self.z as i128) * 1_000_000_000_000, len);
        Vec3 { x: wx as i64, y: wy as i64, z: wz as i64 }
    }
}

/// Normalising a vector that is not zero and lies within `WORLD_LIMIT`
/// gives a vector of length one up to rounding, which is therefore not zero;
/// each of its components is the rounded quotient itself.
pub proof fn lemma_normalized_is_unit(v: Vec3)
    requires
        !v.spec_is_zero(),
        v.within(WORLD_LIMIT as int),
    ensures
        v.normalized().is_unit(),
        !v.normalized().spec_is_zero(),
        v.normalized().within(UNIT as int),
        ceil_sqrt(v.length_squared() * (UNIT * UNIT)) > 0,
        v.normalized().x == div_toward_zero(
            v.x * (UNIT * UNIT),
            ceil_sqrt(v.length_squared() * (UNIT * UNIT)),
        ),
        v.normalized().y == div_toward_zero(
            v.y * (UNIT * UNIT),
            ceil_sqrt(v.length_squared() * (UNIT * UNIT)),
        ),
        v.normalized().z == div_toward_zero(
            v.z * (UNIT * UNIT),
            ceil_sqrt(v.length_squared() * (UNIT * UNIT)),
        ),
{
    let unit2: int = 1_000_000_000_000;
    assert(UNIT * UNIT == 1_000_000_000_000) by (nonlinear_arith);
    lemma_square_bounds(v.x as int, WORLD_LIMIT as int);
    lemma_square_bounds(v.y as int, WORLD_LIMIT as int);
    lemma_square_bounds(v.z as int, WORLD_LIMIT as int);
    let s = v.length_squared();
    let n = s * unit2;
    let len = ceil_sqrt(n);
    lemma_ceil_sqrt_exists(n);
    assert(len >= UNIT) by (nonlinear_arith)
        requires
            len >= 0,
            len * len >= 1_000_000_000_000,
    ;
    lemma_rescaled_length(v.x as int, v.y as int, v.z as int, unit2, len, UNIT as int);
    let wx = div_toward_zero(v.x * unit2, len);
    let wy = div_toward_zero(v.y * unit2, len);
    let wz = div_toward_zero(v.z * unit2, len);
    lemma_length_bounds_components(wx, wy, wz, UNIT as int);
    lemma_rounded_down_square(v.x as int, unit2, len);
    lemma_rounded_down_square(v.y as int, unit2, len);
    lemma_rounded_down_square(v.z as int, unit2, len);
    let mx = magnitude(wx);
    let my = magnitude(wy);
    let mz = magnitude(wz);
    let t = (mx + 1) * (mx + 1) + (my + 1) * (my + 1) + (mz + 1) * (mz + 1);
    let l2 = len * len;
    let q = (len - 1) * (len - 1);
    assert(t * l2 == ((mx + 1) * (mx + 1)) * l2 + ((my + 1) * (my + 1)) * l2 + ((mz + 1) * (mz
        + 1)) * l2) by (nonlinear_arith)
        requires
            t == (mx + 1) * (mx + 1) + (my + 1) * (my + 1) + (mz + 1) * (mz + 1),
    ;
    assert(s * (unit2 * unit2) == (v.x * v.x) * (unit2 * unit2) + (v.y * v.y) * (unit2 * unit2)
        + (v.z * v.z) * (unit2 * unit2)) by (nonlinear_arith)
        requires
            s == v.x * v.x + v.y * v.y + v.z * v.z,
    ;
    assert(s * (unit2 * unit2) == n * unit2) by (nonlinear_arith)
        requires
            n == s * unit2,
    ;
    assert(t * l2 > q * unit2);
    assert(q == l2 - 2 * len + 1) by (nonlinear_arith)
        requires
            q == (len - 1) * (len - 1),
            l2 == len * len,
    ;
    assert(l2 >= 1_000_000 * len) by (nonlinear_arith)
        requires
            l2 == len * len,
            len >= 1_000_000,
    ;
    assert(t * l2 > 999_998_000_000 * l2);
    assert(t > 999_998_000_000) by (nonlinear_arith)
        requires
            t * l2 > 999_998_000_000 * l2,
            l2 > 0,
    ;
    assert(t == wx * wx + wy * wy + wz * wz + 2 * (mx + my + mz) + 3) by (nonlinear_arith)
        requires
            t == (mx + 1) * (mx + 1) + (my + 1) * (my + 1) + (mz + 1) * (mz + 1),
            mx == wx || mx == -wx,
            my == wy || my == -wy,
            mz == wz || mz == -wz,
    ;
    assert((UNIT - UNIT_SLACK) * (UNIT - UNIT_SLACK) == 999_990_000_025) by (nonlinear_arith);
    let w = v.normalized();
    assert(w.x == wx && w.y == wy && w.z == wz);
    lemma_length_squared_of(w, wx, wy, wz);
    if w.spec_is_zero() {
        lemma_square_bounds(wx, 0);
        lemma_square_bounds(wy, 0);
        lemma_square_bounds(wz, 0);
    }
}

/// Normalising a horizontal vector gives a horizontal vector.
pub proof fn lemma_normalized_stays_level(v: Vec3)
    requires
        v.y == 0,
    ensures
        v.normalized().y == 0,
{
    if !v.spec_is_zero() && v.within(WORLD_LIMIT as int) {
        lemma_normalized_is_unit(v);
        let len = ceil_sqrt(v.length_squared() * (UNIT * UNIT));
        assert(v.y * (UNIT * UNIT) == 0) by (nonlinear_arith)
            requires
                v.y == 0,
        ;
        lemma_div_toward_zero(0, len);
    }
}

/// The squared length of a vector is the sum of the squares of the
/// integers its components hold.
proof fn lemma_length_squared_of(w: Vec3, wx: int, wy: int, wz: int)
    requires
        w.x == wx,
        w.y == wy,
        w.z == wz,
    ensures
        w.length_squared() == wx * wx + wy * wy + wz * wz,
{
    assert(w.x * w.x == wx * wx && w.y * w.y == wy * wy && w.z * w.z == wz * wz)
        by (nonlinear_arith)
        requires
            w.x == wx,
            w.y == wy,
            w.z == wz,
    ;
}

/// A quotient rounded toward zero falls short of the exact quotient by less
/// than one: the square of its magnitude plus one, scaled back up, exceeds
/// the square of the dividend.
pub proof fn lemma_rounded_down_square(a: int, num: int, len: int)
    requires
        num >= 0,
        len > 0,
    ensures
        ({
            let m = magnitude(div_toward_zero(a * num, len));
            ((m + 1) * (m + 1)) * (len * len) > (a * a) * (num * num)
        }),
{
    let m = magnitude(div_toward_zero(a * num, len));
    let p = magnitude(a * num);
    lemma_div_toward_zero(a * num, len);
    assert(((m + 1) * (m + 1)) * (len * len) == ((m + 1) * len) * ((m + 1) * len))
        by (nonlinear_arith);
    assert((a * a) * (num * num) == p * p) by (nonlinear_arith)
        requires
            p == a * num || p == -(a * num),
    ;
    assert(((m + 1) * len) * ((m + 1) * len) > p * p) by (nonlinear_arith)
        requires
            0 <= p < (m + 1) * len,
    ;
}

/// The square of a bounded, nonzero-or-zero integer: nonnegative, at most the
/// square of the bound, and at least one when the integer is not zero.
pub proof fn lemma_square_bounds(a: int, bound: int)
    requires
        magnitude(a) <= bound,
    ensures
        0 <= a * a <= bound * bound,
        a != 0 ==> a * a >= 1,
{
    assert(0 <= a * a <= bound * bound && (a != 0 ==> a * a >= 1)) by (nonlinear_arith)
        requires
            -bound <= a <= bound,
    ;
}

/// A vector whose squared length is at most `cap` squared has no component
/// beyond `cap`.
pub proof fn lemma_length_bounds_components(a: int, b: int, c: int, cap: int)
    requires
        cap >= 0,
        a * a + b * b + c * c <= cap * cap,
    ensures
        magnitude(a) <= cap,
        magnitude(b) <= cap,
        magnitude(c) <= cap,
{
    assert(magnitude(a) <= cap && magnitude(b) <= cap && magnitude(c) <= cap)
        by (nonlinear_arith)
        requires
            cap >= 0,
            a * a + b * b + c * c <= cap * cap,
    ;
}

} // verus!
