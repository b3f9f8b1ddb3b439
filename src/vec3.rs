//! Three-component vectors with integer coordinates.
//!
//! Every operation is exact: a result is the mathematical value of the
//! operation on the coordinates, and each operation requires that value to
//! fit the coordinate type.
use vstd::prelude::*;

verus! {

/// Whether an integer fits in an `i64`.
pub open spec fn fits(v: int) -> bool {
    i64::MIN <= v && v <= i64::MAX
}

/// A vector (or point) of three integer coordinates.
#[derive(Clone, Copy, Debug, PartialEq, Eq, Structural)]
pub struct Vec3 {
    pub x: i64,
    pub y: i64,
    pub z: i64,
}

/// Dot product of the mathematical vectors.
pub open spec fn dot(a: Vec3, b: Vec3) -> int {
    a.x * b.x + a.y * b.y + a.z * b.z
}

/// Squared Euclidean length.
pub open spec fn norm_sq(v: Vec3) -> int {
    v.x * v.x + v.y * v.y + v.z * v.z
}

/// Coordinates of the right-handed cross product.
pub open spec fn cross_x(a: Vec3, b: Vec3) -> int {
    a.y * b.z - a.z * b.y
}

pub open spec fn cross_y(a: Vec3, b: Vec3) -> int {
    a.z * b.x - a.x * b.z
}

pub open spec fn cross_z(a: Vec3, b: Vec3) -> int {
    a.x * b.y - a.y * b.x
}

/// The coordinate at position `i` (0, 1, 2 for x, y, z).
pub open spec fn coord(v: Vec3, i: int) -> int {
    if i == 0 {
        v.x as int
    } else if i == 1 {
        v.y as int
    } else {
        v.z as int
    }
}

/// Whether every coordinate lies in `[-b, b]`.
pub open spec fn bounded(v: Vec3, b: nat) -> bool {
    -b <= v.x <= b && -b <= v.y <= b && -b <= v.z <= b
}

/// A product of two bounded integers is bounded by the product of the bounds.
pub proof fn lemma_mul_bounds(x: int, y: int, bx: nat, by: nat)
    requires
        -bx <= x <= bx,
        -by <= y <= by,
    ensures
        -(bx * by) <= x * y <= bx * by,
{
    assert(-(bx * by) <= x * y <= bx * by) by (nonlinear_arith)
        requires
            -bx <= x <= bx,
            -by <= y <= by,
    ;
}

/// The dot product of bounded vectors is bounded.
pub proof fn lemma_dot_bounds(u: Vec3, v: Vec3, bu: nat, bv: nat)
    requires
        bounded(u, bu),
        bounded(v, bv),
    ensures
        -3 * (bu * bv) <= dot(u, v) <= 3 * (bu * bv),
{
    lemma_mul_bounds(u.x as int, v.x as int, bu, bv);
    lemma_mul_bounds(u.y as int, v.y as int, bu, bv);
    lemma_mul_bounds(u.z as int, v.z as int, bu, bv);
}

/// Whether every coordinate of the sum fits.
pub open spec fn add_fits(a: Vec3, b: Vec3) -> bool {
    fits(a.x + b.x) && fits(a.y + b.y) && fits(a.z + b.z)
}

/// Whether every coordinate of the difference fits.
pub open spec fn sub_fits(a: Vec3, b: Vec3) -> bool {
    fits(a.x - b.x) && fits(a.y - b.y) && fits(a.z - b.z)
}

/// Whether every coordinate of `v * t` fits.
pub open spec fn scale_fits(v: Vec3, t: int) -> bool {
    fits(v.x * t) && fits(v.y * t) && fits(v.z * t)
}

/// A product of two `i64` values, computed without overflow in `i128`.
fn wide_mul(a: i64, b: i64) -> (r: i128)
    ensures
        r == a * b,
        -0x4000_0000_0000_0000_0000_0000_0000_0000 <= r <= 0x4000_0000_0000_0000_0000_0000_0000_0000,
{
    proof {
        let (ai, bi) = (a as int, b as int);
        assert(-0x8000_0000_0000_0000 <= ai <= 0x7fff_ffff_ffff_ffff);
        assert(-0x4000_0000_0000_0000_0000_0000_0000_0000 <= ai * bi
            <= 0x4000_0000_0000_0000_0000_0000_0000_0000) by (nonlinear_arith)
            requires
                -0x8000_0000_0000_0000 <= ai <= 0x7fff_ffff_ffff_ffff,
                -0x8000_0000_0000_0000 <= bi <= 0x7fff_ffff_ffff_ffff,
        ;
    }
    (a as i128) * (b as i128)
}

/// The sum of three wide products, as an `i64`, where the exact sum fits.
fn sum3(p: i128, q: i128, s: i128) -> (r: i64)
    requires
        -0x4000_0000_0000_0000_0000_0000_0000_0000 <= p <= 0x4000_0000_0000_0000_0000_0000_0000_0000,
        -0x4000_0000_0000_0000_0000_0000_0000_0000 <= q <= 0x4000_0000_0000_0000_0000_0000_0000_0000,
        -0x4000_0000_0000_0000_0000_0000_0000_0000 <= s <= 0x4000_0000_0000_0000_0000_0000_0000_0000,
        fits(p + q + s),
    ensures
        r == p + q + s,
{
    (p + q + s) as i64
}

impl Vec3 {
    pub fn new(x: i64, y: i64, z: i64) -> (r: Vec3)
        ensures
            r.x == x && r.y == y && r.z == z,
    {
        Vec3 { x, y, z }
    }

    /// The coordinate at position `i`: 0 is x, 1 is y, 2 is z.
    pub fn index(&self, i: usize) -> (r: i64)
        requires
            i < 3,
        ensures
            r == coord(*self, i as int),
    {
        if i == 0 {
            self.x
        } else if i == 1 {
            self.y
        } else {
            self.z
        }
    }

    pub fn neg(self) -> (r: Vec3)
        requires
            fits(-self.x) && fits(-self.y) && fits(-self.z),
        ensures
            r.x == -self.x && r.y == -self.y && r.z == -self.z,
    {
        Vec3 { x: -self.x, y: -self.y, z: -self.z }
    }

    pub fn add(self, rhs: Vec3) -> (r: Vec3)
        requires
            add_fits(self, rhs),
        ensures
            r.x == self.x + rhs.x && r.y == self.y + rhs.y && r.z == self.z + rhs.z,
    {
        Vec3 { x: self.x + rhs.x, y: self.y + rhs.y, z: self.z + rhs.z }
    }

    pub fn sub(self, rhs: Vec3) -> (r: Vec3)
        requires
            sub_fits(self, rhs),
        ensures
            r.x == self.x - rhs.x && r.y == self.y - rhs.y && r.z == self.z - rhs.z,
    {
        Vec3 { x: self.x - rhs.x, y: self.y - rhs.y, z: self.z - rhs.z }
    }

    /// Scales every coordinate by `t`.
    pub fn mul(self, t: i64) -> (r: Vec3)
        requires
            scale_fits(self, t as int),
        ensures
            r.x == self.x * t && r.y == self.y * t && r.z == self.z * t,
    {
        Vec3 { x: self.x * t, y: self.y * t, z: self.z * t }
    }

    pub fn add_assign(&mut self, rhs: Vec3)
        requires
            add_fits(*old(self), rhs),
        ensures
            final(self).x == old(self).x + rhs.x,
            final(self).y == old(self).y + rhs.y,
            final(self).z == old(self).z + rhs.z,
    {
        self.x = self.x + rhs.x;
        self.y = self.y + rhs.y;
        self.z = self.z + rhs.z;
    }

    pub fn mul_assign(&mut self, t: i64)
        requires
            scale_fits(*old(self), t as int),
        ensures
            final(self).x == old(self).x * t,
            final(self).y == old(self).y * t,
            final(self).z == old(self).z * t,
    {
        self.x = self.x * t;
        self.y = self.y * t;
        self.z = self.z * t;
    }

    /// Squared length `x² + y² + z²`.
    pub fn length_squared(&self) -> (r: i64)
        requires
            fits(norm_sq(*self)),
        ensures
            r == norm_sq(*self),
    {
        sum3(wide_mul(self.x, self.x), wide_mul(self.y, self.y), wide_mul(self.z, self.z))
    }
}

/// Component-wise product.
pub fn get_hadamard_prod(lhs: &Vec3, rhs: &Vec3) -> (r: Vec3)
    requires
        fits(lhs.x * rhs.x) && fits(lhs.y * rhs.y) && fits(lhs.z * rhs.z),
    ensures
        r.x == lhs.x * rhs.x && r.y == lhs.y * rhs.y && r.z == lhs.z * rhs.z,
{
    Vec3 { x: lhs.x * rhs.x, y: lhs.y * rhs.y, z: lhs.z * rhs.z }
}

pub fn get_dot_prod(lhs: &Vec3, rhs: &Vec3) -> (r: i64)
    requires
        fits(dot(*lhs, *rhs)),
    ensures
        r == dot(*lhs, *rhs),
{
    sum3(wide_mul(lhs.x, rhs.x), wide_mul(lhs.y, rhs.y), wide_mul(lhs.z, rhs.z))
}

/// Difference of two wide products, as an `i64`, where the exact value fits.
fn diff2(p: i128, q: i128) -> (r: i64)
    requires
        -0x4000_0000_0000_0000_0000_0000_0000_0000 <= p <= 0x4000_0000_0000_0000_0000_0000_0000_0000,
        -0x4000_0000_0000_0000_0000_0000_0000_0000 <= q <= 0x4000_0000_0000_0000_0000_0000_0000_0000,
        fits(p - q),
    ensures
        r == p - q,
{
    (p - q) as i64
}

/// Right-handed cross product.
pub fn get_cross_prod(lhs: &Vec3, rhs: &Vec3) -> (r: Vec3)
    requires
        fits(cross_x(*lhs, *rhs)) && fits(cross_y(*lhs, *rhs)) && fits(cross_z(*lhs, *rhs)),
    ensures
        r.x == cross_x(*lhs, *rhs) && r.y == cross_y(*lhs, *rhs) && r.z == cross_z(*lhs, *rhs),
{
    Vec3 {
        x: diff2(wide_mul(lhs.y, rhs.z), wide_mul(lhs.z, rhs.y)),
        y: diff2(wide_mul(lhs.z, rhs.x), wide_mul(lhs.x, rhs.z)),
        z: diff2(wide_mul(lhs.x, rhs.y), wide_mul(lhs.y, rhs.x)),
    }
}

/// The squared length of a vector is its dot product with itself.
pub proof fn lemma_length_squared_is_self_dot(v: Vec3)
    ensures
        norm_sq(v) == dot(v, v),
{
}

/// The dot product is commutative.
pub proof fn lemma_dot_commutative(a: Vec3, b: Vec3)
    ensures
        dot(a, b) == dot(b, a),
{
    assert(dot(a, b) == dot(b, a)) by (nonlinear_arith);
}

/// The cross product is anticommutative: each coordinate of `b × a` is the
/// negation of the same coordinate of `a × b`.
pub proof fn lemma_cross_anticommutative(a: Vec3, b: Vec3)
    ensures
        cross_x(a, b) == -cross_x(b, a),
        cross_y(a, b) == -cross_y(b, a),
        cross_z(a, b) == -cross_z(b, a),
{
    assert(cross_x(a, b) == -cross_x(b, a)) by (nonlinear_arith);
    assert(cross_y(a, b) == -cross_y(b, a)) by (nonlinear_arith);
    assert(cross_z(a, b) == -cross_z(b, a)) by (nonlinear_arith);
}

} // verus!
