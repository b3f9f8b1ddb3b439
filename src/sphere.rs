//! The ray–sphere test: the near root of `|origin + t·direction − center|² = radius²`.
use vstd::prelude::*;
use crate::ray::Ray;
use crate::vec3::{bounded, coord, dot, get_dot_prod, lemma_dot_bounds, lemma_mul_bounds, norm_sq, Vec3};

verus! {

/// The largest coordinate that the intersection arithmetic accepts.
pub const COORD_LIMIT: i64 = 8192;

/// A sphere given by its center and radius.
#[derive(Clone, Copy, Debug, PartialEq, Eq, Structural)]
pub struct Sphere {
    pub center: Vec3,
    pub radius: i64,
}

/// Why a ray cannot be tested or shaded.
#[derive(Clone, Copy, Debug, PartialEq, Eq, Structural)]
pub enum RayError {
    /// The direction is the zero vector, so the quadratic's leading
    /// coefficient (and the direction's length) is zero.
    ZeroDirection,
}

/// The near root `t = (h − √discriminant) / a` of the intersection
/// quadratic, kept exact as its three integers.
#[derive(Clone, Copy, Debug, PartialEq, Eq, Structural)]
pub struct NearRoot {
    pub a: i64,
    pub h: i64,
    pub discriminant: i64,
}

/// Whether a ray and a sphere are small enough for exact arithmetic.
pub open spec fn in_limits(s: Sphere, r: Ray) -> bool {
    bounded(r.orig, COORD_LIMIT as nat) && bounded(r.dir, COORD_LIMIT as nat) && bounded(
        s.center,
        COORD_LIMIT as nat,
    ) && 0 <= s.radius <= COORD_LIMIT
}

/// `center − origin`, coordinate by coordinate, as the vector that the
/// test works with.
pub open spec fn to_center(s: Sphere, r: Ray) -> Vec3 {
    Vec3 {
        x: (s.center.x - r.orig.x) as i64,
        y: (s.center.y - r.orig.y) as i64,
        z: (s.center.z - r.orig.z) as i64,
    }
}

/// `a = direction · direction`.
pub open spec fn quad_a(r: Ray) -> int {
    norm_sq(r.dir)
}

/// `h = direction · (center − origin)`.
pub open spec fn quad_h(s: Sphere, r: Ray) -> int {
    dot(r.dir, to_center(s, r))
}

/// `c = |center − origin|² − radius²`.
pub open spec fn quad_c(s: Sphere, r: Ray) -> int {
    norm_sq(to_center(s, r)) - s.radius * s.radius
}

/// `h² − a·c`.
pub open spec fn discriminant(s: Sphere, r: Ray) -> int {
    quad_h(s, r) * quad_h(s, r) - quad_a(r) * quad_c(s, r)
}

/// Whether `(h − √d) / a > 0` for `a > 0`, `d >= 0`: that is `h > √d`.
pub open spec fn root_ahead(h: int, d: int) -> bool {
    h > 0 && h * h > d
}

/// Coordinate `i` of `a · (hit − center) + d_i · √disc`, the part of the
/// scaled offset from the center to the near hit that holds no root:
/// `a · (hit − center) = (h·d − a·oc) − d·√disc`.
pub open spec fn hit_offset(s: Sphere, r: Ray, i: int) -> int {
    quad_h(s, r) * coord(r.dir, i) - quad_a(r) * coord(to_center(s, r), i)
}

/// The near hit lies on the sphere, so the normal `(hit − center) / radius`
/// has length 1: writing `a · (hit − center)` as `o − d·√disc` with
/// `o = h·d − a·oc`, the two parts are orthogonal and
/// `|o|² + disc · |d|² = (a · radius)²`.
pub proof fn lemma_hit_normal_unit(s: Sphere, r: Ray)
    ensures
        hit_offset(s, r, 0) * r.dir.x + hit_offset(s, r, 1) * r.dir.y + hit_offset(s, r, 2) * r.dir.z
            == 0,
        hit_offset(s, r, 0) * hit_offset(s, r, 0) + hit_offset(s, r, 1) * hit_offset(s, r, 1)
            + hit_offset(s, r, 2) * hit_offset(s, r, 2) + discriminant(s, r) * quad_a(r) == (quad_a(
            r,
        ) * s.radius) * (quad_a(r) * s.radius),
{
    let oc = to_center(s, r);
    let (dx, dy, dz) = (r.dir.x as int, r.dir.y as int, r.dir.z as int);
    let (ox, oy, oz) = (oc.x as int, oc.y as int, oc.z as int);
    let rad = s.radius as int;
    let a = quad_a(r);
    let h = quad_h(s, r);
    let c = quad_c(s, r);
    assert(a == dx * dx + dy * dy + dz * dz);
    assert(h == dx * ox + dy * oy + dz * oz);
    assert(c == ox * ox + oy * oy + oz * oz - rad * rad);
    let (px, py, pz) = (h * dx - a * ox, h * dy - a * oy, h * dz - a * oz);
    assert(hit_offset(s, r, 0) == px && hit_offset(s, r, 1) == py && hit_offset(s, r, 2) == pz);
    let (sx, sy, sz) = (dx * dx, dy * dy, dz * dz);
    let (qx, qy, qz) = (dx * ox, dy * oy, dz * oz);
    let (tx, ty, tz) = (ox * ox, oy * oy, oz * oz);
    lemma_offset_terms(h, a, dx, ox);
    lemma_offset_terms(h, a, dy, oy);
    lemma_offset_terms(h, a, dz, oz);
    lemma_sum3_scaled(h, sx, sy, sz);
    lemma_sum3_scaled(a, qx, qy, qz);
    lemma_sum3_scaled(h * h, sx, sy, sz);
    lemma_sum3_scaled(h * a, qx, qy, qz);
    lemma_sum3_scaled(a * a, tx, ty, tz);
    assert(px * dx + py * dy + pz * dz == 0);
    assert(px * px + py * py + pz * pz == (h * h) * a - 2 * ((h * a) * h) + (a * a) * (tx + ty + tz));
    assert((h * h - a * c) * a == (h * h) * a - (a * a) * (tx + ty + tz) + (a * a) * (rad * rad))
        by (nonlinear_arith)
        requires
            c == tx + ty + tz - rad * rad,
    ;
    assert((h * a) * h == (h * h) * a) by (nonlinear_arith);
    assert((a * rad) * (a * rad) == (a * a) * (rad * rad)) by (nonlinear_arith);
}

/// `(h·d − a·o)·d` and `(h·d − a·o)²`, expanded.
proof fn lemma_offset_terms(h: int, a: int, d: int, o: int)
    ensures
        (h * d - a * o) * d == h * (d * d) - a * (d * o),
        (h * d - a * o) * (h * d - a * o) == (h * h) * (d * d) - 2 * ((h * a) * (d * o)) + (a * a) * (o
            * o),
{
    assert((h * d - a * o) * d == h * (d * d) - a * (d * o)) by (nonlinear_arith);
    let (u, v) = (h * d, a * o);
    assert((u - v) * (u - v) == u * u - 2 * (u * v) + v * v) by (nonlinear_arith);
    assert(u * u == (h * h) * (d * d)) by (nonlinear_arith)
        requires
            u == h * d,
    ;
    assert(u * v == (h * a) * (d * o)) by (nonlinear_arith)
        requires
            u == h * d,
            v == a * o,
    ;
    assert(v * v == (a * a) * (o * o)) by (nonlinear_arith)
        requires
            v == a * o,
    ;
}

/// `k·x + k·y + k·z = k·(x + y + z)`.
proof fn lemma_sum3_scaled(k: int, x: int, y: int, z: int)
    ensures
        k * x + k * y + k * z == k * (x + y + z),
{
    assert(k * x + k * y + k * z == k * (x + y + z)) by (nonlinear_arith);
}

impl NearRoot {
    /// Whether the root lies ahead of the ray's origin (`t > 0`).
    pub fn is_ahead(&self) -> (r: bool)
        requires
            0 <= self.h * self.h <= i64::MAX,
        ensures
            r == root_ahead(self.h as int, self.discriminant as int),
    {
        self.h > 0 && self.h * self.h > self.discriminant
    }
}

/// Tests `r` against the sphere `center`, `radius`.
///
/// A zero direction is refused; a negative discriminant is a miss
/// (`None`); otherwise the near root is returned, ahead of the origin or not.
pub fn hit_sphere(center: Vec3, radius: i64, r: &Ray) -> (res: Result<Option<NearRoot>, RayError>)
    requires
        in_limits(Sphere { center, radius }, *r),
    ensures
        ({
            let s = Sphere { center, radius };
            match res {
                Err(e) => e == RayError::ZeroDirection && quad_a(*r) == 0,
                Ok(None) => quad_a(*r) > 0 && discriminant(s, *r) < 0,
                Ok(Some(root)) => quad_a(*r) > 0 && discriminant(s, *r) >= 0 && root.a == quad_a(*r)
                    && root.h == quad_h(s, *r) && root.discriminant == discriminant(s, *r),
            }
        }),
        quad_a(*r) == 0 <==> res is Err,
{
    let ghost s = Sphere { center, radius };
    let oc = center.sub(r.orig);
    assert(oc == to_center(s, *r));
    proof {
        lemma_dot_bounds(r.dir, r.dir, 8192, 8192);
        lemma_dot_bounds(r.dir, oc, 8192, 16384);
        lemma_dot_bounds(oc, oc, 16384, 16384);
        lemma_mul_bounds(radius as int, radius as int, 8192, 8192);
    }
    let a = r.dir.length_squared();
    let h = get_dot_prod(&r.dir, &oc);
    let c = oc.length_squared() - radius * radius;
    proof {
        lemma_mul_bounds(h as int, h as int, 402653184, 402653184);
        lemma_mul_bounds(a as int, c as int, 201326592, 872415232);
    }
    let disc = h * h - a * c;
    assert(a == quad_a(*r) && h == quad_h(s, *r) && c == quad_c(s, *r));
    assert(disc == discriminant(s, *r));
    assert(r.dir.x * r.dir.x + r.dir.y * r.dir.y + r.dir.z * r.dir.z >= 0) by (nonlinear_arith);
    if a == 0 {
        Err(RayError::ZeroDirection)
    } else if disc < 0 {
        Ok(None)
    } else {
        Ok(Some(NearRoot { a, h, discriminant: disc }))
    }
}

} // verus!
