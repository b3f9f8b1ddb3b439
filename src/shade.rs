//! Shading: the colour that a ray sees in the one-sphere scene.
//!
//! A ray that meets the sphere ahead of its origin is coloured by the unit
//! surface normal `N` at the near hit, each channel `(N + 1) / 2`. Any other
//! ray sees the sky: with `y` the vertical component of the unit direction and
//! `t = (y + 1) / 2`, the colour blends white at `t = 0` into `(0.5, 0.7, 1.0)`
//! at `t = 1`. Colours are delivered as bytes (see `channel`).
use vstd::prelude::*;
use crate::channel::{channel_byte, is_channel_byte};
use crate::ray::Ray;
use crate::sphere::{
    discriminant, hit_offset, hit_sphere, quad_a, quad_h, root_ahead, to_center, RayError, Sphere, COORD_LIMIT,
};
use crate::vec3::{bounded, coord, lemma_dot_bounds, lemma_mul_bounds, Vec3};

verus! {

/// The largest scene unit that shading accepts.
pub const UNIT_LIMIT: i64 = 4096;

/// A pixel's colour as three bytes.
#[derive(Clone, Copy, Debug, PartialEq, Eq, Structural)]
pub struct Pixel {
    pub r: u8,
    pub g: u8,
    pub b: u8,
}

/// The scene's sphere, center `(0, 0, −1)` and radius `0.5`, in coordinates
/// where one world unit is `2 * unit` steps.
pub open spec fn scene_sphere(unit: int) -> Sphere {
    Sphere { center: Vec3 { x: 0, y: 0, z: (-2 * unit) as i64 }, radius: unit as i64 }
}

impl Sphere {
    /// The scene's sphere at the given scale.
    pub fn scene(unit: i64) -> (s: Sphere)
        requires
            1 <= unit <= UNIT_LIMIT,
        ensures
            s == scene_sphere(unit as int),
    {
        let z = 0 - 2 * unit;
        Sphere { center: Vec3::new(0, 0, z), radius: unit }
    }
}

/// Numerator constant of the normal's channel `i` at the near hit: the
/// channel is `(alpha − d_i·√disc) / (2·a·radius)` with
/// `alpha = a·radius + h·d_i − a·oc_i`.
pub open spec fn normal_alpha(s: Sphere, r: Ray, i: int) -> int {
    quad_a(r) * s.radius + hit_offset(s, r, i)
}

/// Channel `i` of a pixel.
pub open spec fn channel_of(p: Pixel, i: int) -> int {
    if i == 0 {
        p.r as int
    } else if i == 1 {
        p.g as int
    } else {
        p.b as int
    }
}

/// The colour of the normal at the near hit, channel by channel.
pub open spec fn normal_shaded(p: Pixel, s: Sphere, r: Ray) -> bool {
    forall|i: int|
        0 <= i < 3 ==> is_channel_byte(
            #[trigger] channel_of(p, i),
            normal_alpha(s, r, i),
            -coord(r.dir, i),
            discriminant(s, r),
            2 * quad_a(r) * s.radius,
        )
}

/// The sky's colour for the direction of `r`, with `a = |dir|²`: red is
/// `(3a − y·√a) / (4a)`, green `(17a − 3y·√a) / (20a)`, blue `1`.
pub open spec fn sky_shaded(p: Pixel, r: Ray) -> bool {
    let a = quad_a(r);
    let y = r.dir.y as int;
    is_channel_byte(p.r as int, 3 * a, -y, a, 4 * a) && is_channel_byte(
        p.g as int,
        17 * a,
        -3 * y,
        a,
        20 * a,
    ) && is_channel_byte(p.b as int, 1, 0, 0, 1)
}

/// The colour that `r` sees with the sphere `s` in the scene.
pub open spec fn shaded(p: Pixel, s: Sphere, r: Ray) -> bool {
    if discriminant(s, r) >= 0 && root_ahead(quad_h(s, r), discriminant(s, r)) {
        normal_shaded(p, s, r)
    } else {
        sky_shaded(p, r)
    }
}

/// Whether a ray can be shaded exactly.
pub open spec fn shadable(r: Ray) -> bool {
    bounded(r.orig, COORD_LIMIT as nat) && bounded(r.dir, COORD_LIMIT as nat)
}

/// One channel of the normal's colour at the near hit.
fn normal_byte(a: i64, h: i64, radius: i64, d: i64, oc: i64, disc: i64) -> (b: u8)
    requires
        0 < a <= 3 * 8192 * 8192,
        -3 * 8192 * 16384 <= h <= 3 * 8192 * 16384,
        1 <= radius <= 4096,
        -8192 <= d <= 8192,
        -16384 <= oc <= 16384,
        0 <= disc < h * h,
    ensures
        is_channel_byte(b as int, a * radius + h * d - a * oc, -d as int, disc as int, 2 * a * radius),
{
    proof {
        lemma_mul_bounds(a as int, radius as int, 3 * 8192 * 8192, 4096);
        lemma_mul_bounds(h as int, d as int, 3 * 8192 * 16384, 8192);
        lemma_mul_bounds(a as int, oc as int, 3 * 8192 * 8192, 16384);
        lemma_mul_bounds(h as int, h as int, 402653184, 402653184);
        lemma_mul_bounds(-d as int, -d as int, 8192, 8192);
        assert(h * h <= 162129586585337856);
        lemma_mul_bounds((-d) * (-d), disc as int, 67108864, 162129586585337856);
        assert(0 < a * radius) by (nonlinear_arith)
            requires
                0 < a,
                1 <= radius,
        ;
    }
    let ar = a * radius;
    let alpha = ar + h * d - a * oc;
    assert(2 * ar == 2 * a * radius) by (nonlinear_arith)
        requires
            ar == a * radius,
    ;
    channel_byte(alpha, -d, disc, 2 * ar)
}

/// The colour that `r` sees in the scene whose sphere is `scene_sphere(unit)`.
/// A zero direction has no colour.
pub fn ray_color(r: &Ray, unit: i64) -> (res: Result<Pixel, RayError>)
    requires
        shadable(*r),
        1 <= unit <= UNIT_LIMIT,
    ensures
        match res {
            Err(e) => e == RayError::ZeroDirection && quad_a(*r) == 0,
            Ok(p) => quad_a(*r) > 0 && shaded(p, scene_sphere(unit as int), *r),
        },
{
    let s = Sphere::scene(unit);
    let oc = s.center.sub(r.orig);
    assert(oc == to_center(s, *r));
    proof {
        lemma_dot_bounds(r.dir, r.dir, 8192, 8192);
        lemma_dot_bounds(r.dir, oc, 8192, 16384);
    }
    match hit_sphere(s.center, s.radius, r) {
        Err(e) => Err(e),
        Ok(hit) => {
            let a = r.dir.length_squared();
            let ahead = match hit {
                Some(root) => {
                    proof {
                        lemma_mul_bounds(root.h as int, root.h as int, 402653184, 402653184);
                        assert(root.h * root.h <= 162129586585337856);
                        assert(0 <= root.h * root.h) by (nonlinear_arith);
                    }
                    root.is_ahead()
                },
                None => false,
            };
            if ahead {
                let root = hit.unwrap();
                let p = Pixel {
                    r: normal_byte(a, root.h, s.radius, r.dir.x, oc.x, root.discriminant),
                    g: normal_byte(a, root.h, s.radius, r.dir.y, oc.y, root.discriminant),
                    b: normal_byte(a, root.h, s.radius, r.dir.z, oc.z, root.discriminant),
                };
                Ok(p)
            } else {
                let y = r.dir.y;
                proof {
                    assert(0 < a <= 201326592);
                    lemma_mul_bounds(-y as int, -y as int, 8192, 8192);
                    assert((-y) * (-y) <= 67108864);
                    lemma_mul_bounds((-y) * (-y), a as int, 67108864, 201326592);
                    assert((-y) * (-y) * a <= 13510798882111488);
                    lemma_mul_bounds(-3 * y, -3 * y, 24576, 24576);
                    assert((-3 * y) * (-3 * y) <= 603979776);
                    lemma_mul_bounds((-3 * y) * (-3 * y), a as int, 603979776, 201326592);
                    assert((-3 * y) * (-3 * y) * a <= 121597189939003392);
                }
                Ok(Pixel {
                    r: channel_byte(3 * a, -y, a, 4 * a),
                    g: channel_byte(17 * a, -3 * y, a, 20 * a),
                    b: channel_byte(1, 0, 0, 1),
                })
            }
        },
    }
}

} // verus!
