//! Rays: an origin and a direction, with points along the direction.
use vstd::prelude::*;
use crate::vec3::{fits, Vec3};

verus! {

/// A position, as opposed to a direction; both are plain vectors.
pub type Point3 = Vec3;

/// The point `origin + direction * t`, coordinate by coordinate.
pub open spec fn point_at(orig: Vec3, dir: Vec3, t: int) -> (int, int, int) {
    (orig.x + dir.x * t, orig.y + dir.y * t, orig.z + dir.z * t)
}

/// Whether every coordinate of the point at `t`, and of each partial step
/// that computes it, fits.
pub open spec fn at_fits(orig: Vec3, dir: Vec3, t: int) -> bool {
    fits(dir.x * t) && fits(dir.y * t) && fits(dir.z * t) && fits(orig.x + dir.x * t) && fits(
        orig.y + dir.y * t,
    ) && fits(orig.z + dir.z * t)
}

/// A ray from `orig` along `dir`. The direction may be the zero vector.
#[derive(Clone, Copy, Debug, PartialEq, Eq, Structural)]
pub struct Ray {
    pub orig: Point3,
    pub dir: Vec3,
}

impl Ray {
    pub fn new(orig: Point3, dir: Vec3) -> (r: Ray)
        ensures
            r.orig == orig,
            r.dir == dir,
    {
        Ray { orig, dir }
    }

    /// The point at parameter `t`: `orig + dir * t`. Negative `t` lies behind
    /// the origin.
    pub fn at(&self, t: i64) -> (r: Point3)
        requires
            at_fits(self.orig, self.dir, t as int),
        ensures
            (r.x as int, r.y as int, r.z as int) == point_at(self.orig, self.dir, t as int),
    {
        self.orig.add(self.dir.mul(t))
    }

    pub fn direction(&self) -> (r: &Vec3)
        ensures
            *r == self.dir,
    {
        &self.dir
    }

    pub fn origin(&self) -> (r: &Point3)
        ensures
            *r == self.orig,
    {
        &self.orig
    }
}

/// A ray starts at its origin, and one step along it adds the direction:
/// the point at 0 is the origin and the point at 1 is `origin + direction`.
pub proof fn lemma_at_zero_and_one(orig: Vec3, dir: Vec3)
    ensures
        at_fits(orig, dir, 0) && point_at(orig, dir, 0) == (orig.x as int, orig.y as int, orig.z as int),
        fits(orig.x + dir.x) && fits(orig.y + dir.y) && fits(orig.z + dir.z) ==> at_fits(orig, dir, 1)
            && point_at(orig, dir, 1) == (orig.x + dir.x, orig.y + dir.y, orig.z + dir.z),
{
}

} // verus!
