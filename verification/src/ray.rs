//! A ray: origin plus direction, evaluated at a scalar parameter.

use vstd::prelude::*;

verus! {

use crate::vec3::{Point3, Vec3, s_vadd, s_vsmul};

/// A half-line through `origin` along `direction`; the direction is
/// not necessarily of unit length.
#[derive(Clone, Copy, Debug, PartialEq, Eq, Structural)]
pub struct Ray {
    pub origin: Point3,
    pub direction: Vec3,
}

/// Specification twin of `Ray::ray_at`.
pub open spec fn s_ray_at(r: Ray, t: int) -> Vec3 {
    s_vadd(r.origin, s_vsmul(r.direction, t))
}

impl Ray {
    /// Build a ray from an origin and a direction.
    pub fn new(a: Point3, b: Vec3) -> (r: Ray)
        ensures
            r == (Ray { origin: a, direction: b }),
    {
        Ray { origin: a, direction: b }
    }

    /// The ray's origin.
    pub fn origin(&self) -> (r: Point3)
        ensures
            r == self.origin,
    {
        self.origin
    }

    /// The ray's direction.
    pub fn direction(&self) -> (r: Vec3)
        ensures
            r == self.direction,
    {
        self.direction
    }

    /// The point reached after travelling `t` along the direction.
    pub fn ray_at(&self, t: i64) -> (r: Vec3)
        ensures
            r == s_ray_at(*self, t as int),
    {
        Vec3::add(self.origin, self.direction.scalar_mul(t))
    }
}

} // verus!
