//! Sphere primitive and its analytic ray intersection.

use vstd::prelude::*;

verus! {

use crate::fx::{ONE, s_add, s_sub, s_mul, s_div, s_sqrt};
use crate::hittable::HitRecord;
use crate::interval::{Interval, s_surrounds};
use crate::material::Material;
use crate::ray::{Ray, s_ray_at};
use crate::vec3::{Point3, Vec3, s_dot, s_len2, s_vsdiv, s_vsmul, s_vsub};

/// A sphere with a center, a radius and a surface material.
#[derive(Clone, Copy, Debug, PartialEq, Eq, Structural)]
pub struct Sphere {
    pub center: Point3,
    pub radius: i64,
    pub mat: Material,
}

/// The record a successful sphere hit at parameter `root` produces:
/// the hit point, the unit outward normal oriented against the ray,
/// the side flag, and the sphere's material.
pub open spec fn s_hit_record_at(s: Sphere, r: Ray, root: int) -> HitRecord {
    let p = s_ray_at(r, root);
    let outward = s_vsdiv(s_vsub(p, s.center), s.radius as int);
    let front = s_dot(r.direction, outward) < 0;
    let normal = if front {
        outward
    } else {
        s_vsmul(outward, -(ONE as int))
    };
    HitRecord { p, normal, mat: s.mat, t: root as i64, front_face: front }
}

/// The ray parameter at which the ray first meets the sphere inside
/// `(t_min, t_max)`, if it does: of the two quadratic roots the
/// smaller is preferred, and the larger is taken only when the
/// smaller falls outside the range.  A ray whose squared direction
/// length rounds to zero hits nothing.
pub open spec fn s_sphere_root(s: Sphere, r: Ray, t_min: int, t_max: int) -> Option<int> {
    let oc = s_vsub(s.center, r.origin);
    let a = s_len2(r.direction);
    let h = s_dot(r.direction, oc);
    let c = s_sub(s_len2(oc), s_mul(s.radius as int, s.radius as int));
    let discriminant = s_sub(s_mul(h, h), s_mul(a, c));
    if discriminant < 0 || a == 0 {
        None
    } else {
        let sqrtd = s_sqrt(discriminant);
        let root1 = s_div(s_sub(h, sqrtd), a);
        let root2 = s_div(s_add(h, sqrtd), a);
        if t_min < root1 && root1 < t_max {
            Some(root1)
        } else if t_min < root2 && root2 < t_max {
            Some(root2)
        } else {
            None
        }
    }
}

/// Specification twin of `Sphere::hit`.
pub open spec fn s_sphere_hit(s: Sphere, r: Ray, t_min: int, t_max: int) -> Option<HitRecord> {
    match s_sphere_root(s, r, t_min, t_max) {
        Some(root) => Some(s_hit_record_at(s, r, root)),
        None => None,
    }
}

/// What every accepted sphere hit guarantees: the parameter lies
/// strictly inside the valid range, the record carries the sphere's
/// material and the ray evaluated at the parameter, the side flag is
/// the sign of the angle between ray and outward normal, and a
/// front-face normal points against the ray.
pub proof fn lemma_sphere_hit_props(s: Sphere, r: Ray, t_min: int, t_max: int)
    ensures
        s_sphere_hit(s, r, t_min, t_max) matches Some(rec) ==> ({
            &&& (t_min < rec.t as int)
            &&& ((rec.t as int) < t_max)
            &&& (rec.mat == s.mat)
            &&& (rec.p == s_ray_at(r, rec.t as int))
            &&& (rec.front_face == (s_dot(
                r.direction,
                s_vsdiv(s_vsub(rec.p, s.center), s.radius as int),
            ) < 0))
            &&& (rec.front_face ==> s_dot(r.direction, rec.normal) < 0)
        }),
{
    match s_sphere_root(s, r, t_min, t_max) {
        Some(root) => {
            assert(t_min < root && root < t_max);
            let rec = s_hit_record_at(s, r, root);
            assert(rec.t as int == root);
        },
        None => {},
    }
}

impl Sphere {
    /// A sphere; a negative radius is clamped to zero.
    pub fn new(center: Point3, radius: i64, mat: Material) -> (r: Sphere)
        ensures
            r.center == center,
            r.mat == mat,
            r.radius == if radius > 0 {
                radius
            } else {
                0
            },
    {
        Sphere { center, radius: if radius > 0 { radius } else { 0 }, mat }
    }

    /// Test the ray against the sphere over the valid parameter range
    /// and, on a hit, fill `rec` with the nearest intersection.  The
    /// radius must not have rounded to zero, as the normal is scaled
    /// by its reciprocal.
    pub fn hit(&self, r: &Ray, ray_t: Interval, rec: &mut HitRecord) -> (res: bool)
        requires
            self.radius != 0,
        ensures
            res == (s_sphere_hit(*self, *r, ray_t.min as int, ray_t.max as int) is Some),
            res ==> Some(*final(rec)) == s_sphere_hit(
                *self,
                *r,
                ray_t.min as int,
                ray_t.max as int,
            ),
            !res ==> *final(rec) == *old(rec),
    {
        let oc = Vec3::sub(self.center, r.origin());
        let a = r.direction().length_squared();
        let h = Vec3::dot_product(r.direction(), oc);
        let c = crate::fx::fx_sub(oc.length_squared(), crate::fx::fx_mul(self.radius, self.radius));

        let discriminant = crate::fx::fx_sub(crate::fx::fx_mul(h, h), crate::fx::fx_mul(a, c));
        if discriminant < 0 {
            return false;
        }
        if a == 0 {
            return false;
        }

        let sqrtd = crate::fx::fx_sqrt(discriminant);

        let mut root = crate::fx::fx_div(crate::fx::fx_sub(h, sqrtd), a);
        if !Interval::surrounds(&ray_t, root) {
            root = crate::fx::fx_div(crate::fx::fx_add(h, sqrtd), a);
            if !Interval::surrounds(&ray_t, root) {
                return false;
            }
        }

        rec.t = root;
        rec.p = r.ray_at(rec.t);
        let outer_normal = Vec3::sub(rec.p, self.center).scalar_div(self.radius);
        rec.set_face_normal(r, outer_normal);
        rec.mat = self.mat;

        true
    }
}

} // verus!
