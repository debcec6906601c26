//! The record an intersection test fills in for the nearest hit.

use vstd::prelude::*;

verus! {

use crate::fx::ONE;
use crate::material::Material;
use crate::ray::Ray;
use crate::vec3::{Point3, Vec3, s_dot, s_vsmul};

/// Everything the scatter step needs to know about an intersection:
/// the point, the unit surface normal oriented against the incoming
/// ray, the surface's material, the ray parameter, and whether the
/// outward-facing side was hit.
#[derive(Clone, Copy, Debug, PartialEq, Eq, Structural)]
pub struct HitRecord {
    pub p: Point3,
    pub normal: Vec3,
    pub mat: Material,
    pub t: i64,
    pub front_face: bool,
}

impl HitRecord {
    /// A fresh placeholder record, holding the material that never
    /// scatters.
    pub fn new() -> (r: HitRecord)
        ensures
            r == (HitRecord {
                p: Vec3 { x: 0, y: 0, z: 0 },
                normal: Vec3 { x: 0, y: 0, z: 0 },
                mat: Material::Empty,
                t: 0,
                front_face: false,
            }),
    {
        HitRecord {
            p: Vec3 { x: 0, y: 0, z: 0 },
            normal: Vec3 { x: 0, y: 0, z: 0 },
            mat: Material::Empty,
            t: 0,
            front_face: false,
        }
    }

    /// Record which side was hit and orient the normal against the
    /// ray: the stored normal is the outward normal if the ray came
    /// from outside, and its negation otherwise.
    pub fn set_face_normal(&mut self, ray: &Ray, outward_normal: Vec3)
        ensures
            final(self).front_face == (s_dot(ray.direction, outward_normal) < 0),
            final(self).normal == if s_dot(ray.direction, outward_normal) < 0 {
                outward_normal
            } else {
                s_vsmul(outward_normal, -(ONE as int))
            },
            final(self).p == old(self).p,
            final(self).t == old(self).t,
            final(self).mat == old(self).mat,
    {
        self.front_face = Vec3::dot_product(ray.direction, outward_normal) < 0;
        self.normal = if self.front_face {
            outward_normal
        } else {
            outward_normal.scalar_mul(-ONE)
        };
    }
}

impl Default for HitRecord {
    /// Same placeholder as `HitRecord::new`.
    fn default() -> (r: HitRecord)
        ensures
            r == (HitRecord {
                p: Vec3 { x: 0, y: 0, z: 0 },
                normal: Vec3 { x: 0, y: 0, z: 0 },
                mat: Material::Empty,
                t: 0,
                front_face: false,
            }),
    {
        HitRecord::new()
    }
}

} // verus!
