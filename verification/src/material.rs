//! Surface materials and their scattering rules.
//!
//! A material, given an incoming ray and a hit record, either
//! produces an attenuation color together with a scattered ray, or
//! declines, in which case the path is absorbed.  The material set is
//! a closed sum: diffuse, metallic, dielectric, and the placeholder
//! that always declines.
//!
//! Scattering draws on the process-wide random generator, so each
//! contract pins the result as an exact function of the inputs and
//! some admissible random sample.

use vstd::prelude::*;

verus! {

use crate::fx::{SCALE, ONE, s_add, s_sub, s_mul, s_div, s_sqrt};
use crate::hittable::HitRecord;
use crate::ray::Ray;
use crate::vec3::{
    Vec3, is_unit_sample, s_dot, s_len2, s_near_zero, s_reflect, s_refract, s_unit,
    s_vadd, s_vsmul,
};

/// The material that never scatters; it fills fresh hit records
/// before a real hit is assigned.
#[derive(Clone, Copy, Debug, PartialEq, Eq, Structural)]
pub struct EmptyMaterial;

/// Diffuse surface: scatters about the normal, tinted by `albedo`.
#[derive(Clone, Copy, Debug, PartialEq, Eq, Structural)]
pub struct Lambertian {
    pub albedo: Vec3,
}

/// Reflective surface with a fuzz radius in `[0, 1]`.
#[derive(Clone, Copy, Debug, PartialEq, Eq, Structural)]
pub struct Metal {
    pub albedo: Vec3,
    pub fuzz: i64,
}

/// Clear surface that refracts or reflects by Snell's law and
/// Schlick's approximation.
#[derive(Clone, Copy, Debug, PartialEq, Eq, Structural)]
pub struct Dielectric {
    pub refraction_index: i64,
}

/// The closed set of materials a surface can carry.
#[derive(Clone, Copy, Debug, PartialEq, Eq, Structural)]
pub enum Material {
    Lambertian(Lambertian),
    Metal(Metal),
    Dielectric(Dielectric),
    Empty,
}

/// A material whose scatter step is free of degenerate divisions: a
/// dielectric must have a refraction index that is non-zero and, with
/// one added on either side of the interface, keeps Schlick's base
/// term away from a zero denominator.
pub open spec fn m_wf(m: Material) -> bool {
    match m {
        Material::Dielectric(d) => d.refraction_index != 0
            && s_add(ONE as int, s_div(ONE as int, d.refraction_index as int)) != 0
            && s_add(ONE as int, d.refraction_index as int) != 0,
        _ => true,
    }
}

/// Specification twin of `Lambertian::scatter`, as a function of the
/// drawn unit sample `d`: the scatter direction is the normal plus
/// `d`, with the normal itself as fallback when that sum degenerates
/// to zero; the attenuation is the albedo.
#[verifier::opaque]
pub open spec fn s_lambertian_scatter(albedo: Vec3, p: Vec3, normal: Vec3, d: Vec3) -> (Vec3,
    Ray) {
    let dir0 = s_vadd(normal, d);
    let dir = if s_near_zero(dir0) {
        normal
    } else {
        dir0
    };
    (albedo, Ray { origin: p, direction: dir })
}

/// Specification twin of `Metal::scatter`, as a function of the drawn
/// unit sample `d`: reflect, perturb by `fuzz` times `d`, and decline
/// when the perturbed ray points into the surface.
#[verifier::opaque]
pub open spec fn s_metal_scatter(albedo: Vec3, fuzz: int, dir_in: Vec3, p: Vec3, normal: Vec3,
    d: Vec3) -> Option<(Vec3, Ray)> {
    let reflected = s_vadd(s_reflect(dir_in, normal), s_vsmul(d, fuzz));
    if s_dot(reflected, normal) > 0 {
        Some((albedo, Ray { origin: p, direction: reflected }))
    } else {
        None
    }
}

/// Specification twin of `Dielectric::reflectance`, Schlick's
/// approximation of reflectance at the given angle cosine.
pub open spec fn s_reflectance(cosine: int, refraction_index: int) -> int {
    let r0 = s_div(s_sub(ONE as int, refraction_index), s_add(ONE as int, refraction_index));
    let r02 = s_mul(r0, r0);
    let t = s_sub(ONE as int, cosine);
    let t2 = s_mul(t, t);
    let t4 = s_mul(t2, t2);
    let t5 = s_mul(t4, t);
    s_add(r02, s_mul(s_sub(ONE as int, r02), t5))
}

/// Specification twin of `Dielectric::scatter`, as a function of the
/// drawn uniform `u` in `[0, 1)`: refract by Snell's law unless total
/// internal reflection makes that impossible or Schlick's reflectance
/// exceeds the draw, in which case reflect.  The attenuation is
/// always white.
#[verifier::opaque]
pub open spec fn s_dielectric_scatter(index: int, dir_in: Vec3, front_face: bool, normal: Vec3,
    p: Vec3, u: int) -> (Vec3, Ray) {
    let ri = if front_face {
        s_div(ONE as int, index)
    } else {
        index
    };
    let ud = s_unit(dir_in);
    let cos0 = s_dot(s_vsmul(ud, -(ONE as int)), normal);
    let cos_theta = if cos0 < ONE {
        cos0
    } else {
        ONE as int
    };
    let sin_theta = s_sqrt(s_sub(ONE as int, s_mul(cos_theta, cos_theta)));
    let cannot_refract = s_mul(ri, sin_theta) > ONE;
    let dir = if cannot_refract || s_reflectance(cos_theta, ri) > u {
        s_reflect(ud, normal)
    } else {
        s_refract(ud, normal, ri)
    };
    (Vec3 { x: ONE, y: ONE, z: ONE }, Ray { origin: p, direction: dir })
}

/// A dielectric at normal incidence with equal refraction indices on
/// both sides passes the ray through undeviated: whatever the random
/// draw, the scattered direction is exactly the incoming unit
/// direction, and the attenuation is white.  Normal incidence means
/// the unit direction is the exact opposite of the normal, and the
/// normal has an exactly representable unit length.
pub proof fn lemma_dielectric_normal_incidence(
    index: int,
    dir_in: Vec3,
    normal: Vec3,
    p: Vec3,
    front_face: bool,
    u: int,
)
    requires
        0 <= u < SCALE,
        index == ONE,
        s_dot(normal, normal) == ONE as int,
        s_vsmul(s_unit(dir_in), -(ONE as int)) == normal,
    ensures
        s_dielectric_scatter(index, dir_in, front_face, normal, p, u) == (
            Vec3 { x: ONE, y: ONE, z: ONE },
            Ray { origin: p, direction: s_unit(dir_in) },
        ),
{
    reveal(s_dielectric_scatter);
    let ud = s_unit(dir_in);
    assert(-(crate::fx::FX_MAX as int) <= ud.x as int <= crate::fx::FX_MAX as int);
    assert(-(crate::fx::FX_MAX as int) <= ud.y as int <= crate::fx::FX_MAX as int);
    assert(-(crate::fx::FX_MAX as int) <= ud.z as int <= crate::fx::FX_MAX as int);
    crate::fx::lemma_s_mul_neg_one(ud.x as int);
    crate::fx::lemma_s_mul_neg_one(ud.y as int);
    crate::fx::lemma_s_mul_neg_one(ud.z as int);
    assert(normal.x as int == -(ud.x as int));
    assert(normal.y as int == -(ud.y as int));
    assert(normal.z as int == -(ud.z as int));

    // The ratio of refraction indices is exactly one on both sides.
    crate::fx::lemma_tdiv_mul_exact(SCALE as int, SCALE as int);
    let ri: int = if front_face {
        s_div(ONE as int, index)
    } else {
        index
    };
    assert(ri == ONE as int);

    // The angle cosine is exactly one, so no total internal
    // reflection is possible.
    crate::fx::lemma_s_mul_one(ONE as int);
    let sin_theta = s_sqrt(s_sub(ONE as int, s_mul(ONE as int, ONE as int)));
    assert(sin_theta == 0);
    crate::fx::lemma_s_mul_zero(ri);

    // Schlick's reflectance vanishes, so no draw selects reflection.
    vstd::arithmetic::div_mod::lemma_div_of0(crate::fx::mag(
        s_add(ONE as int, ONE as int),
    ) as int);
    assert(s_div(s_sub(ONE as int, ONE as int), s_add(ONE as int, ONE as int)) == 0);
    crate::fx::lemma_s_mul_zero(0);
    crate::fx::lemma_s_mul_one(s_sub(ONE as int, 0));
    crate::fx::lemma_s_mul_zero(s_sub(ONE as int, 0));
    assert(s_reflectance(ONE as int, ri) == 0);

    // Refraction at ratio one returns the unit direction itself.
    crate::fx::lemma_s_mul_one(normal.x as int);
    crate::fx::lemma_s_mul_one(normal.y as int);
    crate::fx::lemma_s_mul_one(normal.z as int);
    let summed = s_vadd(ud, s_vsmul(normal, ONE as int));
    assert(summed == (Vec3 { x: 0, y: 0, z: 0 }));
    crate::fx::lemma_s_mul_one(0);
    let perp = s_vsmul(summed, ONE as int);
    assert(perp == (Vec3 { x: 0, y: 0, z: 0 }));
    crate::fx::lemma_s_mul_zero(0);
    assert(s_len2(perp) == 0);
    assert(65536int * 65536int == 4294967296int) by (nonlinear_arith);
    assert(65537int * 65537int == 4295098369int) by (nonlinear_arith);
    crate::fx::lemma_sqrt_floor_unique(4294967296nat, 65536nat);
    assert(s_sqrt(ONE as int) == ONE as int);
    crate::fx::lemma_s_mul_neg_one(SCALE as int);
    assert(s_mul(-(ONE as int), s_sqrt(ONE as int)) == -(SCALE as int));
    crate::fx::lemma_s_mul_neg_one(normal.x as int);
    crate::fx::lemma_s_mul_neg_one(normal.y as int);
    crate::fx::lemma_s_mul_neg_one(normal.z as int);
    let par = s_vsmul(normal, s_mul(-(ONE as int), s_sqrt(ONE as int)));
    assert(par == ud);
    assert(s_refract(ud, normal, ri) == ud);
}

impl EmptyMaterial {
    /// Decline every scatter.
    pub fn scatter(&self, _r_in: &Ray, _rec: &HitRecord) -> (res: Option<(Vec3, Ray)>)
        ensures
            res is None,
    {
        None
    }
}

impl Lambertian {
    /// A diffuse material with the given tint.
    pub fn new(albedo: Vec3) -> (r: Lambertian)
        ensures
            r.albedo == albedo,
    {
        Lambertian { albedo }
    }

    /// Scatter about the normal; always succeeds.
    pub fn scatter(&self, _r_in: &Ray, rec: &HitRecord) -> (res: Option<(Vec3, Ray)>)
        ensures
            exists|d: Vec3|
                is_unit_sample(d) && res == Some(
                    s_lambertian_scatter(self.albedo, rec.p, rec.normal, d),
                ),
    {
        let d = Vec3::random_unit_vector();
        let mut scatter_direction = Vec3::add(rec.normal, d);
        if scatter_direction.near_zero() {
            scatter_direction = rec.normal;
        }
        let res = Some((self.albedo, Ray::new(rec.p, scatter_direction)));
        proof {
            reveal(s_lambertian_scatter);
            assert(is_unit_sample(d) && res == Some(
                s_lambertian_scatter(self.albedo, rec.p, rec.normal, d),
            ));
        }
        res
    }
}

impl Metal {
    /// A metallic material; fuzz above one is clamped down to one.
    pub fn new(albedo: Vec3, fuzz: i64) -> (r: Metal)
        ensures
            r.albedo == albedo,
            r.fuzz == if fuzz < ONE {
                fuzz
            } else {
                ONE
            },
    {
        Metal { albedo, fuzz: if fuzz < ONE { fuzz } else { ONE } }
    }

    /// Reflect with fuzz; decline when the result points inward.
    pub fn scatter(&self, r_in: &Ray, rec: &HitRecord) -> (res: Option<(Vec3, Ray)>)
        ensures
            exists|d: Vec3|
                is_unit_sample(d) && res == s_metal_scatter(
                    self.albedo,
                    self.fuzz as int,
                    r_in.direction,
                    rec.p,
                    rec.normal,
                    d,
                ),
    {
        let d = Vec3::random_unit_vector();
        let reflected0 = Vec3::reflect(r_in.direction(), rec.normal);
        let reflected = Vec3::add(reflected0, d.scalar_mul(self.fuzz));
        let res = if Vec3::dot_product(reflected, rec.normal) > 0 {
            Some((self.albedo, Ray::new(rec.p, reflected)))
        } else {
            None
        };
        proof {
            reveal(s_metal_scatter);
            assert(is_unit_sample(d) && res == s_metal_scatter(
                self.albedo,
                self.fuzz as int,
                r_in.direction,
                rec.p,
                rec.normal,
                d,
            ));
        }
        res
    }
}

impl Dielectric {
    /// A dielectric with the given refraction index.
    pub fn new(refraction_index: i64) -> (r: Dielectric)
        ensures
            r.refraction_index == refraction_index,
    {
        Dielectric { refraction_index }
    }

    /// Schlick's reflectance approximation.
    pub fn reflectance(cosine: i64, refraction_index: i64) -> (r: i64)
        requires
            s_add(ONE as int, refraction_index as int) != 0,
        ensures
            r as int == s_reflectance(cosine as int, refraction_index as int),
    {
        let denom = crate::fx::fx_add(ONE, refraction_index);
        let r0 = crate::fx::fx_div(crate::fx::fx_sub(ONE, refraction_index), denom);
        let r02 = crate::fx::fx_mul(r0, r0);
        let t = crate::fx::fx_sub(ONE, cosine);
        let t2 = crate::fx::fx_mul(t, t);
        let t4 = crate::fx::fx_mul(t2, t2);
        let t5 = crate::fx::fx_mul(t4, t);
        crate::fx::fx_add(r02, crate::fx::fx_mul(crate::fx::fx_sub(ONE, r02), t5))
    }

    /// Refract or reflect; always succeeds, with white attenuation.
    pub fn scatter(&self, r_in: &Ray, rec: &HitRecord) -> (res: Option<(Vec3, Ray)>)
        requires
            m_wf(Material::Dielectric(*self)),
            s_len2(r_in.direction) != 0,
        ensures
            exists|u: int|
                0 <= u < SCALE && res == Some(
                    s_dielectric_scatter(
                        self.refraction_index as int,
                        r_in.direction,
                        rec.front_face,
                        rec.normal,
                        rec.p,
                        u,
                    ),
                ),
    {
        let attenuation = Vec3::new(ONE, ONE, ONE);
        let ri = if rec.front_face {
            crate::fx::fx_div(ONE, self.refraction_index)
        } else {
            self.refraction_index
        };
        let unit_direction = r_in.direction().unit_vector();
        let cos0 = Vec3::dot_product(unit_direction.scalar_mul(-ONE), rec.normal);
        let cos_theta = if cos0 < ONE {
            cos0
        } else {
            ONE
        };
        let k = crate::fx::fx_sub(ONE, crate::fx::fx_mul(cos_theta, cos_theta));
        let sin_theta = if k <= 0 {
            0
        } else {
            crate::fx::fx_sqrt(k)
        };
        let cannot_refract = crate::fx::fx_mul(ri, sin_theta) > ONE;
        let u = crate::rng::random_scalar();
        let direction = if cannot_refract || Dielectric::reflectance(cos_theta, ri) > u {
            Vec3::reflect(unit_direction, rec.normal)
        } else {
            Vec3::refract(unit_direction, rec.normal, ri)
        };
        let res = Some((attenuation, Ray::new(rec.p, direction)));
        proof {
            reveal(s_dielectric_scatter);
            assert(0 <= u < SCALE && res == Some(
                s_dielectric_scatter(
                    self.refraction_index as int,
                    r_in.direction,
                    rec.front_face,
                    rec.normal,
                    rec.p,
                    u as int,
                ),
            ));
        }
        res
    }
}

impl Material {
    /// Dispatch the scatter step to the variant's rule.
    pub fn scatter(&self, r_in: &Ray, rec: &HitRecord) -> (res: Option<(Vec3, Ray)>)
        requires
            m_wf(*self),
            s_len2(r_in.direction) != 0,
        ensures
            (self matches Material::Lambertian(l) ==> exists|d: Vec3|
                is_unit_sample(d) && res == Some(
                    s_lambertian_scatter(l.albedo, rec.p, rec.normal, d),
                )),
            (self matches Material::Metal(m) ==> exists|d: Vec3|
                is_unit_sample(d) && res == s_metal_scatter(
                    m.albedo,
                    m.fuzz as int,
                    r_in.direction,
                    rec.p,
                    rec.normal,
                    d,
                )),
            (self matches Material::Dielectric(dl) ==> exists|u: int|
                0 <= u < SCALE && res == Some(
                    s_dielectric_scatter(
                        dl.refraction_index as int,
                        r_in.direction,
                        rec.front_face,
                        rec.normal,
                        rec.p,
                        u,
                    ),
                )),
            (self is Empty ==> res is None),
    {
        match self {
            Material::Lambertian(l) => l.scatter(r_in, rec),
            Material::Metal(m) => m.scatter(r_in, rec),
            Material::Dielectric(d) => d.scatter(r_in, rec),
            Material::Empty => None,
        }
    }
}

} // verus!
