//! Camera geometry and the recursive renderer.
//!
//! The camera turns user parameters into a precomputed viewport, asks
//! the scene for the nearest hit of each sample ray, lets the hit
//! material scatter, and recurses until the depth budget runs out, no
//! surface is hit (the sky gradient is the only light source), or the
//! material absorbs the path.
//!
//! Angles enter as the tangent of their half, already on the
//! fixed-point grid, since the grid has no trigonometry of its own.

use vstd::prelude::*;

verus! {

use crate::fx::{
    SCALE, ONE, HALF, TWO, FX_MAX, tdiv, s_add, s_sub, s_mul, s_div,
    fx_add, fx_sub, fx_mul, fx_div, lemma_s_mul_zero,
};
use crate::hittable::HitRecord;
use crate::hittable_list::{HittableList, s_list_hit, wf_objects, lemma_list_hit_gives_wf};
use crate::interval::Interval;
use crate::material::{
    Material, s_dielectric_scatter, s_lambertian_scatter, s_metal_scatter,
};
use crate::ray::Ray;
use crate::sphere::Sphere;
use crate::vec3::{
    Vec3, is_unit_sample, s_cross, s_dot, s_len2, s_unit, s_vadd, s_vmul, s_vsdiv, s_vsmul,
    s_vsub,
};

/// Lower bound of the valid hit range, about a thousandth, so that a
/// bounced ray does not immediately re-hit the surface it sits on.
pub const HIT_T_MIN: i64 = 66;

/// Green channel of the sky's horizon-to-zenith color, seven tenths.
pub const SKY_G: i64 = 45875;

/// The camera: user parameters plus the viewport geometry
/// `initialize` derives from them once before rendering.
pub struct Camera {
    pub aspect_ratio: i64,
    pub image_width: i64,
    pub samples_per_pixel: i64,
    pub max_depth: i64,
    pub tan_half_vfov: i64,
    pub lookform: Vec3,
    pub lookat: Vec3,
    pub vup: Vec3,
    pub tan_half_defocus: i64,
    pub focus_dist: i64,
    pub image_height: i64,
    pub center: Vec3,
    pub pixel100_loc: Vec3,
    pub pixel_delta_u: Vec3,
    pub pixel_delta_v: Vec3,
    pub u: Vec3,
    pub v: Vec3,
    pub w: Vec3,
    pub pixel_samples_scale: i64,
    pub defocus_disk_u: Vec3,
    pub defocus_disk_v: Vec3,
}

/// Image height before the floor of one: width over aspect ratio,
/// rounded to the nearest integer (halves upward).
pub open spec fn s_image_height0(c: Camera) -> int {
    tdiv(2 * (c.image_width * SCALE) + c.aspect_ratio, 2 * c.aspect_ratio)
}

/// Derived image height: at least one row.
pub open spec fn s_image_height(c: Camera) -> int {
    if s_image_height0(c) < 1 {
        1
    } else {
        s_image_height0(c)
    }
}

/// Derived per-sample weight: the reciprocal of the sample count.
pub open spec fn s_pixel_samples_scale(c: Camera) -> int {
    s_div(ONE as int, c.samples_per_pixel * SCALE)
}

/// Derived basis vector pointing from the target to the eye.
pub open spec fn s_cam_w(c: Camera) -> Vec3 {
    s_unit(s_vsub(c.lookform, c.lookat))
}

/// Derived basis vector pointing to the camera's right.
pub open spec fn s_cam_u(c: Camera) -> Vec3 {
    s_unit(s_cross(c.vup, s_cam_w(c)))
}

/// Derived basis vector pointing to the camera's up.
pub open spec fn s_cam_v(c: Camera) -> Vec3 {
    s_cross(s_cam_w(c), s_cam_u(c))
}

/// Derived viewport height: twice the half-angle tangent, scaled by
/// the focus distance.
pub open spec fn s_viewport_height(c: Camera) -> int {
    s_mul(s_mul(TWO as int, c.tan_half_vfov as int), c.focus_dist as int)
}

/// Derived viewport width: the height scaled by the pixel aspect.
pub open spec fn s_viewport_width(c: Camera) -> int {
    s_mul(
        s_viewport_height(c),
        s_div(c.image_width * SCALE, s_image_height(c) * SCALE),
    )
}

/// Derived viewport edge along the camera's right.
pub open spec fn s_viewport_u(c: Camera) -> Vec3 {
    s_vsmul(s_cam_u(c), s_viewport_width(c))
}

/// Derived viewport edge pointing down the image.
pub open spec fn s_viewport_v(c: Camera) -> Vec3 {
    s_vsmul(s_cam_v(c), s_mul(-(ONE as int), s_viewport_height(c)))
}

/// Derived step from one pixel to the next along a row.
pub open spec fn s_pixel_delta_u(c: Camera) -> Vec3 {
    s_vsdiv(s_viewport_u(c), c.image_width * SCALE)
}

/// Derived step from one row to the next.
pub open spec fn s_pixel_delta_v(c: Camera) -> Vec3 {
    s_vsdiv(s_viewport_v(c), s_image_height(c) * SCALE)
}

/// Derived upper-left corner of the viewport.
pub open spec fn s_viewport_upper_left(c: Camera) -> Vec3 {
    s_vsub(
        c.lookform,
        s_vadd(
            s_vadd(
                s_vsdiv(s_viewport_u(c), TWO as int),
                s_vsdiv(s_viewport_v(c), TWO as int),
            ),
            s_vsmul(s_cam_w(c), c.focus_dist as int),
        ),
    )
}

/// Derived center of the first pixel: the corner plus half a step in
/// each direction.
pub open spec fn s_pixel100_loc(c: Camera) -> Vec3 {
    s_vadd(
        s_vsmul(s_vadd(s_pixel_delta_u(c), s_pixel_delta_v(c)), HALF as int),
        s_viewport_upper_left(c),
    )
}

/// Derived defocus disk radius.
pub open spec fn s_defocus_radius(c: Camera) -> int {
    s_mul(c.focus_dist as int, c.tan_half_defocus as int)
}

/// Derived defocus disk axis along the camera's right.
pub open spec fn s_defocus_disk_u(c: Camera) -> Vec3 {
    s_vsmul(s_cam_u(c), s_defocus_radius(c))
}

/// Derived defocus disk axis along the camera's up.
pub open spec fn s_defocus_disk_v(c: Camera) -> Vec3 {
    s_vsmul(s_cam_v(c), s_defocus_radius(c))
}

/// The user parameters `initialize` needs: a positive aspect ratio, a
/// plausible image width, a plausible sample count, and viewing
/// directions that do not degenerate.
pub open spec fn cam_params_wf(c: Camera) -> bool {
    c.aspect_ratio > 0 && 1 <= c.image_width <= 46340 && 1 <= c.samples_per_pixel <= 65536
        && s_len2(s_vsub(c.lookform, c.lookat)) != 0 && s_len2(
        s_cross(c.vup, s_cam_w(c)),
    ) != 0
}

/// All derived fields agree with their specifications, and the user
/// parameters are those of `params`.
pub open spec fn cam_derived(c: Camera, params: Camera) -> bool {
    c.aspect_ratio == params.aspect_ratio && c.image_width == params.image_width
        && c.samples_per_pixel == params.samples_per_pixel && c.max_depth == params.max_depth
        && c.tan_half_vfov == params.tan_half_vfov && c.lookform == params.lookform
        && c.lookat == params.lookat && c.vup == params.vup && c.tan_half_defocus
        == params.tan_half_defocus && c.focus_dist == params.focus_dist && c.image_height as int
        == s_image_height(params) && c.center == params.lookform && c.pixel_samples_scale as int
        == s_pixel_samples_scale(params) && c.w == s_cam_w(params) && c.u == s_cam_u(params)
        && c.v == s_cam_v(params) && c.pixel_delta_u == s_pixel_delta_u(params)
        && c.pixel_delta_v == s_pixel_delta_v(params) && c.pixel100_loc == s_pixel100_loc(params)
        && c.defocus_disk_u == s_defocus_disk_u(params) && c.defocus_disk_v == s_defocus_disk_v(
        params,
    )
}

/// Specification twin of `Camera::get_ray_at`: the ray through the
/// jittered sample point of pixel `(i, j)`, from the camera center or
/// from the given point of the defocus disk.
pub open spec fn s_get_ray_at(c: Camera, i: int, j: int, offset: Vec3, disk: Vec3) -> Ray {
    let g = s_vsmul(c.pixel_delta_u, s_add(i * SCALE, offset.x as int));
    let h = s_vsmul(c.pixel_delta_v, s_add(j * SCALE, offset.y as int));
    let pixel_sample = s_vadd(c.pixel100_loc, s_vadd(g, h));
    let origin = if c.tan_half_defocus <= 0 {
        c.center
    } else {
        s_vadd(
            c.center,
            s_vadd(
                s_vsmul(c.defocus_disk_u, disk.x as int),
                s_vsmul(c.defocus_disk_v, disk.y as int),
            ),
        )
    };
    Ray { origin, direction: s_vsub(pixel_sample, origin) }
}

/// A pixel jitter offset: both coordinates in `[-1/2, 1/2)`.
pub open spec fn s_is_jitter(v: Vec3) -> bool {
    -(HALF as int) <= v.x < HALF && -(HALF as int) <= v.y < HALF && v.z == 0
}

/// A defocus disk sample: inside the unit disk of the xy plane.
pub open spec fn s_is_disk_sample(v: Vec3) -> bool {
    0 <= s_len2(v) < ONE as int && v.z == 0
}

/// The sky gradient, the scene's only light source: blend white into
/// sky blue by the height of the unit ray direction.
pub open spec fn s_sky(r: Ray) -> Vec3 {
    let ud = s_unit(r.direction);
    let a = s_mul(s_add(ud.y as int, ONE as int), HALF as int);
    s_vadd(
        s_vsmul(Vec3 { x: ONE, y: ONE, z: ONE }, s_sub(ONE as int, a)),
        s_vsmul(Vec3 { x: HALF, y: SKY_G, z: ONE }, a),
    )
}

/// One admissible result of a material's scatter rule, for some
/// admissible random draw.
pub open spec fn is_scatter_outcome(dir_in: Vec3, rec: HitRecord, sc: Option<(Vec3, Ray)>) -> bool {
    match rec.mat {
        Material::Lambertian(l) => exists|d: Vec3|
            #[trigger] is_unit_sample(d) && sc == Some(
                s_lambertian_scatter(l.albedo, rec.p, rec.normal, d),
            ),
        Material::Metal(m) => exists|d: Vec3|
            #[trigger] is_unit_sample(d) && sc == s_metal_scatter(
                m.albedo,
                m.fuzz as int,
                dir_in,
                rec.p,
                rec.normal,
                d,
            ),
        Material::Dielectric(dl) => exists|u: int|
            0 <= u < SCALE && sc == Some(
                #[trigger] s_dielectric_scatter(
                    dl.refraction_index as int,
                    dir_in,
                    rec.front_face,
                    rec.normal,
                    rec.p,
                    u,
                ),
            ),
        Material::Empty => sc is None,
    }
}

/// What `ray_color` may return: black once the depth budget is
/// spent; on a miss the sky gradient, with black for a direction that
/// rounded to zero; on a hit, whatever the hit material's scatter
/// rule yields for some admissible random draw — black when it
/// declines, else its attenuation times an admissible color of the
/// scattered ray.
pub open spec fn is_ray_color_outcome(r: Ray, depth: int, objects: Seq<Sphere>, c: Vec3) -> bool
    decreases depth,
{
    if depth <= 0 {
        c == (Vec3 { x: 0, y: 0, z: 0 })
    } else {
        match s_list_hit(objects, r, HIT_T_MIN as int, FX_MAX as int) {
            None => c == (if s_len2(r.direction) != 0 {
                s_sky(r)
            } else {
                Vec3 { x: 0, y: 0, z: 0 }
            }),
            Some(rec) => (exists|att: Vec3, sc: Ray, c2: Vec3|
                #![trigger is_scatter_outcome(r.direction, rec, Some((att, sc))), s_vmul(att, c2)]
                {
                    &&& is_scatter_outcome(r.direction, rec, Some((att, sc)))
                    &&& is_ray_color_outcome(sc, depth - 1, objects, c2)
                    &&& c == s_vmul(att, c2)
                }) || (is_scatter_outcome(r.direction, rec, None) && c == (Vec3 {
                x: 0,
                y: 0,
                z: 0,
            })),
        }
    }
}

/// What the per-pixel sample loop may accumulate: `n` admissible ray
/// colors of admissible jittered sample rays, summed in order.
pub open spec fn is_sample_sum(
    c: Camera,
    i: int,
    j: int,
    objects: Seq<Sphere>,
    n: int,
    sum: Vec3,
) -> bool
    decreases n,
{
    if n <= 0 {
        sum == (Vec3 { x: 0, y: 0, z: 0 })
    } else {
        exists|prev: Vec3, offset: Vec3, disk: Vec3, col: Vec3|
            #![trigger s_vadd(prev, col), s_get_ray_at(c, i, j, offset, disk)]
            {
                &&& is_sample_sum(c, i, j, objects, n - 1, prev)
                &&& s_is_jitter(offset)
                &&& s_is_disk_sample(disk)
                &&& is_ray_color_outcome(
                    s_get_ray_at(c, i, j, offset, disk),
                    c.max_depth as int,
                    objects,
                    col,
                )
                &&& sum == s_vadd(prev, col)
            }
    }
}

/// What `pixel_color` may return: the configured number of admissible
/// samples, summed and scaled by the per-sample weight.
pub open spec fn is_pixel_color_outcome(
    c: Camera,
    i: int,
    j: int,
    objects: Seq<Sphere>,
    px: Vec3,
) -> bool {
    exists|sum: Vec3|
        is_sample_sum(c, i, j, objects, c.samples_per_pixel as int, sum) && px == #[trigger] s_vsmul(
            sum,
            c.pixel_samples_scale as int,
        )
}

/// The witness step of `ray_color`'s hit case: whatever the hit
/// material's scatter rule returned, attenuating an admissible color
/// of the scattered ray (or black on a decline) is an admissible
/// outcome for the incoming ray.
#[verifier::rlimit(100)]
#[verifier::spinoff_prover]
proof fn lemma_outcome_of_scatter(
    r: Ray,
    depth: int,
    objects: Seq<Sphere>,
    rec: HitRecord,
    res: Option<(Vec3, Ray)>,
    child: Vec3,
    result: Vec3,
)
    requires
        depth > 0,
        s_list_hit(objects, r, HIT_T_MIN as int, FX_MAX as int) == Some(rec),
        rec.mat matches Material::Lambertian(l) ==> exists|d: Vec3|
            is_unit_sample(d) && res == Some(s_lambertian_scatter(l.albedo, rec.p, rec.normal, d)),
        rec.mat matches Material::Metal(m) ==> exists|d: Vec3|
            is_unit_sample(d) && res == s_metal_scatter(
                m.albedo,
                m.fuzz as int,
                r.direction,
                rec.p,
                rec.normal,
                d,
            ),
        rec.mat matches Material::Dielectric(dl) ==> exists|u: int|
            0 <= u < SCALE && res == Some(
                s_dielectric_scatter(
                    dl.refraction_index as int,
                    r.direction,
                    rec.front_face,
                    rec.normal,
                    rec.p,
                    u,
                ),
            ),
        rec.mat is Empty ==> res is None,
        res matches Some(pair) ==> is_ray_color_outcome(pair.1, depth - 1, objects, child)
            && result == s_vmul(pair.0, child),
        res is None ==> result == (Vec3 { x: 0, y: 0, z: 0 }),
    ensures
        is_ray_color_outcome(r, depth, objects, result),
{
    assert(is_scatter_outcome(r.direction, rec, res));
    match res {
        Some(pair) => {
            assert(is_scatter_outcome(r.direction, rec, Some((pair.0, pair.1))));
            assert(is_ray_color_outcome(pair.1, depth - 1, objects, child));
            assert(result == s_vmul(pair.0, child));
        },
        None => {
            assert(result == (Vec3 { x: 0, y: 0, z: 0 }));
        },
    }
    assert(is_ray_color_outcome(r, depth, objects, result));
}

impl Camera {
    /// A camera from its user parameters; the derived fields stay
    /// zero until `initialize` runs.
    pub fn new(
        aspect_ratio: i64,
        image_width: i64,
        samples_per_pixel: i64,
        max_depth: i64,
        tan_half_vfov: i64,
        lookform: Vec3,
        lookat: Vec3,
        vup: Vec3,
        tan_half_defocus: i64,
        focus_dist: i64,
    ) -> (r: Camera)
        ensures
            r.aspect_ratio == aspect_ratio,
            r.image_width == image_width,
            r.samples_per_pixel == samples_per_pixel,
            r.max_depth == max_depth,
            r.tan_half_vfov == tan_half_vfov,
            r.lookform == lookform,
            r.lookat == lookat,
            r.vup == vup,
            r.tan_half_defocus == tan_half_defocus,
            r.focus_dist == focus_dist,
            r.image_height == 0,
            r.center == (Vec3 { x: 0, y: 0, z: 0 }),
            r.pixel100_loc == (Vec3 { x: 0, y: 0, z: 0 }),
            r.pixel_delta_u == (Vec3 { x: 0, y: 0, z: 0 }),
            r.pixel_delta_v == (Vec3 { x: 0, y: 0, z: 0 }),
            r.u == (Vec3 { x: 0, y: 0, z: 0 }),
            r.v == (Vec3 { x: 0, y: 0, z: 0 }),
            r.w == (Vec3 { x: 0, y: 0, z: 0 }),
            r.pixel_samples_scale == 0,
            r.defocus_disk_u == (Vec3 { x: 0, y: 0, z: 0 }),
            r.defocus_disk_v == (Vec3 { x: 0, y: 0, z: 0 }),
    {
        let zero = Vec3 { x: 0, y: 0, z: 0 };
        Camera {
            aspect_ratio,
            image_width,
            samples_per_pixel,
            max_depth,
            tan_half_vfov,
            lookform,
            lookat,
            vup,
            tan_half_defocus,
            focus_dist,
            image_height: 0,
            center: zero,
            pixel100_loc: zero,
            pixel_delta_u: zero,
            pixel_delta_v: zero,
            u: zero,
            v: zero,
            w: zero,
            pixel_samples_scale: 0,
            defocus_disk_u: zero,
            defocus_disk_v: zero,
        }
    }

    /// Derive the viewport geometry from the user parameters.  Run
    /// once before any pixel is rendered.
    pub fn initialize(&mut self)
        requires
            cam_params_wf(*old(self)),
        ensures
            cam_derived(*final(self), *old(self)),
    {
        let wfx: i64 = self.image_width * SCALE;
        let num: u128 = 2 * (wfx as u128) + (self.aspect_ratio as u128);
        let den: u128 = 2 * (self.aspect_ratio as u128);
        let q: u128 = num / den;
        proof {
            let ni = num as int;
            let di = den as int;
            let qi = q as int;
            let wi = wfx as int;
            vstd::arithmetic::div_mod::lemma_fundamental_div_mod(ni, di);
            vstd::arithmetic::div_mod::lemma_mod_bound(ni, di);
            assert(ni < di * (wi + 1)) by (nonlinear_arith)
                requires
                    ni == 2 * wi + self.aspect_ratio as int,
                    di == 2 * (self.aspect_ratio as int),
                    self.aspect_ratio >= 1,
                    wi >= 0;
            assert(qi <= wi) by (nonlinear_arith)
                requires
                    di * qi <= ni,
                    ni < di * (wi + 1),
                    di > 0,
                    qi >= 0;
        }
        let ih0: i64 = q as i64;
        proof {
            assert(ih0 as int == s_image_height0(*self));
        }
        self.image_height = if ih0 < 1 {
            1
        } else {
            ih0
        };

        let samples_fx: i64 = self.samples_per_pixel * SCALE;
        self.pixel_samples_scale = fx_div(ONE, samples_fx);

        self.center = self.lookform;

        let viewport_height = fx_mul(fx_mul(TWO, self.tan_half_vfov), self.focus_dist);
        let hfx: i64 = self.image_height * SCALE;
        let viewport_width = fx_mul(viewport_height, fx_div(wfx, hfx));

        self.w = Vec3::sub(self.lookform, self.lookat).unit_vector();
        self.u = Vec3::cross_product(self.vup, self.w).unit_vector();
        self.v = Vec3::cross_product(self.w, self.u);

        let viewport_u = self.u.scalar_mul(viewport_width);
        let viewport_v = self.v.scalar_mul(fx_mul(-ONE, viewport_height));

        self.pixel_delta_u = viewport_u.scalar_div(wfx);
        self.pixel_delta_v = viewport_v.scalar_div(hfx);

        let t = viewport_u.scalar_div(TWO);
        let o = viewport_v.scalar_div(TWO);
        let p = Vec3::add(t, o);
        let j = self.w.scalar_mul(self.focus_dist);
        let q = Vec3::add(p, j);
        let viewport_upper_left = Vec3::sub(self.center, q);

        let sum1 = Vec3::add(self.pixel_delta_u, self.pixel_delta_v);
        let q2 = sum1.scalar_mul(HALF);
        self.pixel100_loc = Vec3::add(q2, viewport_upper_left);

        let defocus_radius = fx_mul(self.focus_dist, self.tan_half_defocus);
        self.defocus_disk_u = self.u.scalar_mul(defocus_radius);
        self.defocus_disk_v = self.v.scalar_mul(defocus_radius);
    }

    /// The sample ray for pixel `(i, j)` with the given jitter offset
    /// and defocus disk point.  Deterministic: the random draws are
    /// arguments.
    pub fn get_ray_at(&self, i: i64, j: i64, offset: Vec3, disk: Vec3) -> (r: Ray)
        requires
            0 <= i <= 0x7fff_ffff,
            0 <= j <= 0x7fff_ffff,
        ensures
            r == s_get_ray_at(*self, i as int, j as int, offset, disk),
    {
        let g = self.pixel_delta_u.scalar_mul(fx_add(i * SCALE, offset.x));
        let h = self.pixel_delta_v.scalar_mul(fx_add(j * SCALE, offset.y));
        let k = Vec3::add(g, h);
        let pixel_sample = Vec3::add(self.pixel100_loc, k);
        let ray_origin = if self.tan_half_defocus <= 0 {
            self.center
        } else {
            Vec3::add(
                self.center,
                Vec3::add(
                    self.defocus_disk_u.scalar_mul(disk.x),
                    self.defocus_disk_v.scalar_mul(disk.y),
                ),
            )
        };
        let ray_direction = Vec3::sub(pixel_sample, ray_origin);
        Ray::new(ray_origin, ray_direction)
    }

    /// A uniform jitter offset in `[-1/2, 1/2)` per axis.
    fn sample_square() -> (r: Vec3)
        ensures
            s_is_jitter(r),
    {
        Vec3::new(
            fx_sub(crate::rng::random_scalar(), HALF),
            fx_sub(crate::rng::random_scalar(), HALF),
            0,
        )
    }

    /// The sample ray for pixel `(i, j)` with fresh random jitter and,
    /// when depth of field is on, a fresh defocus disk point.
    pub fn get_ray(&self, i: i64, j: i64) -> (r: Ray)
        requires
            0 <= i <= 0x7fff_ffff,
            0 <= j <= 0x7fff_ffff,
        ensures
            exists|offset: Vec3, disk: Vec3|
                s_is_jitter(offset) && s_is_disk_sample(disk) && r == s_get_ray_at(
                    *self,
                    i as int,
                    j as int,
                    offset,
                    disk,
                ),
    {
        let offset = Camera::sample_square();
        let disk = Vec3::random_in_unit_disk();
        let r = self.get_ray_at(i, j, offset, disk);
        proof {
            assert(s_is_jitter(offset) && s_is_disk_sample(disk) && r == s_get_ray_at(
                *self,
                i as int,
                j as int,
                offset,
                disk,
            ));
        }
        r
    }

    /// The color a ray gathers: black once the depth budget is spent;
    /// on a hit, the material's attenuation times the scattered ray's
    /// color, or black if the material absorbs; on a miss, the sky
    /// gradient, with black for the degenerate ray whose direction
    /// rounded to zero.
    #[verifier::rlimit(60)]
    #[verifier::spinoff_prover]
    pub fn ray_color(r: &Ray, depth: i64, world: &HittableList) -> (c: Vec3)
        requires
            wf_objects(world.objects@),
        ensures
            depth <= 0 ==> c == (Vec3 { x: 0, y: 0, z: 0 }),
            depth > 0 && s_list_hit(world.objects@, *r, HIT_T_MIN as int, FX_MAX as int)
                is None ==> c == (if s_len2(r.direction) != 0 {
                s_sky(*r)
            } else {
                Vec3 { x: 0, y: 0, z: 0 }
            }),
            depth > 0 && (s_list_hit(world.objects@, *r, HIT_T_MIN as int, FX_MAX as int)
                matches Some(o) && o.mat is Empty) ==> c == (Vec3 { x: 0, y: 0, z: 0 }),
            is_ray_color_outcome(*r, depth as int, world.objects@, c),
        decreases depth,
    {
        if depth <= 0 {
            return Vec3::new(0, 0, 0);
        }
        let mut rec = HitRecord::new();
        if world.hit(r, Interval::new(HIT_T_MIN, FX_MAX), &mut rec) {
            proof {
                lemma_list_hit_gives_wf(
                    world.objects@,
                    *r,
                    HIT_T_MIN as int,
                    FX_MAX as int,
                );
            }
            let res = rec.mat.scatter(r, &rec);
            match res {
                Some(pair) => {
                    let (attenuation, scattered) = pair;
                    let child = Camera::ray_color(&scattered, depth - 1, world);
                    let result = Vec3::mul(attenuation, child);
                    proof {
                        lemma_outcome_of_scatter(
                            *r,
                            depth as int,
                            world.objects@,
                            rec,
                            res,
                            child,
                            result,
                        );
                    }
                    return result;
                },
                None => {
                    let result = Vec3::new(0, 0, 0);
                    proof {
                        lemma_outcome_of_scatter(
                            *r,
                            depth as int,
                            world.objects@,
                            rec,
                            res,
                            result,
                            result,
                        );
                    }
                    return result;
                },
            }
        }
        if r.direction().length_squared() == 0 {
            return Vec3::new(0, 0, 0);
        }
        let unit_direction = r.direction().unit_vector();
        let a = fx_mul(fx_add(unit_direction.y(), ONE), HALF);
        let result = Vec3::add(
            Vec3::new(ONE, ONE, ONE).scalar_mul(fx_sub(ONE, a)),
            Vec3::new(HALF, SKY_G, ONE).scalar_mul(a),
        );
        proof {
            assert(result == s_sky(*r));
            assert(is_ray_color_outcome(*r, depth as int, world.objects@, result));
        }
        result
    }

    /// One sample of pixel `(i, j)` with the random draws supplied by
    /// the caller, so that a known jitter, zero in particular, can be
    /// injected.
    pub fn pixel_sample_color(
        &self,
        i: i64,
        j: i64,
        offset: Vec3,
        disk: Vec3,
        world: &HittableList,
    ) -> (c: Vec3)
        requires
            wf_objects(world.objects@),
            0 <= i <= 0x7fff_ffff,
            0 <= j <= 0x7fff_ffff,
        ensures
            ({
                let ray = s_get_ray_at(*self, i as int, j as int, offset, disk);
                (self.max_depth <= 0 ==> c == (Vec3 { x: 0, y: 0, z: 0 })) && (self.max_depth > 0
                    && s_list_hit(world.objects@, ray, HIT_T_MIN as int, FX_MAX as int)
                    is None ==> c == (if s_len2(ray.direction) != 0 {
                    s_sky(ray)
                } else {
                    Vec3 { x: 0, y: 0, z: 0 }
                }))
            }),
            is_ray_color_outcome(
                s_get_ray_at(*self, i as int, j as int, offset, disk),
                self.max_depth as int,
                world.objects@,
                c,
            ),
    {
        let ray = self.get_ray_at(i, j, offset, disk);
        Camera::ray_color(&ray, self.max_depth, world)
    }

    /// The color of pixel `(i, j)`: the average of the configured
    /// number of jittered samples.
    #[verifier::rlimit(100)]
    #[verifier::spinoff_prover]
    pub fn pixel_color(&self, i: i64, j: i64, world: &HittableList) -> (c: Vec3)
        requires
            wf_objects(world.objects@),
            0 <= i <= 0x7fff_ffff,
            0 <= j <= 0x7fff_ffff,
            1 <= self.samples_per_pixel <= 65536,
        ensures
            self.max_depth <= 0 ==> c == (Vec3 { x: 0, y: 0, z: 0 }),
            is_pixel_color_outcome(*self, i as int, j as int, world.objects@, c),
    {
        let mut pixel_color = Vec3::new(0, 0, 0);
        let mut s: i64 = 0;
        proof {
            assert(is_sample_sum(*self, i as int, j as int, world.objects@, 0, pixel_color));
        }
        while s < self.samples_per_pixel
            invariant
                wf_objects(world.objects@),
                0 <= i <= 0x7fff_ffff,
                0 <= j <= 0x7fff_ffff,
                0 <= s <= self.samples_per_pixel,
                self.max_depth <= 0 ==> pixel_color == (Vec3 { x: 0, y: 0, z: 0 }),
                is_sample_sum(*self, i as int, j as int, world.objects@, s as int, pixel_color),
            decreases self.samples_per_pixel - s,
        {
            let r = self.get_ray(i, j);
            let sample = Camera::ray_color(&r, self.max_depth, world);
            let summed = Vec3::add(pixel_color, sample);
            proof {
                let (off, disk) = choose|off: Vec3, disk: Vec3|
                    s_is_jitter(off) && s_is_disk_sample(disk) && r == s_get_ray_at(
                        *self,
                        i as int,
                        j as int,
                        off,
                        disk,
                    );
                assert(is_ray_color_outcome(
                    s_get_ray_at(*self, i as int, j as int, off, disk),
                    self.max_depth as int,
                    world.objects@,
                    sample,
                ));
                assert(summed == s_vadd(pixel_color, sample));
                assert(is_sample_sum(
                    *self,
                    i as int,
                    j as int,
                    world.objects@,
                    s as int + 1,
                    summed,
                ));
            }
            pixel_color = summed;
            s = s + 1;
        }
        let c = pixel_color.scalar_mul(self.pixel_samples_scale);
        proof {
            if self.max_depth <= 0 {
                lemma_s_mul_zero(self.pixel_samples_scale as int);
            }
            assert(c == s_vsmul(pixel_color, self.pixel_samples_scale as int));
            assert(is_pixel_color_outcome(*self, i as int, j as int, world.objects@, c));
        }
        c
    }

    /// Render the whole image: derive the viewport, then walk the
    /// pixels in raster order, row-major from the top, averaging the
    /// samples of each.  The emission of bytes is the caller's.
    pub fn render(&mut self, world: &HittableList) -> (out: Vec<Vec3>)
        requires
            wf_objects(world.objects@),
            cam_params_wf(*old(self)),
            s_image_height(*old(self)) <= 46340,
        ensures
            cam_derived(*final(self), *old(self)),
            out@.len() == s_image_height(*old(self)) * old(self).image_width,
            old(self).max_depth <= 0 ==> forall|k: int|
                0 <= k < out@.len() ==> out@[k] == (Vec3 { x: 0, y: 0, z: 0 }),
            forall|jj: int, ii: int|
                0 <= jj < s_image_height(*old(self)) && 0 <= ii < old(self).image_width
                    ==> #[trigger] is_pixel_color_outcome(
                    *final(self),
                    ii,
                    jj,
                    world.objects@,
                    out@[jj * (old(self).image_width as int) + ii],
                ),
    {
        self.initialize();
        let mut out: Vec<Vec3> = Vec::new();
        let h = self.image_height;
        let w = self.image_width;
        let mut j: i64 = 0;
        while j < h
            invariant
                wf_objects(world.objects@),
                0 <= j <= h,
                1 <= w <= 46340,
                1 <= h <= 46340,
                1 <= self.samples_per_pixel <= 65536,
                h == self.image_height,
                w == self.image_width,
                self.max_depth == old(self).max_depth,
                cam_derived(*self, *old(self)),
                out@.len() == j * w,
                old(self).max_depth <= 0 ==> forall|k: int|
                    0 <= k < out@.len() ==> out@[k] == (Vec3 { x: 0, y: 0, z: 0 }),
                forall|jj: int, ii: int|
                    0 <= jj < j && 0 <= ii < w ==> #[trigger] is_pixel_color_outcome(
                        *self,
                        ii,
                        jj,
                        world.objects@,
                        out@[jj * (w as int) + ii],
                    ),
            decreases h - j,
        {
            let mut i: i64 = 0;
            while i < w
                invariant
                    wf_objects(world.objects@),
                    0 <= j < h,
                    0 <= i <= w,
                    1 <= w <= 46340,
                    1 <= h <= 46340,
                    1 <= self.samples_per_pixel <= 65536,
                    self.max_depth == old(self).max_depth,
                    cam_derived(*self, *old(self)),
                    out@.len() == j * w + i,
                    old(self).max_depth <= 0 ==> forall|k: int|
                        0 <= k < out@.len() ==> out@[k] == (Vec3 { x: 0, y: 0, z: 0 }),
                    forall|jj: int, ii: int|
                        0 <= jj < j && 0 <= ii < w ==> #[trigger] is_pixel_color_outcome(
                            *self,
                            ii,
                            jj,
                            world.objects@,
                            out@[jj * (w as int) + ii],
                        ),
                    forall|ii: int|
                        0 <= ii < i ==> #[trigger] is_pixel_color_outcome(
                            *self,
                            ii,
                            j as int,
                            world.objects@,
                            out@[(j as int) * (w as int) + ii],
                        ),
                decreases w - i,
            {
                let px = self.pixel_color(i, j, world);
                let ghost pre = out@;
                out.push(px);
                proof {
                    let objs = world.objects@;
                    let wi = w as int;
                    let ji = j as int;
                    assert(out@ == pre.push(px));
                    assert(is_pixel_color_outcome(*self, i as int, ji, objs, px));
                    assert forall|jj: int, ii: int|
                        0 <= jj < ji && 0 <= ii < wi implies #[trigger] is_pixel_color_outcome(
                        *self,
                        ii,
                        jj,
                        objs,
                        out@[jj * wi + ii],
                    ) by {
                        assert(jj * wi + ii < ji * wi) by (nonlinear_arith)
                            requires 0 <= jj && jj + 1 <= ji && 0 <= ii && ii < wi;
                        assert(out@[jj * wi + ii] == pre[jj * wi + ii]);
                    }
                    assert forall|ii: int|
                        0 <= ii < i + 1 implies #[trigger] is_pixel_color_outcome(
                        *self,
                        ii,
                        ji,
                        objs,
                        out@[ji * wi + ii],
                    ) by {
                        if ii < i {
                            assert(out@[ji * wi + ii] == pre[ji * wi + ii]);
                        } else {
                            assert(ji * wi + ii == pre.len());
                            assert(out@[ji * wi + ii] == px);
                        }
                    }
                }
                i = i + 1;
            }
            j = j + 1;
            proof {
                assert((j - 1) * w + w == j * w) by (nonlinear_arith);
                assert forall|jj: int, ii: int|
                    0 <= jj < j && 0 <= ii < w implies #[trigger] is_pixel_color_outcome(
                    *self,
                    ii,
                    jj,
                    world.objects@,
                    out@[jj * (w as int) + ii],
                ) by {
                    if jj == j - 1 {
                        assert(is_pixel_color_outcome(
                            *self,
                            ii,
                            j as int - 1,
                            world.objects@,
                            out@[(j as int - 1) * (w as int) + ii],
                        ));
                    }
                }
            }
        }
        out
    }
}

} // verus!
