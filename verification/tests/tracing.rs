use raytrace::camera::Camera;
use raytrace::color::color_bytes;
use raytrace::fx::{FX_MAX, ONE};
use raytrace::hittable::HitRecord;
use raytrace::hittable_list::HittableList;
use raytrace::interval::Interval;
use raytrace::material::{Lambertian, Material, Metal};
use raytrace::ray::Ray;
use raytrace::sphere::Sphere;
use raytrace::vec3::Vec3;

const S: i64 = 65536;

fn lambertian(r: i64, g: i64, b: i64) -> Material {
    Material::Lambertian(Lambertian::new(Vec3::new(r, g, b)))
}

#[test]
fn sphere_hit_returns_nearest_analytic_root() {
    // A unit sphere three units down the axis: the true roots are at
    // two and four, and every step is exactly representable.
    let sphere = Sphere::new(Vec3::new(0, 0, -3 * S), S, lambertian(S, 0, 0));
    let ray = Ray::new(Vec3::new(0, 0, 0), Vec3::new(0, 0, -S));
    let mut rec = HitRecord::new();
    assert!(sphere.hit(&ray, Interval::new(66, FX_MAX), &mut rec));
    assert_eq!(rec.t, 2 * S);
    assert_eq!(rec.p, Vec3::new(0, 0, -2 * S));
    assert_eq!(rec.normal, Vec3::new(0, 0, S));
    assert_eq!(rec.normal.length_squared(), ONE);
    assert!(rec.front_face);
    assert!(Vec3::dot_product(rec.normal, ray.direction()) < 0);
    assert_eq!(rec.mat, lambertian(S, 0, 0));
}

#[test]
fn sphere_hit_takes_far_root_from_inside() {
    // Starting at the center, the near root is behind the range, so
    // the far root at one is taken and the back face is reported.
    let sphere = Sphere::new(Vec3::new(0, 0, 0), S, lambertian(S, 0, 0));
    let ray = Ray::new(Vec3::new(0, 0, 0), Vec3::new(0, 0, -S));
    let mut rec = HitRecord::new();
    assert!(sphere.hit(&ray, Interval::new(66, FX_MAX), &mut rec));
    assert_eq!(rec.t, S);
    assert!(!rec.front_face);
    assert_eq!(rec.normal, Vec3::new(0, 0, S));
}

#[test]
fn sphere_miss_leaves_record_unchanged() {
    let sphere = Sphere::new(Vec3::new(0, 10 * S, 0), S, lambertian(S, 0, 0));
    let ray = Ray::new(Vec3::new(0, 0, 0), Vec3::new(0, 0, -S));
    let mut rec = HitRecord::new();
    let before = rec;
    assert!(!sphere.hit(&ray, Interval::new(66, FX_MAX), &mut rec));
    assert_eq!(rec, before);
}

#[test]
fn sphere_new_clamps_negative_radius() {
    let sphere = Sphere::new(Vec3::new(0, 0, 0), -S, lambertian(S, 0, 0));
    assert_eq!(sphere.radius, 0);
}

#[test]
fn scene_reports_globally_closest_hit() {
    // Two overlapping spheres along the ray; the nearer one's
    // material must come back, in either insertion order.
    let near = Sphere::new(Vec3::new(0, 0, -3 * S), S, lambertian(S, 0, 0));
    let far = Sphere::new(
        Vec3::new(0, 0, -5 * S),
        2 * S,
        Material::Metal(Metal::new(Vec3::new(0, S, 0), 0)),
    );
    let ray = Ray::new(Vec3::new(0, 0, 0), Vec3::new(0, 0, -S));

    for order in 0..2 {
        let mut world = HittableList::new();
        if order == 0 {
            world.add(near);
            world.add(far);
        } else {
            world.add(far);
            world.add(near);
        }
        let mut rec = HitRecord::new();
        assert!(world.hit(&ray, Interval::new(66, FX_MAX), &mut rec));
        assert_eq!(rec.t, 2 * S);
        assert_eq!(rec.mat, lambertian(S, 0, 0));
    }
}

#[test]
fn empty_scene_never_hits() {
    let world = HittableList::new();
    let ray = Ray::new(Vec3::new(0, 0, 0), Vec3::new(0, 0, -S));
    let mut rec = HitRecord::new();
    assert!(!world.hit(&ray, Interval::new(66, FX_MAX), &mut rec));
}

#[test]
fn ray_color_at_depth_zero_is_black() {
    let mut world = HittableList::new();
    world.add(Sphere::new(Vec3::new(0, 0, -3 * S), S, lambertian(S, S, S)));
    let rays = [
        Ray::new(Vec3::new(0, 0, 0), Vec3::new(0, 0, -S)),
        Ray::new(Vec3::new(S, 2 * S, 3 * S), Vec3::new(0, S, 0)),
    ];
    for r in rays {
        assert_eq!(Camera::ray_color(&r, 0, &world), Vec3::new(0, 0, 0));
        assert_eq!(Camera::ray_color(&r, -1, &world), Vec3::new(0, 0, 0));
    }
}

#[test]
fn ray_color_on_empty_scene_is_the_sky_gradient() {
    let world = HittableList::new();
    // Straight up: the blend weight is one, leaving pure sky blue.
    let up = Ray::new(Vec3::new(0, 0, 0), Vec3::new(0, S, 0));
    assert_eq!(Camera::ray_color(&up, 10, &world), Vec3::new(S / 2, 45875, S));
    // Straight down: the blend weight is zero, leaving pure white.
    let down = Ray::new(Vec3::new(0, 0, 0), Vec3::new(0, -S, 0));
    assert_eq!(Camera::ray_color(&down, 10, &world), Vec3::new(S, S, S));
}

#[test]
fn ray_color_sky_matches_lerp_formula() {
    let world = HittableList::new();
    let dir = Vec3::new(S, 3 * S, -2 * S);
    let c = Camera::ray_color(&Ray::new(Vec3::new(0, 0, 0), dir), 5, &world);
    // Independent real-valued evaluation of the gradient formula.
    let y = 3.0 / (14.0f64).sqrt();
    let a = 0.5 * (y + 1.0);
    let expect = [
        (1.0 - a) + 0.5 * a,
        (1.0 - a) + 0.7 * a,
        (1.0 - a) + 1.0 * a,
    ];
    let got = [c.x, c.y, c.z];
    for k in 0..3 {
        let e = (expect[k] * 65536.0) as i64;
        assert!(
            (got[k] - e).abs() <= 8,
            "channel {} was {} expected about {}",
            k,
            got[k],
            e
        );
    }
}

fn test_camera(width: i64) -> Camera {
    // Ninety-degree field of view looking down the negative z axis,
    // no defocus blur: the half-angle tangent is exactly one.
    Camera::new(
        ONE,
        width,
        1,
        1,
        ONE,
        Vec3::new(0, 0, 0),
        Vec3::new(0, 0, -S),
        Vec3::new(0, S, 0),
        0,
        ONE,
    )
}

#[test]
fn image_height_rounds_to_nearest() {
    // 1 / 0.4 on the grid is about 2.50004, which rounds up to 3.
    let mut narrow = Camera::new(
        26214,
        1,
        1,
        1,
        ONE,
        Vec3::new(0, 0, 0),
        Vec3::new(0, 0, -S),
        Vec3::new(0, S, 0),
        0,
        ONE,
    );
    narrow.initialize();
    assert_eq!(narrow.image_height, 3);
    // 5 / 2 is exactly 2.5; the half rounds upward.
    let mut half = Camera::new(
        2 * S,
        5,
        1,
        1,
        ONE,
        Vec3::new(0, 0, 0),
        Vec3::new(0, 0, -S),
        Vec3::new(0, S, 0),
        0,
        ONE,
    );
    half.initialize();
    assert_eq!(half.image_height, 3);
}

#[test]
fn two_by_two_render_matches_gamma_corrected_sky() {
    let world = HittableList::new();
    let mut cam = test_camera(2);
    cam.initialize();
    assert_eq!(cam.image_height, 2);

    let zero = Vec3::new(0, 0, 0);
    // The exact unjittered sample directions of the four pixels.
    let expected_dirs = [
        (-0.5f64, 0.5f64),
        (0.5, 0.5),
        (-0.5, -0.5),
        (0.5, -0.5),
    ];
    let mut k = 0;
    for j in 0..2i64 {
        for i in 0..2i64 {
            let c = cam.pixel_sample_color(i, j, zero, zero, &world);
            let scaled = c.scalar_mul(cam.pixel_samples_scale);
            let (r, g, b) = color_bytes(scaled);

            // Independent evaluation: sky gradient at the pixel's
            // exact direction, gamma corrected and clamped.
            let (dx, dy) = expected_dirs[k];
            let len = (dx * dx + dy * dy + 1.0f64).sqrt();
            let y = dy / len;
            let a = 0.5 * (y + 1.0);
            let lin = [
                (1.0 - a) + 0.5 * a,
                (1.0 - a) + 0.7 * a,
                (1.0 - a) + 1.0 * a,
            ];
            let expect: Vec<i64> = lin
                .iter()
                .map(|v| (256.0 * v.sqrt().clamp(0.0, 0.999)) as i64)
                .collect();
            for (gotten, wanted) in [r as i64, g as i64, b as i64].iter().zip(expect.iter()) {
                assert!(
                    (gotten - wanted).abs() <= 2,
                    "pixel {} byte {} expected about {}",
                    k,
                    gotten,
                    wanted
                );
            }
            k += 1;
        }
    }
}

#[test]
fn render_produces_one_color_per_pixel_in_raster_order() {
    let world = HittableList::new();
    let mut cam = test_camera(4);
    let pixels = cam.render(&world);
    assert_eq!(cam.image_height, 4);
    assert_eq!(pixels.len(), 16);
    // Rows are emitted top to bottom: upper rows look higher into the
    // sky, so their green channel sits closer to the sky color.
    let top = pixels[0];
    let bottom = pixels[12];
    assert!(top.y < bottom.y);
}

#[test]
fn lambertian_bounce_darkens_by_albedo() {
    // A ray that hits a gray sphere once and then escapes gathers at
    // most the albedo times the sky's maximum, so every channel is
    // bounded by the albedo.
    let mut world = HittableList::new();
    world.add(Sphere::new(Vec3::new(0, 0, -3 * S), S, lambertian(S / 2, S / 2, S / 2)));
    let ray = Ray::new(Vec3::new(0, 0, 0), Vec3::new(0, 0, -S));
    for _ in 0..20 {
        let c = Camera::ray_color(&ray, 3, &world);
        assert!(c.x <= S / 2 && c.y <= S / 2 && c.z <= S / 2);
        assert!(c.x >= 0 && c.y >= 0 && c.z >= 0);
    }
}
