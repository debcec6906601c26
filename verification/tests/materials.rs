use raytrace::fx::ONE;
use raytrace::hittable::HitRecord;
use raytrace::material::{Dielectric, EmptyMaterial, Lambertian, Material, Metal};
use raytrace::ray::Ray;
use raytrace::vec3::Vec3;

const S: i64 = 65536;

fn record_at(p: Vec3, normal: Vec3, front_face: bool) -> HitRecord {
    let mut rec = HitRecord::new();
    rec.p = p;
    rec.normal = normal;
    rec.front_face = front_face;
    rec.t = S;
    rec
}

#[test]
fn empty_material_never_scatters() {
    let rec = record_at(Vec3::new(0, 0, 0), Vec3::new(0, S, 0), true);
    let r = Ray::new(Vec3::new(0, 0, 0), Vec3::new(0, -S, 0));
    assert!(EmptyMaterial.scatter(&r, &rec).is_none());
    assert!(Material::Empty.scatter(&r, &rec).is_none());
}

#[test]
fn lambertian_always_scatters_with_albedo_from_hit_point() {
    let albedo = Vec3::new(S / 2, S / 4, S / 8);
    let m = Lambertian::new(albedo);
    assert_eq!(m.albedo, albedo);
    let p = Vec3::new(S, 2 * S, 3 * S);
    let rec = record_at(p, Vec3::new(0, S, 0), true);
    let r = Ray::new(Vec3::new(0, 0, 0), Vec3::new(0, -S, 0));
    for _ in 0..50 {
        let (attenuation, scattered) = m.scatter(&r, &rec).expect("lambertian must scatter");
        assert_eq!(attenuation, albedo);
        assert_eq!(scattered.origin(), p);
        // The scatter direction never degenerates to the zero vector.
        assert!(!scattered.direction().near_zero());
    }
}

#[test]
fn metal_clamps_fuzz_at_one() {
    let m = Metal::new(Vec3::new(S, S, S), 3 * S);
    assert_eq!(m.fuzz, ONE);
    let sharp = Metal::new(Vec3::new(S, S, S), S / 4);
    assert_eq!(sharp.fuzz, S / 4);
}

#[test]
fn polished_metal_reflects_about_the_normal() {
    let albedo = Vec3::new(S, S / 2, S / 2);
    let m = Metal::new(albedo, 0);
    let rec = record_at(Vec3::new(0, 0, 0), Vec3::new(0, S, 0), true);
    let r = Ray::new(Vec3::new(-S, S, 0), Vec3::new(S, -S, 0));
    let (attenuation, scattered) = m.scatter(&r, &rec).expect("grazing reflection scatters");
    assert_eq!(attenuation, albedo);
    assert_eq!(scattered.direction(), Vec3::new(S, S, 0));
}

#[test]
fn metal_absorbs_rays_reflected_into_the_surface() {
    // The incoming ray leaves along the normal, so the reflected
    // direction points into the surface and the metal declines.
    let m = Metal::new(Vec3::new(S, S, S), 0);
    let rec = record_at(Vec3::new(0, 0, 0), Vec3::new(0, S, 0), true);
    let r = Ray::new(Vec3::new(0, 0, 0), Vec3::new(0, S, 0));
    assert!(m.scatter(&r, &rec).is_none());
}

#[test]
fn dielectric_at_normal_incidence_with_equal_indices_is_undeviated() {
    // Refraction index one on both sides of the interface: the ray
    // passes straight through, whatever the reflectance draw.
    let d = Dielectric::new(ONE);
    assert_eq!(d.refraction_index, ONE);
    let rec = record_at(Vec3::new(0, 0, 0), Vec3::new(0, S, 0), true);
    let r = Ray::new(Vec3::new(0, S, 0), Vec3::new(0, -S, 0));
    for _ in 0..50 {
        let (attenuation, scattered) = d.scatter(&r, &rec).expect("dielectric always scatters");
        assert_eq!(attenuation, Vec3::new(S, S, S));
        assert_eq!(scattered.direction(), Vec3::new(0, -S, 0));
        assert_eq!(scattered.origin(), Vec3::new(0, 0, 0));
    }
}

#[test]
fn dielectric_reflectance_at_grazing_angle_is_high() {
    // Schlick's approximation at cosine zero approaches one.
    let r = Dielectric::reflectance(0, 3 * S / 2);
    assert!(r > 9 * S / 10, "grazing reflectance {} should be near one", r);
    // At normal incidence with index 1.5 it is about four percent.
    let r0 = Dielectric::reflectance(ONE, 3 * S / 2);
    assert!((r0 - 2621).abs() < 300, "normal reflectance {} should be near 0.04", r0);
}
