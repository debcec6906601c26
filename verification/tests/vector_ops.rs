use raytrace::color::color_bytes;
use raytrace::fx::{HALF, ONE};
use raytrace::interval::Interval;
use raytrace::vec3::Vec3;

const S: i64 = 65536;

#[test]
fn vector_componentwise_ops() {
    let u = Vec3::new(S, 2 * S, -3 * S);
    let v = Vec3::new(HALF, -S, S);
    assert_eq!(Vec3::add(u, v), Vec3::new(S + HALF, S, -2 * S));
    assert_eq!(Vec3::sub(u, v), Vec3::new(HALF, 3 * S, -4 * S));
    assert_eq!(Vec3::mul(u, v), Vec3::new(HALF, -2 * S, -3 * S));
    assert_eq!(u.scalar_mul(2 * S), Vec3::new(2 * S, 4 * S, -6 * S));
    assert_eq!(u.scalar_div(2 * S), Vec3::new(HALF, S, -(3 * S) / 2));
}

#[test]
fn dot_and_cross_products() {
    let u = Vec3::new(S, 0, 0);
    let v = Vec3::new(0, S, 0);
    assert_eq!(Vec3::dot_product(u, v), 0);
    assert_eq!(Vec3::dot_product(u, u), S);
    assert_eq!(Vec3::cross_product(u, v), Vec3::new(0, 0, S));
    let w = Vec3::new(2 * S, 3 * S, 4 * S);
    assert_eq!(Vec3::dot_product(w, w), 4 * S + 9 * S + 16 * S);
}

#[test]
fn length_of_pythagorean_vector_is_exact() {
    let v = Vec3::new(3 * S, 4 * S, 0);
    assert_eq!(v.length_squared(), 25 * S);
    assert_eq!(v.length(), 5 * S);
}

#[test]
fn unit_vector_length_is_one_within_tolerance() {
    let cases = [
        Vec3::new(3 * S, 4 * S, 0),
        Vec3::new(S, S, S),
        Vec3::new(-7 * S, 2 * S, 5 * S),
        Vec3::new(100000, 0, 0),
        Vec3::new(12345, -54321, 23456),
    ];
    for v in cases {
        let l2 = v.unit_vector().length_squared();
        assert!((l2 - ONE).abs() <= 16, "length squared {} too far from one", l2);
    }
}

#[test]
fn unit_vector_of_exact_unit_is_identity() {
    let v = Vec3::new(0, 0, -S);
    assert_eq!(v.unit_vector(), v);
    assert_eq!(v.unit_vector().length_squared(), ONE);
}

#[test]
fn near_zero_detects_only_the_zero_vector() {
    assert!(Vec3::new(0, 0, 0).near_zero());
    assert!(!Vec3::new(1, 0, 0).near_zero());
    assert!(!Vec3::new(0, -1, 0).near_zero());
}

#[test]
fn reflect_off_flat_surface_preserves_angle() {
    // A 45-degree incidence on a flat floor: the vertical component
    // flips, the horizontal component is kept.
    let v = Vec3::new(S, -S, 0);
    let n = Vec3::new(0, S, 0);
    assert_eq!(Vec3::reflect(v, n), Vec3::new(S, S, 0));
    // The reflected angle cosine is the exact negation.
    let r = Vec3::reflect(v, n);
    assert_eq!(Vec3::dot_product(r, n), -Vec3::dot_product(v, n));
}

#[test]
fn refract_at_normal_incidence_with_unit_ratio_is_undeviated() {
    let uv = Vec3::new(0, -S, 0);
    let n = Vec3::new(0, S, 0);
    assert_eq!(Vec3::refract(uv, n, ONE), uv);
}

#[test]
fn random_samplers_stay_in_their_regions() {
    for _ in 0..100 {
        let p = Vec3::random_in_unit_disk();
        assert_eq!(p.z, 0);
        assert!(p.length_squared() < ONE);
        let q = Vec3::random_unit_vector();
        assert!(q.length_squared() > 0);
        let c = Vec3::random_vector1();
        assert!(0 <= c.x && c.x < ONE && 0 <= c.y && c.y < ONE && 0 <= c.z && c.z < ONE);
    }
}

#[test]
fn interval_surrounds_is_strict() {
    let i = Interval::new(0, S);
    assert!(Interval::surrounds(&i, 1));
    assert!(Interval::surrounds(&i, S - 1));
    assert!(!Interval::surrounds(&i, 0));
    assert!(!Interval::surrounds(&i, S));
    assert!(!Interval::surrounds(&i, -1));
}

#[test]
fn interval_clamp_forces_into_range() {
    let i = Interval::new(0, S);
    assert_eq!(Interval::clamp(&i, -5), 0);
    assert_eq!(Interval::clamp(&i, 2 * S), S);
    assert_eq!(Interval::clamp(&i, HALF), HALF);
}

#[test]
fn interval_default_is_the_empty_sentinel() {
    let e = Interval::default();
    assert!(e.min > e.max);
    assert!(!Interval::surrounds(&e, 0));
}

#[test]
fn gamma_and_clamp_edges() {
    // Zero stays zero, one becomes the largest byte, negatives floor
    // at zero.
    assert_eq!(color_bytes(Vec3::new(0, 0, 0)), (0, 0, 0));
    assert_eq!(color_bytes(Vec3::new(ONE, ONE, ONE)), (255, 255, 255));
    assert_eq!(color_bytes(Vec3::new(-5, -S, -1)), (0, 0, 0));
}

#[test]
fn gamma_takes_square_root_of_linear_value() {
    // A quarter in linear light is a half after gamma, and a half of
    // the byte range is 128.
    let quarter = S / 4;
    assert_eq!(color_bytes(Vec3::new(quarter, quarter, quarter)), (128, 128, 128));
}
