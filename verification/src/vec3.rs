//! Three-component vector algebra over the fixed-point scalars.
//!
//! A `Vec3` serves interchangeably as a point, a direction and a
//! color.  Every operation is pinned to a specification twin built
//! from the scalar twins in `fx`, so a caller knows the exact value
//! of every component of every result.

use vstd::prelude::*;

verus! {

use crate::fx::{
    SCALE, ONE, TWO, FX_MAX, clip, tdiv, s_add, s_sub, s_mul, s_div, s_sqrt,
    fx_add, fx_sub, fx_mul, fx_div, fx_sqrt,
    lemma_s_mul_sq_nonneg, lemma_tdiv_mul_exact,
};

/// A vector of three fixed-point components.
#[derive(Clone, Copy, Debug, PartialEq, Eq, Structural)]
pub struct Vec3 {
    pub x: i64,
    pub y: i64,
    pub z: i64,
}

/// A point in space is a vector from the origin.
pub type Point3 = Vec3;

/// Build a vector from three already-clipped component values.
pub open spec fn fx3(a: int, b: int, c: int) -> Vec3 {
    Vec3 { x: a as i64, y: b as i64, z: c as i64 }
}

/// Specification twin of `Vec3::add`.
pub open spec fn s_vadd(u: Vec3, v: Vec3) -> Vec3 {
    fx3(
        s_add(u.x as int, v.x as int),
        s_add(u.y as int, v.y as int),
        s_add(u.z as int, v.z as int),
    )
}

/// Specification twin of `Vec3::sub`.
pub open spec fn s_vsub(u: Vec3, v: Vec3) -> Vec3 {
    fx3(
        s_sub(u.x as int, v.x as int),
        s_sub(u.y as int, v.y as int),
        s_sub(u.z as int, v.z as int),
    )
}

/// Specification twin of `Vec3::scalar_mul`.
pub open spec fn s_vsmul(v: Vec3, t: int) -> Vec3 {
    fx3(s_mul(t, v.x as int), s_mul(t, v.y as int), s_mul(t, v.z as int))
}

/// Specification twin of `Vec3::scalar_div`.
pub open spec fn s_vsdiv(v: Vec3, t: int) -> Vec3 {
    fx3(s_div(v.x as int, t), s_div(v.y as int, t), s_div(v.z as int, t))
}

/// Specification twin of `Vec3::mul`, the component-wise product.
pub open spec fn s_vmul(u: Vec3, v: Vec3) -> Vec3 {
    fx3(
        s_mul(u.x as int, v.x as int),
        s_mul(u.y as int, v.y as int),
        s_mul(u.z as int, v.z as int),
    )
}

/// Specification twin of `Vec3::dot_product`.
pub open spec fn s_dot(u: Vec3, v: Vec3) -> int {
    s_add(
        s_add(s_mul(u.x as int, v.x as int), s_mul(u.y as int, v.y as int)),
        s_mul(u.z as int, v.z as int),
    )
}

/// Specification twin of `Vec3::cross_product`.
pub open spec fn s_cross(u: Vec3, v: Vec3) -> Vec3 {
    fx3(
        s_sub(s_mul(u.y as int, v.z as int), s_mul(u.z as int, v.y as int)),
        s_sub(s_mul(u.z as int, v.x as int), s_mul(u.x as int, v.z as int)),
        s_sub(s_mul(u.x as int, v.y as int), s_mul(u.y as int, v.x as int)),
    )
}

/// Specification twin of `Vec3::length_squared`.
pub open spec fn s_len2(v: Vec3) -> int {
    s_add(
        s_add(s_mul(v.x as int, v.x as int), s_mul(v.y as int, v.y as int)),
        s_mul(v.z as int, v.z as int),
    )
}

/// Specification twin of `Vec3::length`.
pub open spec fn s_len(v: Vec3) -> int {
    s_sqrt(s_len2(v))
}

/// Specification twin of `Vec3::unit_vector`.
pub open spec fn s_unit(v: Vec3) -> Vec3 {
    s_vsdiv(v, s_len(v))
}

/// Specification twin of `Vec3::near_zero`.  The original threshold,
/// one part in a hundred million, lies below the fixed-point grid
/// resolution, so the representable test is exact zero.
pub open spec fn s_near_zero(v: Vec3) -> bool {
    v.x == 0 && v.y == 0 && v.z == 0
}

/// Specification twin of `Vec3::reflect`.
pub open spec fn s_reflect(v: Vec3, n: Vec3) -> Vec3 {
    s_vsub(v, s_vsmul(n, s_mul(TWO as int, s_dot(v, n))))
}

/// Specification twin of `Vec3::refract`.
pub open spec fn s_refract(uv: Vec3, n: Vec3, etai_over_etat: int) -> Vec3 {
    let cos0 = s_dot(s_vsmul(uv, -(ONE as int)), n);
    let cos_theta = if cos0 < ONE { cos0 } else { ONE as int };
    let r_out_perp = s_vsmul(s_vadd(uv, s_vsmul(n, cos_theta)), etai_over_etat);
    let k = s_sub(ONE as int, s_len2(r_out_perp));
    let k_abs = if k < 0 { -k } else { k };
    let r_out_parallel = s_vsmul(n, s_mul(-(ONE as int), s_sqrt(k_abs)));
    s_vadd(r_out_parallel, r_out_perp)
}

/// What `Vec3::random_unit_vector` can return: some rejection-sampled
/// vector of squared length in `(0, 1]`, scaled by its own length.
pub open spec fn is_unit_sample(r: Vec3) -> bool {
    exists|p: Vec3|
        0 < s_len2(p) <= ONE as int && r == s_vsdiv(p, s_sqrt(s_len2(p)))
}

/// The squared length of any vector is non-negative.
pub proof fn lemma_len2_nonneg(v: Vec3)
    ensures
        s_len2(v) >= 0,
{
    lemma_s_mul_sq_nonneg(v.x as int);
    lemma_s_mul_sq_nonneg(v.y as int);
    lemma_s_mul_sq_nonneg(v.z as int);
}

/// A vector of positive squared length has a positive length.
pub proof fn lemma_len_pos(v: Vec3)
    requires
        s_len2(v) > 0,
    ensures
        s_len(v) > 0,
{
    let l2 = s_len2(v);
    crate::fx::lemma_sqrt_floor_bounds((l2 * SCALE) as nat);
    let s = crate::fx::sqrt_floor((l2 * SCALE) as nat) as int;
    assert(l2 * SCALE >= SCALE) by (nonlinear_arith)
        requires l2 >= 1;
    if s == 0 {
        assert((s + 1) * (s + 1) == 1) by (nonlinear_arith)
            requires s == 0;
    }
}

/// The exactly representable instance of unit-length normalization:
/// a vector whose squared length is exactly one passes through
/// normalization unchanged, so its unit vector has squared length
/// exactly one.  For other vectors the squared length after
/// normalization is near one only up to grid rounding, which the
/// executable tests exercise.
pub proof fn lemma_unit_of_unit(v: Vec3)
    requires
        s_len2(v) == ONE as int,
        -(FX_MAX as int) <= v.x as int,
        -(FX_MAX as int) <= v.y as int,
        -(FX_MAX as int) <= v.z as int,
    ensures
        s_unit(v) == v,
        s_len2(s_unit(v)) == ONE as int,
{
    assert(65536int * 65536int == 4294967296int) by (nonlinear_arith);
    assert(65537int * 65537int == 4295098369int) by (nonlinear_arith);
    crate::fx::lemma_sqrt_floor_unique(4294967296nat, 65536nat);
    assert(s_len(v) == SCALE as int);
    lemma_tdiv_mul_exact(v.x as int, SCALE as int);
    lemma_tdiv_mul_exact(v.y as int, SCALE as int);
    lemma_tdiv_mul_exact(v.z as int, SCALE as int);
}

/// Reflection off a flat surface preserves the incidence angle: for a
/// unit normal along a coordinate axis, where the fixed-point grid
/// can hold every step of the formula exactly, the normal component
/// of the direction is negated, the tangential components are kept,
/// and so the angle of reflection equals the angle of incidence.
pub proof fn lemma_reflect_flat(v: Vec3, n: Vec3)
    requires
        n.x == 0,
        n.z == 0,
        n.y == ONE || n.y as int == -(ONE as int),
        -(FX_MAX as int) <= v.x as int,
        -(FX_MAX as int) <= v.z as int,
        -(FX_MAX as int) <= 2 * (v.y as int) <= FX_MAX as int,
    ensures
        s_reflect(v, n).x == v.x,
        s_reflect(v, n).z == v.z,
        s_reflect(v, n).y as int == -(v.y as int),
        s_dot(s_reflect(v, n), n) == -s_dot(v, n),
{
    let e: int = if n.y == ONE {
        1
    } else {
        -1
    };
    assert(n.y as int == e * SCALE) by (nonlinear_arith)
        requires (e == 1 && n.y == ONE) || (e == -1 && n.y as int == -(ONE as int));
    crate::fx::lemma_s_mul_zero(v.x as int);
    crate::fx::lemma_s_mul_zero(v.z as int);
    if n.y == ONE {
        crate::fx::lemma_s_mul_one(v.y as int);
        assert(s_dot(v, n) == v.y as int);
        crate::fx::lemma_tdiv_mul_exact(2 * (v.y as int), SCALE as int);
        assert(TWO as int * (v.y as int) == (2 * (v.y as int)) * SCALE) by (nonlinear_arith);
        assert(s_mul(TWO as int, s_dot(v, n)) == 2 * (v.y as int));
        crate::fx::lemma_s_mul_zero(2 * (v.y as int));
        crate::fx::lemma_s_mul_one(2 * (v.y as int));
        assert(s_vsmul(n, 2 * (v.y as int)) == fx3(0, 2 * (v.y as int), 0));
        assert(s_reflect(v, n).y as int == -(v.y as int));
        crate::fx::lemma_s_mul_one(-(v.y as int));
        crate::fx::lemma_s_mul_zero(s_reflect(v, n).x as int);
        crate::fx::lemma_s_mul_zero(s_reflect(v, n).z as int);
    } else {
        crate::fx::lemma_s_mul_neg_one(v.y as int);
        assert(s_dot(v, n) == -(v.y as int));
        crate::fx::lemma_tdiv_mul_exact(2 * (v.y as int), SCALE as int);
        assert(TWO as int * (-(v.y as int)) == (-(2 * (v.y as int))) * SCALE) by (nonlinear_arith);
        crate::fx::lemma_tdiv_mul_exact(-(2 * (v.y as int)), SCALE as int);
        assert(s_mul(TWO as int, s_dot(v, n)) == -(2 * (v.y as int)));
        crate::fx::lemma_s_mul_zero(-(2 * (v.y as int)));
        crate::fx::lemma_s_mul_neg_one(-(2 * (v.y as int)));
        assert(s_vsmul(n, -(2 * (v.y as int))) == fx3(0, 2 * (v.y as int), 0));
        assert(s_reflect(v, n).y as int == -(v.y as int));
        crate::fx::lemma_s_mul_neg_one(-(v.y as int));
        crate::fx::lemma_s_mul_zero(s_reflect(v, n).x as int);
        crate::fx::lemma_s_mul_zero(s_reflect(v, n).z as int);
    }
}

impl Vec3 {
    /// Build a vector from its three components.
    pub fn new(e0: i64, e1: i64, e2: i64) -> (r: Vec3)
        ensures
            r == (Vec3 { x: e0, y: e1, z: e2 }),
    {
        Vec3 { x: e0, y: e1, z: e2 }
    }

    /// First component.
    pub fn x(&self) -> (r: i64)
        ensures
            r == self.x,
    {
        self.x
    }

    /// Second component.
    pub fn y(&self) -> (r: i64)
        ensures
            r == self.y,
    {
        self.y
    }

    /// Third component.
    pub fn z(&self) -> (r: i64)
        ensures
            r == self.z,
    {
        self.z
    }

    /// Component-wise sum.
    pub fn add(u: Vec3, v: Vec3) -> (r: Vec3)
        ensures
            r == s_vadd(u, v),
    {
        Vec3 { x: fx_add(u.x, v.x), y: fx_add(u.y, v.y), z: fx_add(u.z, v.z) }
    }

    /// Component-wise difference.
    pub fn sub(u: Vec3, v: Vec3) -> (r: Vec3)
        ensures
            r == s_vsub(u, v),
    {
        Vec3 { x: fx_sub(u.x, v.x), y: fx_sub(u.y, v.y), z: fx_sub(u.z, v.z) }
    }

    /// Scale every component by `t`.
    pub fn scalar_mul(&self, t: i64) -> (r: Vec3)
        ensures
            r == s_vsmul(*self, t as int),
    {
        Vec3 { x: fx_mul(t, self.x), y: fx_mul(t, self.y), z: fx_mul(t, self.z) }
    }

    /// Divide every component by `t`.
    pub fn scalar_div(&self, t: i64) -> (r: Vec3)
        requires
            t != 0,
        ensures
            r == s_vsdiv(*self, t as int),
    {
        Vec3 { x: fx_div(self.x, t), y: fx_div(self.y, t), z: fx_div(self.z, t) }
    }

    /// Sum of the squares of the components.
    pub fn length_squared(&self) -> (r: i64)
        ensures
            r as int == s_len2(*self),
            r >= 0,
    {
        proof {
            lemma_len2_nonneg(*self);
        }
        fx_add(
            fx_add(fx_mul(self.x, self.x), fx_mul(self.y, self.y)),
            fx_mul(self.z, self.z),
        )
    }

    /// Euclidean length, rounded down to the grid.
    pub fn length(&self) -> (r: i64)
        ensures
            r as int == s_len(*self),
            r >= 0,
    {
        let l2 = self.length_squared();
        fx_sqrt(l2)
    }

    /// Sum of the products of corresponding components.
    pub fn dot_product(u: Vec3, v: Vec3) -> (r: i64)
        ensures
            r as int == s_dot(u, v),
    {
        fx_add(fx_add(fx_mul(u.x, v.x), fx_mul(u.y, v.y)), fx_mul(u.z, v.z))
    }

    /// Vector cross product.
    pub fn cross_product(u: Vec3, v: Vec3) -> (r: Vec3)
        ensures
            r == s_cross(u, v),
    {
        Vec3 {
            x: fx_sub(fx_mul(u.y, v.z), fx_mul(u.z, v.y)),
            y: fx_sub(fx_mul(u.z, v.x), fx_mul(u.x, v.z)),
            z: fx_sub(fx_mul(u.x, v.y), fx_mul(u.y, v.x)),
        }
    }

    /// The vector scaled to length one.  Callers must rule out the
    /// zero vector, whose direction is undefined.
    pub fn unit_vector(&self) -> (r: Vec3)
        requires
            s_len2(*self) != 0,
        ensures
            r == s_unit(*self),
    {
        proof {
            lemma_len2_nonneg(*self);
            lemma_len_pos(*self);
        }
        let l = self.length();
        self.scalar_div(l)
    }

    /// Whether every component is below the degeneracy threshold in
    /// magnitude.  The threshold is finer than the grid, so this is
    /// the exact-zero test.
    pub fn near_zero(&self) -> (r: bool)
        ensures
            r == s_near_zero(*self),
    {
        self.x == 0 && self.y == 0 && self.z == 0
    }

    /// Mirror `v` about the plane orthogonal to `n`.
    pub fn reflect(v: Vec3, n: Vec3) -> (r: Vec3)
        ensures
            r == s_reflect(v, n),
    {
        Vec3::sub(v, n.scalar_mul(fx_mul(TWO, Vec3::dot_product(v, n))))
    }

    /// Component-wise product, used for color attenuation.
    pub fn mul(u: Vec3, v: Vec3) -> (r: Vec3)
        ensures
            r == s_vmul(u, v),
    {
        Vec3::new(fx_mul(u.x, v.x), fx_mul(u.y, v.y), fx_mul(u.z, v.z))
    }

    /// A vector whose components are uniform random scalars in `[0, 1)`.
    pub fn random_vector1() -> (r: Vec3)
        ensures
            0 <= r.x < ONE,
            0 <= r.y < ONE,
            0 <= r.z < ONE,
    {
        Vec3::new(
            crate::rng::random_scalar(),
            crate::rng::random_scalar(),
            crate::rng::random_scalar(),
        )
    }

    /// A vector whose components are uniform random scalars scaled
    /// into `[min, max)`.
    pub fn random_vector2(min: i64, max: i64) -> (r: Vec3)
        ensures
            exists|a: int, b: int, c: int|
                0 <= a < SCALE && 0 <= b < SCALE && 0 <= c < SCALE
                && r.x as int == s_add(min as int, s_mul(s_sub(max as int, min as int), a))
                && r.y as int == s_add(min as int, s_mul(s_sub(max as int, min as int), b))
                && r.z as int == s_add(min as int, s_mul(s_sub(max as int, min as int), c)),
    {
        Vec3::new(
            crate::rng::random_scalar_between(min, max),
            crate::rng::random_scalar_between(min, max),
            crate::rng::random_scalar_between(min, max),
        )
    }

    /// Rejection-sample a direction uniformly on the unit sphere: draw
    /// in the cube `[-1, 1)^3` until the squared length lies in
    /// `(0, 1]`, then scale by the length.  The draw is given a
    /// generous bound of attempts so that the loop provably ends; if
    /// every attempt were rejected the positive x axis would be used,
    /// which is itself an admissible sample.
    pub fn random_unit_vector() -> (r: Vec3)
        ensures
            is_unit_sample(r),
    {
        let mut p = Vec3 { x: ONE, y: 0, z: 0 };
        let mut tries: u32 = 0;
        let mut found = false;
        proof {
            crate::fx::lemma_s_mul_one(ONE as int);
            crate::fx::lemma_s_mul_zero(0);
            assert(s_len2(p) == ONE as int);
        }
        while !found && tries < 1000
            invariant
                0 < s_len2(p) <= ONE as int,
            decreases 1000 - tries, (if found { 0int } else { 1int }),
        {
            let q = Vec3::random_vector2(-ONE, ONE);
            let lensq = q.length_squared();
            if 0 < lensq && lensq <= ONE {
                p = q;
                found = true;
            } else {
                tries = tries + 1;
            }
        }
        proof {
            lemma_len_pos(p);
        }
        let l = p.length_squared();
        let d = fx_sqrt(l);
        let r = p.scalar_div(d);
        proof {
            assert(0 < s_len2(p) <= ONE as int && r == s_vsdiv(p, s_sqrt(s_len2(p))));
        }
        r
    }

    /// Rejection-sample a point in the unit disk of the xy plane:
    /// draw in the square `[-1, 1)^2` until the squared length is
    /// below one.  As above the attempts are bounded, with the origin
    /// as the fallback.
    pub fn random_in_unit_disk() -> (r: Vec3)
        ensures
            0 <= s_len2(r) < ONE as int,
            r.z == 0,
    {
        let mut p = Vec3 { x: 0, y: 0, z: 0 };
        let mut tries: u32 = 0;
        let mut found = false;
        proof {
            crate::fx::lemma_s_mul_zero(0);
            assert(s_len2(p) == 0);
        }
        while !found && tries < 1000
            invariant
                0 <= s_len2(p) < ONE as int,
                p.z == 0,
            decreases 1000 - tries, (if found { 0int } else { 1int }),
        {
            let q = Vec3::new(
                crate::rng::random_scalar_between(-ONE, ONE),
                crate::rng::random_scalar_between(-ONE, ONE),
                0,
            );
            let lensq = q.length_squared();
            if lensq < ONE {
                proof {
                    lemma_len2_nonneg(q);
                }
                p = q;
                found = true;
            } else {
                tries = tries + 1;
            }
        }
        p
    }

    /// Bend a unit direction `uv` through a surface with unit normal
    /// `n` by Snell's law, with the given ratio of refraction indices.
    pub fn refract(uv: Vec3, n: Vec3, etai_over_etat: i64) -> (r: Vec3)
        ensures
            r == s_refract(uv, n, etai_over_etat as int),
    {
        let cos0 = Vec3::dot_product(uv.scalar_mul(-ONE), n);
        let cos_theta = if cos0 < ONE { cos0 } else { ONE };
        let r_out_perp = Vec3::add(uv, n.scalar_mul(cos_theta)).scalar_mul(etai_over_etat);
        let k = fx_sub(ONE, r_out_perp.length_squared());
        let k_abs = if k < 0 { -k } else { k };
        let r_out_parallel = n.scalar_mul(fx_mul(-ONE, fx_sqrt(k_abs)));
        Vec3::add(r_out_parallel, r_out_perp)
    }
}

} // verus!
