//! The scene: an ordered collection of spheres, hit-tested by
//! querying every member and keeping the closest accepted hit.

use vstd::prelude::*;

verus! {

use crate::hittable::HitRecord;
use crate::interval::Interval;
use crate::material::m_wf;
use crate::ray::Ray;
use crate::sphere::{Sphere, s_hit_record_at, s_sphere_hit, s_sphere_root};
use crate::vec3::{s_len2, lemma_len2_nonneg};

/// A sphere the renderer can traverse safely: the radius did not
/// round to zero and the material's scatter step is well formed.
pub open spec fn sp_wf(s: Sphere) -> bool {
    s.radius != 0 && m_wf(s.mat)
}

/// Every member of the scene is well formed.
pub open spec fn wf_objects(objects: Seq<Sphere>) -> bool {
    forall|i: int| 0 <= i < objects.len() ==> sp_wf(#[trigger] objects[i])
}

/// The fold the scene traversal computes, starting at member `i` with
/// the best record found so far and its parameter as the shrunken
/// upper bound: each accepted hit tightens the bound, so farther
/// members are rejected automatically.
pub open spec fn s_list_hit_from(
    objects: Seq<Sphere>,
    r: Ray,
    t_min: int,
    i: int,
    closest: int,
    best: Option<HitRecord>,
) -> Option<HitRecord>
    decreases objects.len() - i,
{
    if i < 0 || i >= objects.len() {
        best
    } else {
        match s_sphere_hit(objects[i], r, t_min, closest) {
            Some(rec) => s_list_hit_from(objects, r, t_min, i + 1, rec.t as int, Some(rec)),
            None => s_list_hit_from(objects, r, t_min, i + 1, closest, best),
        }
    }
}

/// Specification twin of `HittableList::hit`.
pub open spec fn s_list_hit(objects: Seq<Sphere>, r: Ray, t_min: int, t_max: int) -> Option<
    HitRecord,
> {
    s_list_hit_from(objects, r, t_min, 0, t_max, None)
}

/// An ordered, append-only collection of spheres.
pub struct HittableList {
    pub objects: Vec<Sphere>,
}

impl HittableList {
    /// An empty scene.
    pub fn new() -> (r: HittableList)
        ensures
            r.objects@.len() == 0,
    {
        HittableList { objects: Vec::new() }
    }

    /// Append a sphere to the scene.
    pub fn add(&mut self, object: Sphere)
        ensures
            final(self).objects@ == old(self).objects@.push(object),
    {
        self.objects.push(object);
    }

    /// Test the ray against every member and report the closest
    /// accepted hit, tightening the valid range as hits are found.
    pub fn hit(&self, r: &Ray, ray_t: Interval, rec: &mut HitRecord) -> (res: bool)
        requires
            wf_objects(self.objects@),
        ensures
            res == (s_list_hit(self.objects@, *r, ray_t.min as int, ray_t.max as int) is Some),
            res ==> Some(*final(rec)) == s_list_hit(
                self.objects@,
                *r,
                ray_t.min as int,
                ray_t.max as int,
            ),
            !res ==> *final(rec) == *old(rec),
    {
        let mut temp_rec = HitRecord::default();
        let mut hit_anything = false;
        let mut closest_so_far = ray_t.max;
        let mut idx: usize = 0;

        while idx < self.objects.len()
            invariant
                wf_objects(self.objects@),
                idx <= self.objects.len(),
                hit_anything ==> closest_so_far == temp_rec.t && *rec == temp_rec,
                !hit_anything ==> closest_so_far == ray_t.max && *rec == *old(rec),
                s_list_hit(self.objects@, *r, ray_t.min as int, ray_t.max as int)
                    == s_list_hit_from(
                    self.objects@,
                    *r,
                    ray_t.min as int,
                    idx as int,
                    closest_so_far as int,
                    if hit_anything {
                        Some(temp_rec)
                    } else {
                        None
                    },
                ),
            decreases self.objects.len() - idx,
        {
            let shrunk = Interval { min: ray_t.min, max: closest_so_far };
            if self.objects[idx].hit(r, shrunk, &mut temp_rec) {
                hit_anything = true;
                closest_so_far = temp_rec.t;
                *rec = temp_rec;
            }
            idx = idx + 1;
        }

        hit_anything
    }
}

impl Default for HittableList {
    /// An empty scene.
    fn default() -> (r: HittableList)
        ensures
            r.objects@.len() == 0,
    {
        HittableList::new()
    }
}

/// A hit found in a well-formed scene carries a well-formed material,
/// and only a ray whose squared direction length did not round to
/// zero can hit anything.
pub proof fn lemma_list_hit_gives_wf(objects: Seq<Sphere>, r: Ray, t_min: int, t_max: int)
    requires
        wf_objects(objects),
    ensures
        s_list_hit(objects, r, t_min, t_max) matches Some(o) ==> m_wf(o.mat) && s_len2(
            r.direction,
        ) != 0,
{
    lemma_list_hit_closest(objects, r, t_min, t_max);
    match s_list_hit(objects, r, t_min, t_max) {
        Some(o) => {
            let j = choose|j: int|
                0 <= j < objects.len() && Some(o) == s_sphere_hit(
                    #[trigger] objects[j],
                    r,
                    t_min,
                    t_max,
                );
            assert(o.mat == objects[j].mat);
            assert(sp_wf(objects[j]));
        },
        None => {},
    }
}

/// Growing the upper bound keeps an accepted root: whatever a member
/// reports against a tighter bound, it reports against a looser one.
pub proof fn lemma_sphere_root_grow(s: Sphere, r: Ray, t_min: int, u1: int, u2: int)
    requires
        u1 <= u2,
        s_sphere_root(s, r, t_min, u1) is Some,
    ensures
        s_sphere_root(s, r, t_min, u2) == s_sphere_root(s, r, t_min, u1),
{
    let oc = crate::vec3::s_vsub(s.center, r.origin);
    let a = s_len2(r.direction);
    let h = crate::vec3::s_dot(r.direction, oc);
    let c = crate::fx::s_sub(
        s_len2(oc),
        crate::fx::s_mul(s.radius as int, s.radius as int),
    );
    let discriminant = crate::fx::s_sub(crate::fx::s_mul(h, h), crate::fx::s_mul(a, c));
    let sqrtd = crate::fx::s_sqrt(discriminant);
    lemma_len2_nonneg(r.direction);
    assert(a > 0);
    let root1 = crate::fx::s_div(crate::fx::s_sub(h, sqrtd), a);
    let root2 = crate::fx::s_div(crate::fx::s_add(h, sqrtd), a);
    assert(sqrtd >= 0);
    crate::fx::lemma_clip_mono(h - sqrtd, h + sqrtd);
    crate::fx::lemma_s_div_mono(crate::fx::s_sub(h, sqrtd), crate::fx::s_add(h, sqrtd), a);
    assert(root1 <= root2);
    if t_min < root1 && root1 < u1 {
    } else if t_min < root2 && root2 < u1 {
        assert(!(t_min < root1));
    }
}

/// Shrinking the upper bound down to anything still above an accepted
/// root keeps that root.
pub proof fn lemma_sphere_root_shrink(s: Sphere, r: Ray, t_min: int, u1: int, u2: int)
    requires
        u1 <= u2,
        s_sphere_root(s, r, t_min, u2) matches Some(t) && t < u1,
    ensures
        s_sphere_root(s, r, t_min, u1) == s_sphere_root(s, r, t_min, u2),
{
    let oc = crate::vec3::s_vsub(s.center, r.origin);
    let a = s_len2(r.direction);
    let h = crate::vec3::s_dot(r.direction, oc);
    let c = crate::fx::s_sub(
        s_len2(oc),
        crate::fx::s_mul(s.radius as int, s.radius as int),
    );
    let discriminant = crate::fx::s_sub(crate::fx::s_mul(h, h), crate::fx::s_mul(a, c));
    let sqrtd = crate::fx::s_sqrt(discriminant);
    lemma_len2_nonneg(r.direction);
    assert(a > 0);
    let root1 = crate::fx::s_div(crate::fx::s_sub(h, sqrtd), a);
    let root2 = crate::fx::s_div(crate::fx::s_add(h, sqrtd), a);
    assert(sqrtd >= 0);
    crate::fx::lemma_clip_mono(h - sqrtd, h + sqrtd);
    crate::fx::lemma_s_div_mono(crate::fx::s_sub(h, sqrtd), crate::fx::s_add(h, sqrtd), a);
    assert(root1 <= root2);
    if t_min < root1 && root1 < u2 {
    } else if t_min < root2 && root2 < u2 {
        assert(!(t_min < root1) || !(root1 < u2));
        assert(root1 <= root2);
        assert(root2 < u1);
        assert(!(t_min < root1));
    }
}

/// What the scene fold guarantees about its result: the parameter
/// never exceeds the running bound, the record is some member's own
/// hit against the original range, and no member intersects strictly
/// below the reported parameter.
#[verifier::rlimit(100)]
#[verifier::spinoff_prover]
proof fn lemma_list_hit_from_props(
    objects: Seq<Sphere>,
    r: Ray,
    t_min: int,
    i: int,
    closest: int,
    best: Option<HitRecord>,
    t_max: int,
)
    requires
        0 <= i <= objects.len(),
        closest <= t_max,
        best matches Some(b) ==> b.t as int <= closest,
    ensures
        s_list_hit_from(objects, r, t_min, i, closest, best) is None ==> best is None
            && forall|j: int|
            i <= j < objects.len() ==> s_sphere_root(#[trigger] objects[j], r, t_min, closest)
                is None,
        s_list_hit_from(objects, r, t_min, i, closest, best) matches Some(o) ==> o.t as int
            <= closest,
        s_list_hit_from(objects, r, t_min, i, closest, best) matches Some(o) ==> (best == Some(o)
            || exists|j: int|
            0 <= j < objects.len() && Some(o) == s_sphere_hit(
                #[trigger] objects[j],
                r,
                t_min,
                t_max,
            )),
        s_list_hit_from(objects, r, t_min, i, closest, best) matches Some(o) ==> forall|j: int|
            i <= j < objects.len() ==> s_sphere_root(#[trigger] objects[j], r, t_min, o.t as int)
                is None,
    decreases objects.len() - i,
{
    if i == objects.len() {
        return ;
    }
    let out = s_list_hit_from(objects, r, t_min, i, closest, best);
    match s_sphere_hit(objects[i], r, t_min, closest) {
        Some(rec) => {
            let t = s_sphere_root(objects[i], r, t_min, closest)->Some_0;
            assert(rec.t as int == t);
            assert(t_min < t && t < closest);
            lemma_list_hit_from_props(objects, r, t_min, i + 1, t, Some(rec), t_max);
            assert(out == s_list_hit_from(objects, r, t_min, i + 1, t, Some(rec)));
            let o = out->Some_0;
            assert(out is Some);
            assert(o.t as int <= t);
            // Provenance: either a later member produced it, or it is
            // this member's hit, lifted to the original bound.
            if out == Some(rec) {
                lemma_sphere_root_grow(objects[i], r, t_min, closest, t_max);
                assert(Some(o) == s_sphere_hit(objects[i], r, t_min, t_max));
            }
            // This member has no root below the reported parameter.
            if s_sphere_root(objects[i], r, t_min, o.t as int) is Some {
                let tt = s_sphere_root(objects[i], r, t_min, o.t as int)->Some_0;
                assert(t_min < tt && tt < o.t as int);
                lemma_sphere_root_grow(objects[i], r, t_min, o.t as int, closest);
                assert(tt == t);
                assert(false);
            }
        },
        None => {
            lemma_list_hit_from_props(objects, r, t_min, i + 1, closest, best, t_max);
            match out {
                Some(o) => {
                    if s_sphere_root(objects[i], r, t_min, o.t as int) is Some {
                        let tt = s_sphere_root(objects[i], r, t_min, o.t as int)->Some_0;
                        assert(t_min < tt && tt < o.t as int);
                        lemma_sphere_root_grow(objects[i], r, t_min, o.t as int, closest);
                        assert(false);
                    }
                },
                None => {},
            }
        },
    }
}

/// The scene reports the globally closest intersection: when a hit
/// comes back it is some member's own hit against the full range, and
/// every member's accepted root lies no closer; when none comes back,
/// no member accepts any root.  The record carries the nearer
/// member's material, because it is that member's own hit record.
pub proof fn lemma_list_hit_closest(objects: Seq<Sphere>, r: Ray, t_min: int, t_max: int)
    ensures
        s_list_hit(objects, r, t_min, t_max) is None ==> forall|j: int|
            0 <= j < objects.len() ==> s_sphere_root(#[trigger] objects[j], r, t_min, t_max)
                is None,
        s_list_hit(objects, r, t_min, t_max) matches Some(o) ==> exists|j: int|
            0 <= j < objects.len() && Some(o) == s_sphere_hit(
                #[trigger] objects[j],
                r,
                t_min,
                t_max,
            ),
        s_list_hit(objects, r, t_min, t_max) matches Some(o) ==> forall|j: int|
            0 <= j < objects.len() ==> ((#[trigger] s_sphere_root(objects[j], r, t_min, t_max))
                matches Some(t) ==> o.t as int <= t),
{
    lemma_list_hit_from_props(objects, r, t_min, 0, t_max, None, t_max);
    match s_list_hit(objects, r, t_min, t_max) {
        Some(o) => {
            assert forall|j: int|
                0 <= j < objects.len() implies ((#[trigger] s_sphere_root(
                objects[j],
                r,
                t_min,
                t_max,
            )) matches Some(t) ==> o.t as int <= t) by {
                match s_sphere_root(objects[j], r, t_min, t_max) {
                    Some(t) => {
                        if t < o.t as int {
                            lemma_sphere_root_shrink(objects[j], r, t_min, o.t as int, t_max);
                            assert(s_sphere_root(objects[j], r, t_min, o.t as int) is Some);
                        }
                    },
                    None => {},
                }
            }
        },
        None => {},
    }
}

} // verus!
