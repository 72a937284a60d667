//! Ray/geometry intersection: the hit record, the sphere primitive, and
//! the aggregate that scans its members for the nearest hit.

use vstd::prelude::*;
use crate::fx::{
    Fx, FX_ONE, fx_wf, fx_sub_v, fx_add_v, fx_neg_v, fx_mul_v, fx_div_v, fx_sqrt_v, isqrt,
    lemma_isqrt, lemma_fx_div_mono,
};
use vstd::arithmetic::mul::lemma_mul_nonnegative;
use crate::vec3::{Vec3, V3i, v3i, vwf, vsub_v, vneg_v, vdivs_v, dot_v, len2_v};
use crate::ray::{Ray, RayV, ray_at_v};
use crate::material::Material;

verus! {

/// The model of a hit record.
pub ghost struct HitRecV {
    pub p: V3i,
    pub normal: V3i,
    pub t: int,
    pub front_face: bool,
    pub mat: Material,
}

/// The output of an intersection test: hit point, surface normal oriented
/// against the incoming ray, parametric distance, which side was struck,
/// and the material at the hit point.
#[derive(Clone, Copy, PartialEq, Eq, Structural, Debug)]
pub struct HitRecord {
    pub p: Vec3,
    pub normal: Vec3,
    pub t: Fx,
    pub front_face: bool,
    pub mat: Material,
}

impl View for HitRecord {
    type V = HitRecV;

    open spec fn view(&self) -> HitRecV {
        HitRecV {
            p: self.p@,
            normal: self.normal@,
            t: self.t.raw as int,
            front_face: self.front_face,
            mat: self.mat,
        }
    }
}

impl HitRecord {
    pub open spec fn wf(self) -> bool {
        vwf(self@.p) && vwf(self@.normal) && fx_wf(self@.t) && self.mat.wf()
    }

    /// Orient the stored normal against the incoming ray: when the ray
    /// direction and the outward normal point against each other the front
    /// face was struck and the outward normal is kept; otherwise the hit
    /// is from inside and the stored normal is the negation.
    pub fn set_face_normal(&mut self, r: Ray, outward_normal: Vec3)
        requires
            r.wf(),
            outward_normal.wf(),
        ensures
            final(self).front_face == (dot_v(r@.dir, outward_normal@) < 0),
            final(self)@.normal == if dot_v(r@.dir, outward_normal@) < 0 {
                outward_normal@
            } else {
                vneg_v(outward_normal@)
            },
            final(self).normal.wf(),
            final(self).p == old(self).p,
            final(self).t == old(self).t,
            final(self).mat == old(self).mat,
    {
        let d = crate::vec3::dot(r.direction, outward_normal);
        if d.raw < 0 {
            self.front_face = true;
            self.normal = outward_normal;
        } else {
            self.front_face = false;
            self.normal = outward_normal.neg();
        }
    }
}

impl Default for HitRecord {
    /// A placeholder record: zero point, normal and distance, back face,
    /// and an arbitrary fixed metal material.
    fn default() -> (r: HitRecord)
        ensures
            r@.p == v3i(0, 0, 0),
            r@.normal == v3i(0, 0, 0),
            r@.t == 0,
            r@.front_face == false,
            r.wf(),
    {
        HitRecord {
            p: Vec3::zero(),
            normal: Vec3::zero(),
            t: Fx::zero(),
            front_face: false,
            mat: Material::Metal {
                albedo: Vec3 { x: Fx { raw: 45875 }, y: Fx { raw: 19660 }, z: Fx { raw: 19660 } },
                fuzz: Fx { raw: 65536 },
            },
        }
    }
}

/// The model of a sphere.
pub ghost struct SphereV {
    pub center: V3i,
    pub radius: int,
    pub mat: Material,
}

pub open spec fn sphere_wf(s: SphereV) -> bool {
    vwf(s.center) && fx_wf(s.radius) && s.radius != 0 && s.mat.wf()
}

/// A sphere primitive: center, scalar radius (nonzero; a negative radius
/// flips the outward normal inward), and its material.
#[derive(Clone, Copy, PartialEq, Eq, Structural, Debug)]
pub struct Sphere {
    pub center: Vec3,
    pub radius: Fx,
    pub mat: Material,
}

impl View for Sphere {
    type V = SphereV;

    open spec fn view(&self) -> SphereV {
        SphereV { center: self.center@, radius: self.radius.raw as int, mat: self.mat }
    }
}

/// The parametric distance at which a ray strikes a sphere within the
/// window `(t_min, t_max]` -- open below, so a root exactly at `t_min` is
/// excluded -- if it does: the quadratic in `t` is solved with half-b
/// optimization, the smaller root is preferred, and the larger one is
/// tried when the smaller falls outside the window.  A degenerate
/// (zero-squared-length) direction never hits.
pub open spec fn sphere_hit_t(s: SphereV, r: RayV, t_min: int, t_max: int) -> Option<int> {
    let oc = vsub_v(r.orig, s.center);
    let a = len2_v(r.dir);
    let half_b = dot_v(oc, r.dir);
    let c = fx_sub_v(len2_v(oc), fx_mul_v(s.radius, s.radius));
    let disc = fx_sub_v(fx_mul_v(half_b, half_b), fx_mul_v(a, c));
    if a == 0 || disc < 0 {
        None
    } else {
        let sqrtd = fx_sqrt_v(disc);
        let root1 = fx_div_v(fx_sub_v(fx_neg_v(half_b), sqrtd), a);
        if t_min < root1 <= t_max {
            Some(root1)
        } else {
            let root2 = fx_div_v(fx_add_v(fx_neg_v(half_b), sqrtd), a);
            if t_min < root2 <= t_max {
                Some(root2)
            } else {
                None
            }
        }
    }
}

/// The record a sphere hit at distance `t` produces: the hit point, the
/// outward normal `(p - center) / radius` oriented against the ray, and
/// the sphere's material.
pub open spec fn sphere_rec_v(s: SphereV, r: RayV, t: int) -> HitRecV {
    let p = ray_at_v(r, t);
    let outward = vdivs_v(vsub_v(p, s.center), s.radius);
    let front = dot_v(r.dir, outward) < 0;
    HitRecV {
        p: p,
        normal: if front {
            outward
        } else {
            vneg_v(outward)
        },
        t: t,
        front_face: front,
        mat: s.mat,
    }
}

impl Sphere {
    pub open spec fn wf(self) -> bool {
        sphere_wf(self@)
    }

    pub fn new(center: Vec3, radius: Fx, material: Material) -> (s: Sphere)
        requires
            center.wf(),
            radius.wf(),
            radius.raw != 0,
            material.wf(),
        ensures
            s.wf(),
            s@ == (SphereV { center: center@, radius: radius.raw as int, mat: material }),
    {
        Sphere { center, radius, mat: material }
    }

    /// Intersection test: reports whether the ray strikes this sphere at a
    /// parametric distance within `(t_min, t_max]`, and on success fills
    /// the record exactly as `sphere_rec_v` says; on failure the record is
    /// left untouched.
    pub fn hit(&self, r: Ray, t_min: Fx, t_max: Fx, rec: &mut HitRecord) -> (is_hit: bool)
        requires
            self.wf(),
            r.wf(),
            t_min.wf(),
            t_max.wf(),
        ensures
            is_hit == sphere_hit_t(self@, r@, t_min.raw as int, t_max.raw as int).is_some(),
            is_hit ==> final(rec)@ == sphere_rec_v(
                self@,
                r@,
                sphere_hit_t(self@, r@, t_min.raw as int, t_max.raw as int).unwrap(),
            ) && final(rec).wf(),
            !is_hit ==> *final(rec) == *old(rec),
    {
        let oc = r.origin.sub(self.center);
        let a = r.direction.length_squared();
        let half_b = crate::vec3::dot(oc, r.direction);
        let c = oc.length_squared().sub(self.radius.mul(self.radius));
        let disc = half_b.mul(half_b).sub(a.mul(c));
        if a.raw == 0 || disc.raw < 0 {
            return false;
        }
        let sqrtd = disc.sqrt();
        let mut root = half_b.neg().sub(sqrtd).div(a);
        if root.raw <= t_min.raw || t_max.raw < root.raw {
            root = half_b.neg().add(sqrtd).div(a);
            if root.raw <= t_min.raw || t_max.raw < root.raw {
                return false;
            }
        }
        let p = r.at(root);
        let outward_normal = p.sub(self.center).div_s(self.radius);
        rec.t = root;
        rec.p = p;
        rec.mat = self.mat;
        rec.set_face_normal(r, outward_normal);
        true
    }
}

/// The fold the aggregate's scan computes: each member is tested against a
/// window whose upper end has shrunk to the best distance so far, and a
/// later member displaces an earlier one only at a strictly smaller
/// distance, so the first member in insertion order wins exact ties.  The
/// result carries the index of the winning member and the distance.
pub open spec fn list_hit(objs: Seq<SphereV>, r: RayV, t_min: int, t_max: int) -> Option<
    (int, int),
>
    decreases objs.len(),
{
    if objs.len() == 0 {
        None
    } else {
        let prev = list_hit(objs.drop_last(), r, t_min, t_max);
        let s = objs.last();
        match prev {
            None => match sphere_hit_t(s, r, t_min, t_max) {
                None => None,
                Some(t) => Some((objs.len() - 1, t)),
            },
            Some((i, bt)) => match sphere_hit_t(s, r, t_min, bt) {
                None => Some((i, bt)),
                Some(t) => if t < bt {
                    Some((objs.len() - 1, t))
                } else {
                    Some((i, bt))
                },
            },
        }
    }
}

/// A sphere hit lands inside the window it was searched in.
proof fn lemma_sphere_hit_window(s: SphereV, r: RayV, t_min: int, t_max: int)
    ensures
        sphere_hit_t(s, r, t_min, t_max).is_some() ==> t_min < sphere_hit_t(
            s,
            r,
            t_min,
            t_max,
        ).unwrap() <= t_max,
{
}

/// Widening the window of a sphere search keeps any found hit and finds
/// none closer: the roots themselves do not move, only their selection.
proof fn lemma_sphere_hit_widen(s: SphereV, r: RayV, t_min: int, bt: int, t_max: int)
    requires
        t_min <= bt <= t_max,
    ensures
        sphere_hit_t(s, r, t_min, bt).is_none() && sphere_hit_t(s, r, t_min, t_max).is_some()
            ==> sphere_hit_t(s, r, t_min, t_max).unwrap() > bt,
        sphere_hit_t(s, r, t_min, bt).is_some() ==> sphere_hit_t(s, r, t_min, t_max).is_some()
            && sphere_hit_t(s, r, t_min, bt).unwrap() == sphere_hit_t(s, r, t_min, t_max).unwrap(),
{
    let oc = vsub_v(r.orig, s.center);
    let a = len2_v(r.dir);
    let half_b = dot_v(oc, r.dir);
    let c = fx_sub_v(len2_v(oc), fx_mul_v(s.radius, s.radius));
    let disc = fx_sub_v(fx_mul_v(half_b, half_b), fx_mul_v(a, c));
    if a == 0 || disc < 0 {
    } else {
        crate::vec3::lemma_len2_bounds(r.dir);
        let sqrtd = fx_sqrt_v(disc);
        lemma_mul_nonnegative(disc, FX_ONE as int);
        lemma_isqrt(disc * (FX_ONE as int));
        assert(sqrtd >= 0);
        let n1 = fx_sub_v(fx_neg_v(half_b), sqrtd);
        let n2 = fx_add_v(fx_neg_v(half_b), sqrtd);
        assert(n1 <= n2);
        lemma_fx_div_mono(n1, n2, a);
        let root1 = fx_div_v(n1, a);
        let root2 = fx_div_v(n2, a);
        assert(root1 <= root2);
    }
}

/// Law: the scan finds the globally nearest hit.  On a hit at distance
/// `t`, no member intersects the original window at a smaller distance;
/// on a miss, no member intersects the window at all.
pub proof fn lemma_list_hit_nearest(objs: Seq<SphereV>, r: RayV, t_min: int, t_max: int, j: int)
    requires
        0 <= j < objs.len(),
        t_min <= t_max,
    ensures
        list_hit(objs, r, t_min, t_max).is_some() && sphere_hit_t(objs[j], r, t_min, t_max).is_some()
            ==> list_hit(objs, r, t_min, t_max).unwrap().1 <= sphere_hit_t(
            objs[j],
            r,
            t_min,
            t_max,
        ).unwrap(),
        list_hit(objs, r, t_min, t_max).is_none() ==> sphere_hit_t(
            objs[j],
            r,
            t_min,
            t_max,
        ).is_none(),
    decreases objs.len(),
{
    let prefix = objs.drop_last();
    let prev = list_hit(prefix, r, t_min, t_max);
    lemma_list_hit_window(prefix, r, t_min, t_max);
    if j == objs.len() - 1 {
        assert(objs[j] == objs.last());
        match prev {
            None => {},
            Some((i, bt)) => {
                lemma_sphere_hit_widen(objs.last(), r, t_min, bt, t_max);
                lemma_sphere_hit_window(objs.last(), r, t_min, bt);
            },
        }
    } else {
        lemma_list_hit_nearest(prefix, r, t_min, t_max, j);
        assert(prefix[j] == objs[j]);
        match prev {
            None => {},
            Some((i, bt)) => {
                lemma_sphere_hit_window(objs.last(), r, t_min, bt);
            },
        }
    }
}

/// Any hit the scan reports lies inside the original window and names a
/// member of the list.
proof fn lemma_list_hit_window(objs: Seq<SphereV>, r: RayV, t_min: int, t_max: int)
    requires
        t_min <= t_max,
    ensures
        list_hit(objs, r, t_min, t_max).is_some() ==> {
            let (i, t) = list_hit(objs, r, t_min, t_max).unwrap();
            0 <= i < objs.len() && t_min <= t <= t_max
        },
    decreases objs.len(),
{
    if objs.len() == 0 {
    } else {
        let prefix = objs.drop_last();
        lemma_list_hit_window(prefix, r, t_min, t_max);
        match list_hit(prefix, r, t_min, t_max) {
            None => {
                lemma_sphere_hit_window(objs.last(), r, t_min, t_max);
            },
            Some((i, bt)) => {
                lemma_sphere_hit_window(objs.last(), r, t_min, bt);
            },
        }
    }
}

/// An insertion-ordered aggregate of spheres, intersected as a whole by
/// scanning every member and keeping the nearest hit.
pub struct HittableList {
    pub objects: Vec<Sphere>,
}

impl View for HittableList {
    type V = Seq<SphereV>;

    open spec fn view(&self) -> Seq<SphereV> {
        self.objects@.map_values(|s: Sphere| s@)
    }
}

impl HittableList {
    pub open spec fn wf(self) -> bool {
        forall|i: int| 0 <= i < self@.len() ==> sphere_wf(#[trigger] self@[i])
    }

    pub fn new() -> (l: HittableList)
        ensures
            l@ == Seq::<SphereV>::empty(),
            l.wf(),
    {
        let l = HittableList { objects: Vec::new() };
        proof {
            assert(l@ =~= Seq::<SphereV>::empty());
        }
        l
    }

    /// Append an object; the scan order is insertion order.
    pub fn add(&mut self, object: Sphere)
        requires
            old(self).wf(),
            object.wf(),
        ensures
            final(self)@ == old(self)@.push(object@),
            final(self).wf(),
    {
        self.objects.push(object);
        proof {
            assert(self@ =~= old(self)@.push(object@));
        }
    }

    /// Intersect the ray against every member, keeping the nearest hit
    /// within `(t_min, t_max]`: exactly the fold `list_hit` describes,
    /// with the first member in insertion order winning exact ties.  On a
    /// hit the record belongs to the winning member; on a miss it is left
    /// untouched.
    pub fn hit(&self, r: Ray, t_min: Fx, t_max: Fx, rec: &mut HitRecord) -> (is_hit: bool)
        requires
            self.wf(),
            r.wf(),
            t_min.wf(),
            t_max.wf(),
        ensures
            is_hit == list_hit(self@, r@, t_min.raw as int, t_max.raw as int).is_some(),
            is_hit ==> {
                let (i, t) = list_hit(self@, r@, t_min.raw as int, t_max.raw as int).unwrap();
                &&& 0 <= i < self@.len()
                &&& final(rec)@ == sphere_rec_v(self@[i], r@, t)
                &&& final(rec).wf()
                &&& final(rec).t.raw as int == t
            },
            !is_hit ==> *final(rec) == *old(rec),
    {
        let ghost tmin = t_min.raw as int;
        let ghost tmax = t_max.raw as int;
        let mut temp = HitRecord::default();
        let mut hit_anything = false;
        let mut closest_so_far = t_max;
        let mut idx: usize = 0;
        while idx < self.objects.len()
            invariant
                self.wf(),
                r.wf(),
                t_min.wf(),
                t_max.wf(),
                closest_so_far.wf(),
                idx <= self.objects.len(),
                self@.len() == self.objects.len(),
                tmin == t_min.raw as int,
                tmax == t_max.raw as int,
                match list_hit(self@.take(idx as int), r@, tmin, tmax) {
                    None => !hit_anything && closest_so_far == t_max && *rec == *old(rec),
                    Some((i, t)) => hit_anything && 0 <= i < idx && closest_so_far.raw as int == t
                        && rec@ == sphere_rec_v(self@[i], r@, t) && rec.wf(),
                },
            decreases self.objects.len() - idx,
        {
            proof {
                assert(self@.take(idx as int + 1).drop_last() =~= self@.take(idx as int));
                assert(self@.take(idx as int + 1).last() == self@[idx as int]);
            }
            let s = &self.objects[idx];
            if s.hit(r, t_min, closest_so_far, &mut temp) {
                if !hit_anything || temp.t.raw < closest_so_far.raw {
                    hit_anything = true;
                    closest_so_far = temp.t;
                    *rec = temp;
                }
            }
            idx = idx + 1;
        }
        proof {
            assert(self@.take(self.objects.len() as int) =~= self@);
        }
        hit_anything
    }
}

} // verus!
