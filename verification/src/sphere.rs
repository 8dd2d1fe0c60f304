//! Spheres, the one primitive of the scene, and their ray intersection.

use vstd::prelude::*;
use crate::fixed::{
    fx_wf, fadd, fsub, fmul, fdiv, fsqrt, FX_MAX,
    fx_add, fx_sub, fx_mul, fx_div, fx_sqrt,
};
use crate::hittable::{HitRecord, rec_filled, spec_face_normal};
use crate::material::{Material, mat_wf};
use crate::ray::{Ray, ray_wf, ray_at};
use crate::vector::{Vector, vec_wf, vsub, vdiv, vdot, vlen_sq, lemma_vlen_sq_nonneg};

verus! {

/// A sphere with a positive radius, owning its material.
#[derive(Clone, Copy, Debug, PartialEq, Eq, Structural)]
pub struct Sphere {
    pub radius: i64,
    pub center: Vector,
    pub material: Material,
}

/// Well-formed sphere: bounded center, positive bounded radius, and a
/// well-formed material.
pub open spec fn sphere_wf(s: Sphere) -> bool {
    &&& vec_wf(s.center)
    &&& 0 < s.radius <= FX_MAX
    &&& mat_wf(s.material)
}

/// The record an accepted root produces: the hit point, the outward normal
/// oriented against the ray, the root itself and the sphere's material.
pub open spec fn spec_hit_record(s: Sphere, ray: Ray, root: i64) -> HitRecord {
    let point = ray_at(ray, root);
    let outward = vdiv(vsub(point, s.center), s.radius);
    let oriented = spec_face_normal(ray, outward);
    HitRecord {
        point: Some(point),
        normal: Some(oriented.1),
        t: Some(root),
        front_face: Some(oriented.0),
        material: Some(s.material),
    }
}

/// Ray-sphere intersection: solve the half-discriminant quadratic and take
/// the nearer root inside `[t_min, t_max]`, then the farther one. A ray
/// whose direction has zero squared length hits nothing: there is no
/// quadratic to solve.
pub open spec fn spec_sphere_hit(s: Sphere, ray: Ray, t_min: i64, t_max: i64) -> Option<
    HitRecord,
> {
    let oc = vsub(ray.origin, s.center);
    let a = vlen_sq(ray.direction);
    let half_b = vdot(oc, ray.direction);
    let c = fsub(vlen_sq(oc), fmul(s.radius, s.radius));
    let disc = fsub(fmul(half_b, half_b), fmul(a, c));
    if a == 0 || disc < 0 {
        None
    } else {
        let sqrtd = fsqrt(disc);
        let root1 = fdiv(fsub((-half_b) as i64, sqrtd), a);
        let root2 = fdiv(fadd((-half_b) as i64, sqrtd), a);
        if t_min <= root1 && root1 <= t_max {
            Some(spec_hit_record(s, ray, root1))
        } else if t_min <= root2 && root2 <= t_max {
            Some(spec_hit_record(s, ray, root2))
        } else {
            None
        }
    }
}

impl Sphere {
    /// A sphere from its center, radius and material.
    pub fn new(center: Vector, radius: i64, material: Material) -> (s: Sphere)
        requires
            vec_wf(center),
            0 < radius <= FX_MAX,
            mat_wf(material),
        ensures
            s == (Sphere { radius, center, material }),
            sphere_wf(s),
    {
        Sphere { radius, center, material }
    }

    /// Report the nearest intersection of `ray` with this sphere inside
    /// `[t_min, t_max]`, filling the record on acceptance and leaving it
    /// untouched otherwise.
    pub fn hit(&self, ray: &Ray, t_min: i64, t_max: i64, hit_record: &mut HitRecord) -> (hit:
        bool)
        requires
            sphere_wf(*self),
            ray_wf(*ray),
            fx_wf(t_min),
            fx_wf(t_max),
        ensures
            match spec_sphere_hit(*self, *ray, t_min, t_max) {
                Some(h) => hit && *final(hit_record) == h && rec_filled(h),
                None => !hit && *final(hit_record) == *old(hit_record),
            },
    {
        let oc = ray.origin.sub(self.center);
        let a = ray.direction.length_squared();
        let half_b = oc.dot(&ray.direction);
        let c = fx_sub(oc.length_squared(), fx_mul(self.radius, self.radius));
        let disc = fx_sub(fx_mul(half_b, half_b), fx_mul(a, c));
        if a == 0 || disc < 0 {
            return false;
        }
        let sqrtd = fx_sqrt(disc);
        let root1 = fx_div(fx_sub(-half_b, sqrtd), a);
        let root2 = fx_div(fx_add(-half_b, sqrtd), a);
        let root: i64;
        if t_min <= root1 && root1 <= t_max {
            root = root1;
        } else if t_min <= root2 && root2 <= t_max {
            root = root2;
        } else {
            return false;
        }
        hit_record.t = Some(root);
        let point = ray.at(root);
        hit_record.point = Some(point);
        let outward_normal = point.sub(self.center).div(self.radius);
        hit_record.set_face_normal(ray, outward_normal);
        hit_record.material = Some(self.material);
        true
    }
}

} // verus!
