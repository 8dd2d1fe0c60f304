//! Hit records: the transient result of one ray-scene intersection query.

use vstd::prelude::*;
use crate::fixed::fx_wf;
use crate::material::{Material, mat_wf};
use crate::ray::Ray;
use crate::vector::{Vector, vec_wf, vneg, vdot};

verus! {

/// What an accepted intersection reports: the hit point, the normal
/// oriented against the incoming ray, the parametric distance, whether the
/// front face was struck, and the material hit.
#[derive(Clone, Copy, Debug, PartialEq, Eq, Structural)]
pub struct HitRecord {
    pub point: Option<Vector>,
    pub normal: Option<Vector>,
    pub t: Option<i64>,
    pub front_face: Option<bool>,
    pub material: Option<Material>,
}

/// A filled-in record: every field present and well-formed, as an accepted
/// intersection leaves it.
pub open spec fn rec_filled(rec: HitRecord) -> bool {
    &&& rec.point is Some
    &&& rec.normal is Some
    &&& rec.t is Some
    &&& rec.front_face is Some
    &&& rec.material is Some
    &&& vec_wf(rec.point.unwrap())
    &&& vec_wf(rec.normal.unwrap())
    &&& fx_wf(rec.t.unwrap())
    &&& mat_wf(rec.material.unwrap())
}

/// The oriented normal a record stores: the outward normal itself on a
/// front-face hit, its negation on a back-face hit.
pub open spec fn spec_face_normal(ray: Ray, outward_normal: Vector) -> (bool, Vector) {
    let front = vdot(ray.direction, outward_normal) < 0;
    (front, if front { outward_normal } else { vneg(outward_normal) })
}

impl HitRecord {
    /// An empty record, before any intersection has been accepted.
    pub fn new() -> (rec: HitRecord)
        ensures
            rec == (HitRecord {
                point: None::<Vector>,
                normal: None::<Vector>,
                t: None::<i64>,
                front_face: None::<bool>,
                material: None::<Material>,
            }),
    {
        HitRecord { point: None, normal: None, t: None, front_face: None, material: None }
    }

    /// Record which side of the surface the ray struck and orient the
    /// stored normal against the incoming direction.
    pub fn set_face_normal(&mut self, ray: &Ray, outward_normal: Vector)
        requires
            vec_wf(outward_normal),
            crate::ray::ray_wf(*ray),
        ensures
            final(self).front_face == Some(spec_face_normal(*ray, outward_normal).0),
            final(self).normal == Some(spec_face_normal(*ray, outward_normal).1),
            final(self).point == old(self).point,
            final(self).t == old(self).t,
            final(self).material == old(self).material,
    {
        let front = ray.direction.dot(&outward_normal) < 0;
        self.front_face = Some(front);
        self.normal = if front {
            Some(outward_normal)
        } else {
            Some(outward_normal.neg())
        };
    }
}

} // verus!
