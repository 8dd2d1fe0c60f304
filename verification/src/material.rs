//! Materials: a closed set of scattering behaviors. Scattering is a pure
//! function of the incoming ray, the hit record and the sampler state, so
//! each variant's outcome is stated exactly.

use vstd::prelude::*;
use crate::color::{Color, color_wf};
use crate::fixed::{fx_wf, fadd, fsub, fmul, fdiv, fsqrt, fmin, fmax, SCALE, fx_min};
use crate::hittable::{HitRecord, rec_filled};
use crate::ray::{Ray, ray_wf};
use crate::rng::{Rng64, spec_step};
use crate::vector::{
    Vector, vec_wf, vadd, vscale, vdot, vunit, vreflect, vrefract, spec_random_unit, UNIT_TRIES,
};

verus! {

/// The scattering behavior a material follows.
#[derive(Clone, Copy, Debug, PartialEq, Eq, Structural)]
pub enum MaterialType {
    Lambertian,
    Metal,
    Dielectric,
}

/// A material value, copied into each sphere that uses it.
#[derive(Clone, Copy, Debug, PartialEq, Eq, Structural)]
pub struct Material {
    pub albedo: Color,
    pub fuzz: i64,
    pub mat_type: MaterialType,
    pub index_of_refraction: i64,
}

/// Well-formed material: channels and scalars in range, and a dielectric
/// carries a positive refraction index (it divides one by it).
pub open spec fn mat_wf(m: Material) -> bool {
    &&& color_wf(m.albedo)
    &&& fx_wf(m.fuzz)
    &&& fx_wf(m.index_of_refraction)
    &&& (m.mat_type is Dielectric ==> m.index_of_refraction > 0)
}

/// What one scatter produces: whether the ray survives, the attenuation,
/// the scattered ray, and the sampler state left behind.
pub open spec fn spec_scatter_lambertian(m: Material, rec: HitRecord, s: u64) -> (
    bool,
    Color,
    Ray,
    u64,
) {
    let (u, s1) = spec_random_unit(s, UNIT_TRIES as nat);
    let raw = vadd(rec.normal.unwrap(), u);
    let dir = if raw.x == 0 && raw.y == 0 && raw.z == 0 {
        rec.normal.unwrap()
    } else {
        raw
    };
    (true, m.albedo, Ray { origin: rec.point.unwrap(), direction: dir }, s1)
}

/// Metal: mirror reflection perturbed by `fuzz`; absorbed when the
/// perturbed direction no longer points away from the surface.
pub open spec fn spec_scatter_metal(m: Material, ray_in: Ray, rec: HitRecord, s: u64) -> (
    bool,
    Color,
    Ray,
    u64,
) {
    let reflected = vreflect(vunit(ray_in.direction), rec.normal.unwrap());
    let (u, s1) = spec_random_unit(s, UNIT_TRIES as nat);
    let dir = vadd(reflected, vscale(u, m.fuzz));
    (
        vdot(dir, rec.normal.unwrap()) > 0,
        m.albedo,
        Ray { origin: rec.point.unwrap(), direction: dir },
        s1,
    )
}

/// Schlick's reflectance approximation.
pub open spec fn spec_reflectance(cosine: i64, ref_idx: i64) -> i64 {
    let r0 = fdiv(fsub(SCALE, ref_idx), fadd(SCALE, ref_idx));
    let r0sq = fmul(r0, r0);
    let onec = fsub(SCALE, cosine);
    let pow5 = fmul(onec, fmul(onec, fmul(onec, fmul(onec, onec))));
    fadd(r0sq, fmul(fsub(SCALE, r0sq), pow5))
}

/// Dielectric: refract when Snell's law allows it and the Schlick draw
/// passes, reflect otherwise; always scatters. The sampler is consulted
/// only when refraction is feasible, so total internal reflection costs
/// no draw.
pub open spec fn spec_scatter_dielectric(m: Material, ray_in: Ray, rec: HitRecord, s: u64) -> (
    bool,
    Color,
    Ray,
    u64,
) {
    let ratio = if rec.front_face.unwrap() {
        fdiv(SCALE, m.index_of_refraction)
    } else {
        m.index_of_refraction
    };
    let ud = vunit(ray_in.direction);
    let cos_theta = (-fmin(vdot(ud, rec.normal.unwrap()), SCALE)) as i64;
    let sin_theta = fsqrt(fmax(0, fsub(SCALE, fmul(cos_theta, cos_theta))));
    let cannot_refract = fmul(ratio, sin_theta) > SCALE;
    if cannot_refract {
        (
            true,
            m.albedo,
            Ray { origin: rec.point.unwrap(), direction: vreflect(ud, rec.normal.unwrap()) },
            s,
        )
    } else {
        let draw = (spec_step(s) as int % (SCALE as int)) as i64;
        let s1 = spec_step(s);
        let dir = if spec_reflectance(cos_theta, ratio) > draw {
            vreflect(ud, rec.normal.unwrap())
        } else {
            vrefract(ud, rec.normal.unwrap(), ratio)
        };
        (true, m.albedo, Ray { origin: rec.point.unwrap(), direction: dir }, s1)
    }
}

/// Scatter dispatch over the material kind.
pub open spec fn spec_scatter(m: Material, ray_in: Ray, rec: HitRecord, s: u64) -> (
    bool,
    Color,
    Ray,
    u64,
) {
    match m.mat_type {
        MaterialType::Lambertian => spec_scatter_lambertian(m, rec, s),
        MaterialType::Metal => spec_scatter_metal(m, ray_in, rec, s),
        MaterialType::Dielectric => spec_scatter_dielectric(m, ray_in, rec, s),
    }
}

impl Material {
    /// A diffuse material with the given albedo.
    pub fn new_lambertian(albedo: Color) -> (m: Material)
        requires
            color_wf(albedo),
        ensures
            m == (Material {
                albedo,
                fuzz: 0i64,
                mat_type: MaterialType::Lambertian,
                index_of_refraction: 0i64,
            }),
            mat_wf(m),
    {
        Material { albedo, fuzz: 0, mat_type: MaterialType::Lambertian, index_of_refraction: 0 }
    }

    /// A metal with the given albedo; fuzz above one is capped at one.
    pub fn new_metal(albedo: Color, fuzz: i64) -> (m: Material)
        requires
            color_wf(albedo),
            fx_wf(fuzz),
        ensures
            m == (Material {
                albedo,
                fuzz: fmin(fuzz, SCALE),
                mat_type: MaterialType::Metal,
                index_of_refraction: 0i64,
            }),
            mat_wf(m),
    {
        let capped = fx_min(fuzz, SCALE);
        Material { albedo, fuzz: capped, mat_type: MaterialType::Metal, index_of_refraction: 0 }
    }

    /// A dielectric with the given albedo and refraction index.
    pub fn new_dielectric(albedo: Color, index_of_refraction: i64) -> (m: Material)
        requires
            color_wf(albedo),
            fx_wf(index_of_refraction),
            index_of_refraction > 0,
        ensures
            m == (Material {
                albedo,
                fuzz: 0i64,
                mat_type: MaterialType::Dielectric,
                index_of_refraction,
            }),
            mat_wf(m),
    {
        Material { albedo, fuzz: 0, mat_type: MaterialType::Dielectric, index_of_refraction }
    }

    /// Scatter the incoming ray at the recorded hit; fills the attenuation
    /// and scattered ray and says whether the ray survives.
    pub fn scatter(
        &self,
        ray_in: &Ray,
        record: &HitRecord,
        attenuation: &mut Color,
        scattered: &mut Ray,
        rng: &mut Rng64,
    ) -> (survives: bool)
        requires
            mat_wf(*self),
            ray_wf(*ray_in),
            rec_filled(*record),
        ensures
            (survives, *final(attenuation), *final(scattered), final(rng).state) == spec_scatter(
                *self,
                *ray_in,
                *record,
                old(rng).state,
            ),
            color_wf(*final(attenuation)),
            ray_wf(*final(scattered)),
    {
        match self.mat_type {
            MaterialType::Lambertian => self.scatter_lambertian(ray_in, record, attenuation, scattered, rng),
            MaterialType::Metal => self.scatter_metal(ray_in, record, attenuation, scattered, rng),
            MaterialType::Dielectric => self.scatter_dielectric(ray_in, record, attenuation, scattered, rng),
        }
    }

    /// Diffuse scatter: the normal nudged by a random unit direction, with
    /// the normal itself as fallback when the sum cancels to zero.
    pub fn scatter_lambertian(
        &self,
        _ray_in: &Ray,
        record: &HitRecord,
        attenuation: &mut Color,
        scattered: &mut Ray,
        rng: &mut Rng64,
    ) -> (survives: bool)
        requires
            mat_wf(*self),
            rec_filled(*record),
        ensures
            (survives, *final(attenuation), *final(scattered), final(rng).state)
                == spec_scatter_lambertian(*self, *record, old(rng).state),
            color_wf(*final(attenuation)),
            ray_wf(*final(scattered)),
    {
        let u = Vector::random_unit_vector(rng);
        let normal = record.normal.unwrap();
        let mut direction = normal.add(u);
        if direction.near_zero() {
            direction = normal;
        }
        *scattered = Ray::new(record.point.unwrap(), direction);
        *attenuation = self.albedo;
        true
    }

    /// Metal scatter: fuzzed mirror reflection, absorbed when it would
    /// re-enter the surface.
    pub fn scatter_metal(
        &self,
        ray_in: &Ray,
        record: &HitRecord,
        attenuation: &mut Color,
        scattered: &mut Ray,
        rng: &mut Rng64,
    ) -> (survives: bool)
        requires
            mat_wf(*self),
            ray_wf(*ray_in),
            rec_filled(*record),
        ensures
            (survives, *final(attenuation), *final(scattered), final(rng).state)
                == spec_scatter_metal(*self, *ray_in, *record, old(rng).state),
            color_wf(*final(attenuation)),
            ray_wf(*final(scattered)),
    {
        let normal = record.normal.unwrap();
        let reflected = ray_in.direction.unit_vector().reflect(&normal);
        let u = Vector::random_unit_vector(rng);
        let direction = reflected.add(u.scale(self.fuzz));
        *scattered = Ray::new(record.point.unwrap(), direction);
        *attenuation = self.albedo;
        direction.dot(&normal) > 0
    }

    /// Dielectric scatter: Snell refraction against Schlick reflectance.
    pub fn scatter_dielectric(
        &self,
        ray_in: &Ray,
        record: &HitRecord,
        attenuation: &mut Color,
        scattered: &mut Ray,
        rng: &mut Rng64,
    ) -> (survives: bool)
        requires
            mat_wf(*self),
            self.mat_type is Dielectric,
            ray_wf(*ray_in),
            rec_filled(*record),
        ensures
            (survives, *final(attenuation), *final(scattered), final(rng).state)
                == spec_scatter_dielectric(*self, *ray_in, *record, old(rng).state),
            color_wf(*final(attenuation)),
            ray_wf(*final(scattered)),
    {
        *attenuation = self.albedo;
        let normal = record.normal.unwrap();
        let ratio = if record.front_face.unwrap() {
            crate::fixed::fx_div(SCALE, self.index_of_refraction)
        } else {
            self.index_of_refraction
        };
        let ud = ray_in.direction.unit_vector();
        let d = ud.dot(&normal);
        let cos_theta = -crate::fixed::fx_min(d, SCALE);
        let sin_theta = crate::fixed::fx_sqrt(
            crate::fixed::fx_max(0, crate::fixed::fx_sub(SCALE, crate::fixed::fx_mul(cos_theta, cos_theta))),
        );
        let cannot_refract = crate::fixed::fx_mul(ratio, sin_theta) > SCALE;
        let direction: Vector;
        if cannot_refract {
            direction = ud.reflect(&normal);
        } else {
            let draw = rng.next_unit();
            if reflectance(cos_theta, ratio) > draw {
                direction = ud.reflect(&normal);
            } else {
                direction = ud.refract(&normal, ratio);
            }
        }
        *scattered = Ray::new(record.point.unwrap(), direction);
        true
    }
}

/// Schlick's reflectance approximation.
fn reflectance(cosine: i64, ref_idx: i64) -> (r: i64)
    requires
        fx_wf(cosine),
        fx_wf(ref_idx),
        ref_idx >= 0,
    ensures
        r == spec_reflectance(cosine, ref_idx),
        fx_wf(r),
{
    let r0 = crate::fixed::fx_div(crate::fixed::fx_sub(SCALE, ref_idx), crate::fixed::fx_add(SCALE, ref_idx));
    let r0sq = crate::fixed::fx_mul(r0, r0);
    let onec = crate::fixed::fx_sub(SCALE, cosine);
    let pow5 = crate::fixed::fx_mul(onec, crate::fixed::fx_mul(onec, crate::fixed::fx_mul(onec, crate::fixed::fx_mul(onec, onec))));
    crate::fixed::fx_add(r0sq, crate::fixed::fx_mul(crate::fixed::fx_sub(SCALE, r0sq), pow5))
}

} // verus!
