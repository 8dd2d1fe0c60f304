//! The camera: maps normalized image-plane coordinates to world-space rays.
//! Rebuilt from scratch whenever the viewpoint or the aspect ratio changes.

use vstd::prelude::*;
use crate::fixed::{fx_wf, fadd, fsub, fmul, fdiv, SCALE, fx_mul, fx_div};
use crate::ray::Ray;
use crate::vector::{Vector, vec_wf, vadd, vsub, vdiv, vscale, vcross, vunit};

verus! {

/// The circle constant on the fixed-point scale.
pub const PI_FX: i64 = 3_141_593;

/// Degrees to radians: `deg * pi / 180`.
pub open spec fn spec_deg_to_rad(deg: i64) -> i64 {
    fdiv(fmul(deg, PI_FX), 180_000_000i64)
}

/// The tangent as its truncated Maclaurin series,
/// `x + x^3/3 + 2 x^5/15 + 17 x^7/315`; adequate for the moderate
/// half-angles a vertical field of view produces.
pub open spec fn spec_tan(x: i64) -> i64 {
    let x2 = fmul(x, x);
    let x3 = fmul(x2, x);
    let x5 = fmul(x3, x2);
    let x7 = fmul(x5, x2);
    let t3 = fdiv(x3, 3_000_000i64);
    let t5 = fdiv(fmul(x5, 2_000_000i64), 15_000_000i64);
    let t7 = fdiv(fmul(x7, 17_000_000i64), 315_000_000i64);
    fadd(fadd(fadd(x, t3), t5), t7)
}

/// A camera, derived from viewpoint parameters and never mutated in place.
#[derive(Clone, Copy, Debug, PartialEq, Eq, Structural)]
pub struct Camera {
    pub origin: Vector,
    pub horizontal: Vector,
    pub vertical: Vector,
    pub lower_left_corner: Vector,
}

/// Every constituent vector is well-formed.
pub open spec fn camera_wf(c: Camera) -> bool {
    &&& vec_wf(c.origin)
    &&& vec_wf(c.horizontal)
    &&& vec_wf(c.vertical)
    &&& vec_wf(c.lower_left_corner)
}

/// The camera the viewpoint parameters determine: Gram-Schmidt basis from
/// the view direction and the up vector, viewport sized by the field of
/// view and the aspect ratio.
#[verifier::opaque]
pub open spec fn spec_camera(
    aspect_ratio: i64,
    fov: i64,
    look_from: Vector,
    look_at: Vector,
    up: Vector,
) -> Camera {
    let theta = spec_deg_to_rad(fov);
    let h = spec_tan(fdiv(theta, 2_000_000i64));
    let viewport_height = fmul(2_000_000i64, h);
    let viewport_width = fmul(aspect_ratio, viewport_height);
    let w = vunit(vsub(look_from, look_at));
    let u = vunit(vcross(up, w));
    let v = vcross(w, u);
    let origin = look_from;
    let horizontal = vscale(u, viewport_width);
    let vertical = vscale(v, viewport_height);
    let lower_left_corner = vsub(
        vsub(vsub(origin, vdiv(horizontal, 2_000_000i64)), vdiv(vertical, 2_000_000i64)),
        w,
    );
    Camera { origin, horizontal, vertical, lower_left_corner }
}

/// The ray through normalized image-plane coordinates `(s, t)`.
pub open spec fn spec_get_ray(c: Camera, s: i64, t: i64) -> Ray {
    Ray {
        origin: c.origin,
        direction: vsub(
            vadd(vadd(c.lower_left_corner, vscale(c.horizontal, s)), vscale(c.vertical, t)),
            c.origin,
        ),
    }
}

impl Camera {
    /// Build a camera from the aspect ratio, the vertical field of view in
    /// degrees, the viewpoint and the up direction.
    pub fn from_ratio(
        aspect_ratio: i64,
        fov: i64,
        look_from: Vector,
        look_at: Vector,
        up: Vector,
    ) -> (c: Camera)
        requires
            fx_wf(aspect_ratio),
            fx_wf(fov),
            vec_wf(look_from),
            vec_wf(look_at),
            vec_wf(up),
        ensures
            c == spec_camera(aspect_ratio, fov, look_from, look_at, up),
            camera_wf(c),
    {
        proof {
            reveal(spec_camera);
        }
        let theta = degree_to_radian(fov);
        let h = tan_series(fx_div(theta, 2_000_000));
        let viewport_height = fx_mul(2_000_000, h);
        let viewport_width = fx_mul(aspect_ratio, viewport_height);
        let w = look_from.sub(look_at).unit_vector();
        let u = up.cross(&w).unit_vector();
        let v = w.cross(&u);
        let origin = look_from;
        let horizontal = u.scale(viewport_width);
        let vertical = v.scale(viewport_height);
        let lower_left_corner = origin
            .sub(horizontal.div(2_000_000))
            .sub(vertical.div(2_000_000))
            .sub(w);
        Camera { origin, horizontal, vertical, lower_left_corner }
    }

    /// The ray through normalized image-plane coordinates `(s, t)`.
    pub fn get_ray(&self, s: i64, t: i64) -> (r: Ray)
        requires
            camera_wf(*self),
            fx_wf(s),
            fx_wf(t),
        ensures
            r == spec_get_ray(*self, s, t),
            crate::ray::ray_wf(r),
    {
        Ray {
            origin: self.origin,
            direction: self
                .lower_left_corner
                .add(self.horizontal.scale(s))
                .add(self.vertical.scale(t))
                .sub(self.origin),
        }
    }
}

/// Degrees to radians.
pub fn degree_to_radian(deg: i64) -> (r: i64)
    requires
        fx_wf(deg),
    ensures
        r == spec_deg_to_rad(deg),
        fx_wf(r),
{
    fx_div(fx_mul(deg, PI_FX), 180_000_000)
}

/// The truncated tangent series behind `spec_tan`.
fn tan_series(x: i64) -> (r: i64)
    requires
        fx_wf(x),
    ensures
        r == spec_tan(x),
        fx_wf(r),
{
    let x2 = fx_mul(x, x);
    let x3 = fx_mul(x2, x);
    let x5 = fx_mul(x3, x2);
    let x7 = fx_mul(x5, x2);
    let t3 = fx_div(x3, 3_000_000);
    let t5 = fx_div(fx_mul(x5, 2_000_000), 15_000_000);
    let t7 = fx_div(fx_mul(x7, 17_000_000), 315_000_000);
    crate::fixed::fx_add(crate::fixed::fx_add(crate::fixed::fx_add(x, t3), t5), t7)
}

} // verus!
