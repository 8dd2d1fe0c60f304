//! The laws the tracer obeys, stated and proved over the same spec
//! functions its contracts use.

use vstd::prelude::*;
use crate::color::spec_white;
use crate::fixed::{
    fadd, fsub, fmul, fdiv, FX_MAX, SCALE, div_to_zero, fsqrt, isqrt,
    lemma_fsqrt_range, lemma_fdiv_monotone, lemma_isqrt_at_least, lemma_fmul_self_nonneg,
    lemma_div_to_zero_monotone,
};
use crate::hittable::{HitRecord, spec_face_normal};
use crate::image::{
    Image, InputEvent, spec_world_hit, spec_ray_color, spec_background, spec_frame, spec_handle,
    spec_px,
};
use crate::material::{Material, spec_scatter};
use crate::ray::Ray;
use crate::sphere::{Sphere, spec_sphere_hit};
use crate::vector::{
    Vector, vadd, vneg, vscale, vdot, vunit, vreflect, spec_random_unit, UNIT_TRIES,
    lemma_vlen_sq_nonneg,
};

verus! {

/// A ray that misses every sphere is colored by the sky gradient alone,
/// which reads nothing but the ray's direction: the scene's contents do
/// not enter, and the sampler state is left untouched.
pub proof fn lemma_miss_is_background(world: Seq<Sphere>, ray: Ray, depth: u32, s: u64)
    requires
        depth > 0,
        spec_world_hit(world, ray, 1_000i64, FX_MAX) is None,
    ensures
        spec_ray_color(world, ray, depth, s) == (spec_background(ray), s),
{
}

/// Two scenes a ray misses give it the same color: the gradient depends
/// on the ray alone.
pub proof fn lemma_miss_ignores_scene(
    w1: Seq<Sphere>,
    w2: Seq<Sphere>,
    ray: Ray,
    depth: u32,
    s: u64,
)
    requires
        depth > 0,
        spec_world_hit(w1, ray, 1_000i64, FX_MAX) is None,
        spec_world_hit(w2, ray, 1_000i64, FX_MAX) is None,
    ensures
        spec_ray_color(w1, ray, depth, s) == spec_ray_color(w2, ray, depth, s),
{
}

/// With its depth budget exhausted, a ray is pure white on any scene, and
/// the sampler is not consulted: the recursion has bottomed out.
pub proof fn lemma_depth_zero_white(world: Seq<Sphere>, ray: Ray, s: u64)
    ensures
        spec_ray_color(world, ray, 0, s) == (spec_white(), s),
{
}

/// A hit the ray-sphere query accepts lies inside the queried window.
pub proof fn lemma_sphere_hit_in_window(s: Sphere, ray: Ray, t_min: i64, t_max: i64)
    requires
        spec_sphere_hit(s, ray, t_min, t_max) is Some,
    ensures
        t_min <= spec_sphere_hit(s, ray, t_min, t_max).unwrap().t.unwrap() <= t_max,
{
}

/// The nearer quadratic root never exceeds the farther one.
proof fn lemma_roots_ordered(s: Sphere, ray: Ray)
    ensures
        ({
            let oc = crate::vector::vsub(ray.origin, s.center);
            let a = crate::vector::vlen_sq(ray.direction);
            let half_b = vdot(oc, ray.direction);
            let c = fsub(crate::vector::vlen_sq(oc), fmul(s.radius, s.radius));
            let disc = fsub(fmul(half_b, half_b), fmul(a, c));
            a > 0 && disc >= 0 ==> fdiv(fsub((-half_b) as i64, crate::fixed::fsqrt(disc)), a)
                <= fdiv(fadd((-half_b) as i64, crate::fixed::fsqrt(disc)), a)
        }),
{
    let oc = crate::vector::vsub(ray.origin, s.center);
    let a = crate::vector::vlen_sq(ray.direction);
    let half_b = vdot(oc, ray.direction);
    let c = fsub(crate::vector::vlen_sq(oc), fmul(s.radius, s.radius));
    let disc = fsub(fmul(half_b, half_b), fmul(a, c));
    if a > 0 && disc >= 0 {
        lemma_fsqrt_range(disc);
        let sq = crate::fixed::fsqrt(disc);
        let lo = fsub((-half_b) as i64, sq);
        let hi = fadd((-half_b) as i64, sq);
        assert(lo <= hi);
        lemma_fdiv_monotone(lo, hi, a);
    }
}

/// Shrinking the far end of the window can only move an accepted hit
/// nearer; and if the shrunken window rejects the sphere, its full-window
/// hit lay beyond the shrunken end.
proof fn lemma_sphere_hit_shrink(s: Sphere, ray: Ray, t_min: i64, t_max: i64, closest: i64)
    requires
        closest <= t_max,
        spec_sphere_hit(s, ray, t_min, t_max) is Some,
    ensures
        match spec_sphere_hit(s, ray, t_min, closest) {
            Some(h2) => h2.t.unwrap() <= spec_sphere_hit(
                s,
                ray,
                t_min,
                t_max,
            ).unwrap().t.unwrap(),
            None => closest < spec_sphere_hit(s, ray, t_min, t_max).unwrap().t.unwrap(),
        },
{
    lemma_roots_ordered(s, ray);
    lemma_vlen_sq_nonneg(ray.direction);
}

/// A hit reported over a whole scene lies inside the queried window.
pub proof fn lemma_world_hit_in_window(world: Seq<Sphere>, ray: Ray, t_min: i64, t_max: i64)
    requires
        spec_world_hit(world, ray, t_min, t_max) is Some,
    ensures
        t_min <= spec_world_hit(world, ray, t_min, t_max).unwrap().t.unwrap() <= t_max,
    decreases world.len(),
{
    if world.len() > 0 {
        let front = world.drop_last();
        let prev = spec_world_hit(front, ray, t_min, t_max);
        if prev is Some {
            lemma_world_hit_in_window(front, ray, t_min, t_max);
        }
        let closest = match prev {
            Some(h) => h.t.unwrap(),
            None => t_max,
        };
        if spec_sphere_hit(world.last(), ray, t_min, closest) is Some {
            lemma_sphere_hit_in_window(world.last(), ray, t_min, closest);
        }
    }
}

/// Nearest-hit invariant: whatever the scan order did, the hit the scene
/// query reports is no farther than any sphere's own accepted hit in the
/// full window. With `lemma_world_hit_in_window` this pins the reported
/// `t` as the least accepted root across the scene.
pub proof fn lemma_world_hit_nearest(
    world: Seq<Sphere>,
    ray: Ray,
    t_min: i64,
    t_max: i64,
    k: int,
)
    requires
        0 <= k < world.len(),
        spec_sphere_hit(world[k], ray, t_min, t_max) is Some,
    ensures
        spec_world_hit(world, ray, t_min, t_max) is Some,
        spec_world_hit(world, ray, t_min, t_max).unwrap().t.unwrap() <= spec_sphere_hit(
            world[k],
            ray,
            t_min,
            t_max,
        ).unwrap().t.unwrap(),
    decreases world.len(),
{
    let n = world.len() as int;
    let front = world.drop_last();
    let prev = spec_world_hit(front, ray, t_min, t_max);
    let closest = match prev {
        Some(h) => h.t.unwrap(),
        None => t_max,
    };
    let t_k = spec_sphere_hit(world[k], ray, t_min, t_max).unwrap().t.unwrap();
    if k < n - 1 {
        assert(front[k] == world[k]);
        lemma_world_hit_nearest(front, ray, t_min, t_max, k);
        if spec_sphere_hit(world.last(), ray, t_min, closest) is Some {
            lemma_sphere_hit_in_window(world.last(), ray, t_min, closest);
        }
    } else {
        assert(world.last() == world[k]);
        match prev {
            None => {},
            Some(p) => {
                lemma_world_hit_in_window(front, ray, t_min, t_max);
                lemma_sphere_hit_shrink(world.last(), ray, t_min, t_max, p.t.unwrap());
            },
        }
    }
}

/// A reported hit is witnessed: some sphere of the scene accepts, in the
/// full window, a hit at exactly the reported distance. Together with
/// `lemma_world_hit_nearest`, the reported `t` is the least root any
/// sphere accepts in the window.
pub proof fn lemma_world_hit_witnessed(world: Seq<Sphere>, ray: Ray, t_min: i64, t_max: i64)
    requires
        spec_world_hit(world, ray, t_min, t_max) is Some,
    ensures
        exists|m: int|
            0 <= m < world.len() && (#[trigger] spec_sphere_hit(world[m], ray, t_min, t_max))
                is Some && spec_sphere_hit(world[m], ray, t_min, t_max).unwrap().t.unwrap()
                == spec_world_hit(world, ray, t_min, t_max).unwrap().t.unwrap(),
    decreases world.len(),
{
    let n = world.len() as int;
    let front = world.drop_last();
    let prev = spec_world_hit(front, ray, t_min, t_max);
    let closest = match prev {
        Some(h) => h.t.unwrap(),
        None => t_max,
    };
    if prev is Some {
        lemma_world_hit_in_window(front, ray, t_min, t_max);
    }
    match spec_sphere_hit(world.last(), ray, t_min, closest) {
        Some(h2) => {
            lemma_roots_ordered(world.last(), ray);
            lemma_vlen_sq_nonneg(ray.direction);
            assert(world[n - 1] == world.last());
            assert(spec_sphere_hit(world[n - 1], ray, t_min, t_max) is Some
                && spec_sphere_hit(world[n - 1], ray, t_min, t_max).unwrap().t.unwrap()
                == h2.t.unwrap());
        },
        None => {
            lemma_world_hit_witnessed(front, ray, t_min, t_max);
            let m = choose|m: int|
                0 <= m < front.len() && (#[trigger] spec_sphere_hit(front[m], ray, t_min, t_max))
                    is Some && spec_sphere_hit(front[m], ray, t_min, t_max).unwrap().t.unwrap()
                    == spec_world_hit(front, ray, t_min, t_max).unwrap().t.unwrap();
            assert(world[m] == front[m]);
            assert(spec_sphere_hit(world[m], ray, t_min, t_max) is Some);
        },
    }
}

/// A ray cast from strictly inside a sphere never meets the nearer
/// quadratic root going forward: that root lies at a nonpositive
/// parameter, so any hit the query reports is the exit through the far
/// side of the surface. Strictly inside means the scaled product of the
/// direction's squared length and the centered quadratic constant clears
/// one raw unit below zero, the direction does not vanish, and the
/// squared half-slope sits below the saturation rim.
pub proof fn lemma_inside_ray_exits_far_side(s: Sphere, ray: Ray, t_min: i64, t_max: i64)
    requires
        t_min >= 1,
        ({
            let oc = crate::vector::vsub(ray.origin, s.center);
            let a = crate::vector::vlen_sq(ray.direction);
            let half_b = vdot(oc, ray.direction);
            let c = fsub(crate::vector::vlen_sq(oc), fmul(s.radius, s.radius));
            &&& a >= 1
            &&& fmul(a, c) <= -1
            &&& fmul(half_b, half_b) < FX_MAX
        }),
    ensures
        ({
            let oc = crate::vector::vsub(ray.origin, s.center);
            let a = crate::vector::vlen_sq(ray.direction);
            let half_b = vdot(oc, ray.direction);
            let c = fsub(crate::vector::vlen_sq(oc), fmul(s.radius, s.radius));
            let disc = fsub(fmul(half_b, half_b), fmul(a, c));
            let sqrtd = fsqrt(disc);
            let root1 = fdiv(fsub((-half_b) as i64, sqrtd), a);
            let root2 = fdiv(fadd((-half_b) as i64, sqrtd), a);
            &&& root1 <= 0
            &&& (spec_sphere_hit(s, ray, t_min, t_max) matches Some(h) ==> h
                == crate::sphere::spec_hit_record(s, ray, root2))
        }),
{
    let oc = crate::vector::vsub(ray.origin, s.center);
    let a = crate::vector::vlen_sq(ray.direction);
    let half_b = vdot(oc, ray.direction);
    let c = fsub(crate::vector::vlen_sq(oc), fmul(s.radius, s.radius));
    let disc = fsub(fmul(half_b, half_b), fmul(a, c));
    let hbsq = fmul(half_b, half_b);
    lemma_fmul_self_nonneg(half_b);
    // The discriminant clears the squared half-slope by one raw unit.
    assert(disc >= hbsq + 1);
    // Scaled back up, it dominates the exact square of the half-slope.
    let x = (disc as int) * (SCALE as int);
    assert(hbsq == div_to_zero((half_b as int) * (half_b as int), SCALE as int));
    vstd::arithmetic::div_mod::lemma_fundamental_div_mod(
        (half_b as int) * (half_b as int),
        SCALE as int,
    );
    assert((half_b as int) * (half_b as int) >= 0) by (nonlinear_arith);
    assert((hbsq + 1) * (SCALE as int) >= (half_b as int) * (half_b as int) + 1);
    assert(x >= (hbsq + 1) * (SCALE as int));
    // So the integer root is at least the half-slope's magnitude.
    let habs = if half_b >= 0 { half_b as int } else { -(half_b as int) };
    assert(habs * habs == (half_b as int) * (half_b as int)) by (nonlinear_arith)
        requires
            habs == if half_b >= 0 {
                half_b as int
            } else {
                -(half_b as int)
            },
    ;
    lemma_isqrt_at_least(x, habs);
    lemma_fsqrt_range(disc);
    let sqrtd = fsqrt(disc);
    assert(sqrtd >= habs);
    // The nearer root's numerator, and so the root itself, is nonpositive.
    let num1 = fsub((-half_b) as i64, sqrtd);
    assert(num1 <= 0);
    lemma_div_to_zero_monotone((num1 as int) * (SCALE as int), 0, a as int);
    assert(0int / (a as int) == 0) by (nonlinear_arith)
        requires
            a >= 1,
    ;
    assert((num1 as int) * (SCALE as int) <= 0) by (nonlinear_arith)
        requires
            num1 <= 0,
    ;
    assert(fdiv(num1, a) <= 0);
}

/// A full-stride render is a pure function of scene, camera, seed and
/// quality settings: whatever two buffers of the right size held before,
/// the pass leaves them byte-for-byte identical.
pub proof fn lemma_full_render_deterministic(
    world: Seq<Sphere>,
    cam: crate::camera::Camera,
    w: u32,
    h: u32,
    seed: u64,
    samples: u32,
    depth: u32,
    f1: Seq<u8>,
    f2: Seq<u8>,
)
    requires
        f1.len() == f2.len(),
        f1.len() == 4 * (w as int) * (h as int),
        w >= 1,
        h >= 1,
    ensures
        spec_frame(world, cam, w, h, seed, samples, depth, 1, f1) == spec_frame(
            world,
            cam,
            w,
            h,
            seed,
            samples,
            depth,
            1,
            f2,
        ),
{
    let a = spec_frame(world, cam, w, h, seed, samples, depth, 1, f1);
    let b = spec_frame(world, cam, w, h, seed, samples, depth, 1, f2);
    assert forall|k: int| 0 <= k < a.len() implies a[k] == b[k] by {
        reveal(crate::image::spec_frame_byte);
    }
    assert(a =~= b);
}

/// A metal with zero fuzz reflects exactly: the scattered direction is
/// the mirror image of the normalized incoming direction about the
/// normal, with no perturbation left over.
pub proof fn lemma_metal_zero_fuzz_exact(m: Material, ray_in: Ray, rec: HitRecord, s: u64)
    requires
        m.mat_type is Metal,
        m.fuzz == 0,
    ensures
        spec_scatter(m, ray_in, rec, s).2.direction == vreflect(
            vunit(ray_in.direction),
            rec.normal.unwrap(),
        ),
{
    let reflected = vreflect(vunit(ray_in.direction), rec.normal.unwrap());
    let (u, _s1) = spec_random_unit(s, UNIT_TRIES as nat);
    assert(vscale(u, 0) == (Vector { x: 0i64, y: 0i64, z: 0i64 })) by {
        assert(fmul(u.x, 0) == 0);
        assert(fmul(u.y, 0) == 0);
        assert(fmul(u.z, 0) == 0);
    }
    assert(vadd(reflected, Vector { x: 0i64, y: 0i64, z: 0i64 }) == reflected) by {
        assert(fadd(reflected.x, 0) == reflected.x);
        assert(fadd(reflected.y, 0) == reflected.y);
        assert(fadd(reflected.z, 0) == reflected.z);
    }
}

/// A panning motion moves the viewpoint and its target by exactly
/// `(-dx/width*3, +dy/height*3, 0)` and marks the frame for re-render.
pub proof fn lemma_pan_updates_viewpoint(im: Image, dx: i64, dy: i64)
    requires
        im.state is Panning,
    ensures
        ({
            let im2 = spec_handle(im, InputEvent::MouseMotion { dx, dy });
            let xrel = fmul(fdiv(dx, spec_px(im.width)), 3_000_000i64);
            let yrel = fmul(fdiv(dy, spec_px(im.height)), 3_000_000i64);
            &&& im2.look_from.x == fsub(im.look_from.x, xrel)
            &&& im2.look_from.y == fadd(im.look_from.y, yrel)
            &&& im2.look_from.z == im.look_from.z
            &&& im2.look_at.x == fsub(im.look_at.x, xrel)
            &&& im2.look_at.y == fadd(im.look_at.y, yrel)
            &&& im2.look_at.z == im.look_at.z
            &&& !im2.full_rendered
        }),
{
}

/// A front-face hit stores the outward normal itself, and the flag says
/// so exactly when the incoming direction opposes the outward normal.
pub proof fn lemma_front_face_orientation(ray: Ray, outward: Vector)
    requires
        vdot(ray.direction, outward) < 0,
    ensures
        spec_face_normal(ray, outward).0,
        spec_face_normal(ray, outward).1 == outward,
{
}

/// A back-face hit (a ray striking from inside) stores the geometric
/// outward normal negated, so the recorded normal points inward, against
/// the ray.
pub proof fn lemma_back_face_normal_negated(ray: Ray, outward: Vector)
    requires
        vdot(ray.direction, outward) >= 0,
    ensures
        !spec_face_normal(ray, outward).0,
        spec_face_normal(ray, outward).1 == vneg(outward),
{
}

} // verus!
