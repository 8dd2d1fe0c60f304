//! Three-component vectors over fixed-point scalars, used both as points
//! and as directions.

use vstd::prelude::*;
use crate::fixed::{
    fx_wf, fadd, fsub, fmul, fdiv, fsqrt, fmin, fmax, FX_MAX, SCALE,
    fx_add, fx_sub, fx_mul, fx_div, fx_sqrt, fx_neg, fx_min, fx_max,
    lemma_fmul_self_nonneg,
};
use crate::rng::{Rng64, spec_step};

verus! {

/// A vector (or point) with fixed-point components.
#[derive(Clone, Copy, Debug, PartialEq, Eq, Structural)]
pub struct Vector {
    pub x: i64,
    pub y: i64,
    pub z: i64,
}

/// All three components lie in the fixed-point range.
pub open spec fn vec_wf(v: Vector) -> bool {
    fx_wf(v.x) && fx_wf(v.y) && fx_wf(v.z)
}

/// Componentwise sum.
pub open spec fn vadd(a: Vector, b: Vector) -> Vector {
    Vector { x: fadd(a.x, b.x), y: fadd(a.y, b.y), z: fadd(a.z, b.z) }
}

/// Componentwise difference.
pub open spec fn vsub(a: Vector, b: Vector) -> Vector {
    Vector { x: fsub(a.x, b.x), y: fsub(a.y, b.y), z: fsub(a.z, b.z) }
}

/// Componentwise negation.
pub open spec fn vneg(a: Vector) -> Vector {
    Vector { x: (-a.x) as i64, y: (-a.y) as i64, z: (-a.z) as i64 }
}

/// Componentwise product.
pub open spec fn vmul(a: Vector, b: Vector) -> Vector {
    Vector { x: fmul(a.x, b.x), y: fmul(a.y, b.y), z: fmul(a.z, b.z) }
}

/// Product with a scalar.
pub open spec fn vscale(a: Vector, k: i64) -> Vector {
    Vector { x: fmul(a.x, k), y: fmul(a.y, k), z: fmul(a.z, k) }
}

/// Quotient by a positive scalar.
pub open spec fn vdiv(a: Vector, k: i64) -> Vector {
    Vector { x: fdiv(a.x, k), y: fdiv(a.y, k), z: fdiv(a.z, k) }
}

/// The dot product, accumulated left to right.
pub open spec fn vdot(a: Vector, b: Vector) -> i64 {
    fadd(fadd(fmul(a.x, b.x), fmul(a.y, b.y)), fmul(a.z, b.z))
}

/// The cross product.
pub open spec fn vcross(a: Vector, b: Vector) -> Vector {
    Vector {
        x: fsub(fmul(a.y, b.z), fmul(a.z, b.y)),
        y: fsub(fmul(a.z, b.x), fmul(a.x, b.z)),
        z: fsub(fmul(a.x, b.y), fmul(a.y, b.x)),
    }
}

/// The squared length.
pub open spec fn vlen_sq(a: Vector) -> i64 {
    vdot(a, a)
}

/// The length.
pub open spec fn vlen(a: Vector) -> i64 {
    fsqrt(vlen_sq(a))
}

/// The vector rescaled to length one; a vector whose length truncates to
/// zero is returned unchanged, as there is nothing to normalize by.
pub open spec fn vunit(a: Vector) -> Vector {
    if vlen(a) == 0 {
        a
    } else {
        vdiv(a, vlen(a))
    }
}

/// `v` mirrored about the plane orthogonal to `n`: `v - 2 (v . n) n`.
pub open spec fn vreflect(v: Vector, n: Vector) -> Vector {
    vsub(v, vscale(n, fmul(2_000_000i64, vdot(v, n))))
}

/// Snell refraction of `v` at a surface with normal `n` and refraction
/// ratio `eta`; the parallel radicand is held at zero or above so the
/// square root stays defined when rounding drives it slightly negative.
pub open spec fn vrefract(v: Vector, n: Vector, eta: i64) -> Vector {
    let cos_theta = (-fmin(vdot(v, n), SCALE)) as i64;
    let r_out_perp = vscale(vadd(v, vscale(n, cos_theta)), eta);
    let r_out_parallel = vscale(n, (-fsqrt(fmax(0, fsub(SCALE, vlen_sq(r_out_perp))))) as i64);
    vadd(r_out_parallel, r_out_perp)
}

/// The squared length never comes out negative.
pub proof fn lemma_vlen_sq_nonneg(a: Vector)
    ensures
        0 <= vlen_sq(a) <= FX_MAX,
{
    lemma_fmul_self_nonneg(a.x);
    lemma_fmul_self_nonneg(a.y);
    lemma_fmul_self_nonneg(a.z);
}

/// Three successive uniform draws over `[min, max)`, one per component.
pub open spec fn spec_vec_range(s: u64, min: i64, max: i64) -> (Vector, u64) {
    let s1 = spec_step(s);
    let s2 = spec_step(s1);
    let s3 = spec_step(s2);
    (
        Vector {
            x: (min + s1 as int % (max - min)) as i64,
            y: (min + s2 as int % (max - min)) as i64,
            z: (min + s3 as int % (max - min)) as i64,
        },
        s3,
    )
}

/// Rejection sampling for a unit direction: draw inside the cube until the
/// point falls inside the unit ball, then normalize; after `tries` misses
/// fall back to the first axis.
pub open spec fn spec_random_unit(s: u64, tries: nat) -> (Vector, u64)
    decreases tries,
{
    if tries == 0 {
        (Vector { x: SCALE, y: 0, z: 0 }, s)
    } else {
        let (p, s1) = spec_vec_range(s, (-SCALE) as i64, SCALE);
        if vlen_sq(p) < SCALE {
            (vunit(p), s1)
        } else {
            spec_random_unit(s1, (tries - 1) as nat)
        }
    }
}

/// How many rejection draws are attempted before the fallback direction.
pub const UNIT_TRIES: u64 = 32;

impl Vector {
    /// A vector from its components.
    pub fn new(x: i64, y: i64, z: i64) -> (r: Vector)
        requires
            fx_wf(x),
            fx_wf(y),
            fx_wf(z),
        ensures
            r == (Vector { x, y, z }),
    {
        Vector { x, y, z }
    }

    /// The zero vector.
    pub fn new_empty() -> (r: Vector)
        ensures
            r == (Vector { x: 0i64, y: 0i64, z: 0i64 }),
    {
        Vector { x: 0, y: 0, z: 0 }
    }

    /// The first component.
    pub fn x(&self) -> (r: i64)
        ensures
            r == self.x,
    {
        self.x
    }

    /// The second component.
    pub fn y(&self) -> (r: i64)
        ensures
            r == self.y,
    {
        self.y
    }

    /// The third component.
    pub fn z(&self) -> (r: i64)
        ensures
            r == self.z,
    {
        self.z
    }

    /// The component selected by an index in `0..3`.
    pub fn index(&self, i: usize) -> (r: i64)
        requires
            i < 3,
        ensures
            r == if i == 0 {
                self.x
            } else if i == 1 {
                self.y
            } else {
                self.z
            },
    {
        if i == 0 {
            self.x
        } else if i == 1 {
            self.y
        } else {
            self.z
        }
    }

    /// Componentwise sum.
    pub fn add(self, rhs: Vector) -> (r: Vector)
        requires
            vec_wf(self),
            vec_wf(rhs),
        ensures
            r == vadd(self, rhs),
            vec_wf(r),
    {
        Vector {
            x: fx_add(self.x, rhs.x),
            y: fx_add(self.y, rhs.y),
            z: fx_add(self.z, rhs.z),
        }
    }

    /// Componentwise difference.
    pub fn sub(self, rhs: Vector) -> (r: Vector)
        requires
            vec_wf(self),
            vec_wf(rhs),
        ensures
            r == vsub(self, rhs),
            vec_wf(r),
    {
        Vector {
            x: fx_sub(self.x, rhs.x),
            y: fx_sub(self.y, rhs.y),
            z: fx_sub(self.z, rhs.z),
        }
    }

    /// Componentwise negation.
    pub fn neg(self) -> (r: Vector)
        requires
            vec_wf(self),
        ensures
            r == vneg(self),
            vec_wf(r),
    {
        Vector { x: -self.x, y: -self.y, z: -self.z }
    }

    /// Componentwise product.
    pub fn mul(self, rhs: Vector) -> (r: Vector)
        requires
            vec_wf(self),
            vec_wf(rhs),
        ensures
            r == vmul(self, rhs),
            vec_wf(r),
    {
        Vector {
            x: fx_mul(self.x, rhs.x),
            y: fx_mul(self.y, rhs.y),
            z: fx_mul(self.z, rhs.z),
        }
    }

    /// Product with a scalar.
    pub fn scale(self, k: i64) -> (r: Vector)
        requires
            vec_wf(self),
            fx_wf(k),
        ensures
            r == vscale(self, k),
            vec_wf(r),
    {
        Vector {
            x: fx_mul(self.x, k),
            y: fx_mul(self.y, k),
            z: fx_mul(self.z, k),
        }
    }

    /// Quotient by a positive scalar.
    pub fn div(self, k: i64) -> (r: Vector)
        requires
            vec_wf(self),
            fx_wf(k),
            k > 0,
        ensures
            r == vdiv(self, k),
            vec_wf(r),
    {
        Vector {
            x: fx_div(self.x, k),
            y: fx_div(self.y, k),
            z: fx_div(self.z, k),
        }
    }

    /// The dot product.
    pub fn dot(&self, rhs: &Vector) -> (r: i64)
        requires
            vec_wf(*self),
            vec_wf(*rhs),
        ensures
            r == vdot(*self, *rhs),
            fx_wf(r),
    {
        fx_add(fx_add(fx_mul(self.x, rhs.x), fx_mul(self.y, rhs.y)), fx_mul(self.z, rhs.z))
    }

    /// The cross product.
    pub fn cross(&self, rhs: &Vector) -> (r: Vector)
        requires
            vec_wf(*self),
            vec_wf(*rhs),
        ensures
            r == vcross(*self, *rhs),
            vec_wf(r),
    {
        Vector {
            x: fx_sub(fx_mul(self.y, rhs.z), fx_mul(self.z, rhs.y)),
            y: fx_sub(fx_mul(self.z, rhs.x), fx_mul(self.x, rhs.z)),
            z: fx_sub(fx_mul(self.x, rhs.y), fx_mul(self.y, rhs.x)),
        }
    }

    /// The squared length.
    pub fn length_squared(&self) -> (r: i64)
        requires
            vec_wf(*self),
        ensures
            r == vlen_sq(*self),
            0 <= r <= FX_MAX,
    {
        proof {
            lemma_vlen_sq_nonneg(*self);
        }
        self.dot(self)
    }

    /// The length.
    pub fn length(&self) -> (r: i64)
        requires
            vec_wf(*self),
        ensures
            r == vlen(*self),
            0 <= r <= FX_MAX,
    {
        fx_sqrt(self.length_squared())
    }

    /// The vector rescaled to length one (unchanged when its length
    /// truncates to zero).
    pub fn unit_vector(&self) -> (r: Vector)
        requires
            vec_wf(*self),
        ensures
            r == vunit(*self),
            vec_wf(r),
    {
        let len = self.length();
        if len == 0 {
            *self
        } else {
            self.div(len)
        }
    }

    /// Whether the vector is too small to scatter along: the usual
    /// degeneracy threshold sits below the fixed-point resolution, so only
    /// zero itself passes.
    pub fn near_zero(&self) -> (r: bool)
        ensures
            r == (self.x == 0 && self.y == 0 && self.z == 0),
    {
        self.x == 0 && self.y == 0 && self.z == 0
    }

    /// Mirror about the plane orthogonal to `normal`.
    pub fn reflect(&self, normal: &Vector) -> (r: Vector)
        requires
            vec_wf(*self),
            vec_wf(*normal),
        ensures
            r == vreflect(*self, *normal),
            vec_wf(r),
    {
        let d = self.dot(normal);
        self.sub(normal.scale(fx_mul(2_000_000i64, d)))
    }

    /// Snell refraction with refraction ratio `eta_over_eta_p`.
    pub fn refract(&self, normal: &Vector, eta_over_eta_p: i64) -> (r: Vector)
        requires
            vec_wf(*self),
            vec_wf(*normal),
            fx_wf(eta_over_eta_p),
        ensures
            r == vrefract(*self, *normal, eta_over_eta_p),
            vec_wf(r),
    {
        let cos_theta = fx_neg(fx_min(self.dot(normal), SCALE));
        let r_out_perp = self.add(normal.scale(cos_theta)).scale(eta_over_eta_p);
        proof {
            lemma_vlen_sq_nonneg(r_out_perp);
        }
        let radicand = fx_max(0, fx_sub(SCALE, r_out_perp.length_squared()));
        let r_out_parallel = normal.scale(fx_neg(fx_sqrt(radicand)));
        r_out_parallel.add(r_out_perp)
    }

    /// Three independent uniform draws over `[0, 1)`.
    pub fn random(rng: &mut Rng64) -> (r: Vector)
        ensures
            (r, final(rng).state) == spec_vec_range(old(rng).state, 0, SCALE),
            vec_wf(r),
    {
        Vector::random_with_constraint(rng, 0, SCALE)
    }

    /// Three independent uniform draws over `[min, max)`.
    pub fn random_with_constraint(rng: &mut Rng64, min: i64, max: i64) -> (r: Vector)
        requires
            fx_wf(min),
            fx_wf(max),
            min < max,
        ensures
            (r, final(rng).state) == spec_vec_range(old(rng).state, min, max),
            vec_wf(r),
    {
        let x = rng.next_range(min, max);
        let y = rng.next_range(min, max);
        let z = rng.next_range(min, max);
        Vector { x, y, z }
    }

    /// A random direction of (approximately) unit length.
    pub fn random_unit_vector(rng: &mut Rng64) -> (r: Vector)
        ensures
            (r, final(rng).state) == spec_random_unit(old(rng).state, UNIT_TRIES as nat),
            vec_wf(r),
    {
        Vector::random_unit_from(rng, UNIT_TRIES)
    }

    /// The rejection-sampling worker behind `random_unit_vector`.
    fn random_unit_from(rng: &mut Rng64, tries: u64) -> (r: Vector)
        ensures
            (r, final(rng).state) == spec_random_unit(old(rng).state, tries as nat),
            vec_wf(r),
        decreases tries,
    {
        if tries == 0 {
            Vector { x: SCALE, y: 0, z: 0 }
        } else {
            let p = Vector::random_with_constraint(rng, -SCALE, SCALE);
            if p.length_squared() < SCALE {
                p.unit_vector()
            } else {
                Vector::random_unit_from(rng, tries - 1)
            }
        }
    }
}

} // verus!
