//! Rays: an origin point and a direction, queried at parametric distances.

use vstd::prelude::*;
use crate::fixed::fx_wf;
use crate::vector::{Vector, vec_wf, vadd, vscale};

verus! {

/// A ray `P(t) = origin + t * direction`.
#[derive(Clone, Copy, Debug, PartialEq, Eq, Structural)]
pub struct Ray {
    pub origin: Vector,
    pub direction: Vector,
}

/// Both constituents are well-formed vectors.
pub open spec fn ray_wf(r: Ray) -> bool {
    vec_wf(r.origin) && vec_wf(r.direction)
}

/// The point the ray reaches at parameter `t`.
pub open spec fn ray_at(r: Ray, t: i64) -> Vector {
    vadd(r.origin, vscale(r.direction, t))
}

impl Ray {
    /// A ray from its origin and direction.
    pub fn new(origin: Vector, direction: Vector) -> (r: Ray)
        ensures
            r == (Ray { origin, direction }),
    {
        Ray { origin, direction }
    }

    /// The point the ray reaches at parameter `t`.
    pub fn at(&self, t: i64) -> (p: Vector)
        requires
            ray_wf(*self),
            fx_wf(t),
        ensures
            p == ray_at(*self, t),
            vec_wf(p),
    {
        self.origin.add(self.direction.scale(t))
    }
}

} // verus!
