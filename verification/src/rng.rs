//! A deterministic, explicitly seeded random source. Sampling decisions in
//! the tracer draw from a value of this type that is passed down the call
//! chain, so a render is a pure function of scene, camera and seed.

use vstd::prelude::*;
use crate::fixed::SCALE;

verus! {

/// Multiplier of the linear congruential step.
pub const LCG_MUL: u64 = 6364136223846793005;

/// Increment of the linear congruential step.
pub const LCG_INC: u64 = 1442695040888963407;

/// The state that follows `s` in the linear congruential sequence.
pub open spec fn spec_step(s: u64) -> u64 {
    (((s as int) * (LCG_MUL as int) + LCG_INC as int) % 0x1_0000_0000_0000_0000int) as u64
}

/// The seed a pixel's sampler starts from: the frame seed folded together
/// with the pixel's coordinates, so pixels draw independent sequences.
pub open spec fn spec_pixel_seed(seed: u64, i: u32, j: u32) -> u64 {
    spec_step(spec_step(spec_step(seed ^ (i as u64)) ^ 0x632B_E5AB_u64) ^ (j as u64))
}

/// A linear congruential pseudo-random generator.
#[derive(Clone, Copy, Debug, PartialEq, Eq, Structural)]
pub struct Rng64 {
    pub state: u64,
}

impl Rng64 {
    /// A generator starting from the given seed.
    pub fn new(seed: u64) -> (r: Rng64)
        ensures
            r.state == seed,
    {
        Rng64 { state: seed }
    }

    /// A generator for one pixel's samples, derived from the frame seed.
    pub fn for_pixel(seed: u64, i: u32, j: u32) -> (r: Rng64)
        ensures
            r.state == spec_pixel_seed(seed, i, j),
    {
        let mut g = Rng64 { state: seed ^ (i as u64) };
        let _ = g.next_u64();
        g.state = g.state ^ 0x632B_E5AB_u64;
        let _ = g.next_u64();
        g.state = g.state ^ (j as u64);
        let _ = g.next_u64();
        g
    }

    /// Advance one step and return the new state.
    pub fn next_u64(&mut self) -> (r: u64)
        ensures
            final(self).state == spec_step(old(self).state),
            r == spec_step(old(self).state),
    {
        let wide: u128 = (self.state as u128) * (LCG_MUL as u128) + (LCG_INC as u128);
        let next: u64 = (wide % 0x1_0000_0000_0000_0000u128) as u64;
        proof {
            assert((self.state as int) * (LCG_MUL as int)
                <= 0xFFFF_FFFF_FFFF_FFFFint * (LCG_MUL as int)) by (nonlinear_arith)
                requires
                    self.state <= 0xFFFF_FFFF_FFFF_FFFFu64,
            ;
        }
        self.state = next;
        next
    }

    /// A draw uniform over `[0, 1)` on the fixed-point scale.
    pub fn next_unit(&mut self) -> (r: i64)
        ensures
            final(self).state == spec_step(old(self).state),
            r == spec_step(old(self).state) as int % (SCALE as int),
            0 <= r < SCALE,
    {
        let v = self.next_u64();
        (v % (SCALE as u64)) as i64
    }

    /// A draw uniform over `[min, max)` on the fixed-point scale.
    pub fn next_range(&mut self, min: i64, max: i64) -> (r: i64)
        requires
            crate::fixed::fx_wf(min),
            crate::fixed::fx_wf(max),
            min < max,
        ensures
            final(self).state == spec_step(old(self).state),
            r == min + spec_step(old(self).state) as int % (max - min),
            min <= r < max,
    {
        let v = self.next_u64();
        let span: u64 = (max - min) as u64;
        min + (v % span) as i64
    }
}

} // verus!
