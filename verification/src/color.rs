//! Colors as three fixed-point intensity channels. Intensities accumulate
//! across samples and are only averaged, gamma-corrected and quantized to
//! bytes when a pixel is written out.

use vstd::prelude::*;
use crate::fixed::{
    fx_wf, fadd, fmul, fdiv, fsqrt, fmax, spec_clamp, SCALE,
    fx_add, fx_mul, fx_div, fx_sqrt, fx_max, fx_clamp,
};
use crate::rng::{Rng64, spec_step};

verus! {

/// A color with fixed-point channels; `SCALE` is full intensity.
#[derive(Clone, Copy, Debug, PartialEq, Eq, Structural)]
pub struct Color {
    pub r: i64,
    pub g: i64,
    pub b: i64,
}

/// All three channels lie in the fixed-point range.
pub open spec fn color_wf(c: Color) -> bool {
    fx_wf(c.r) && fx_wf(c.g) && fx_wf(c.b)
}

/// Pure white.
pub open spec fn spec_white() -> Color {
    Color { r: SCALE, g: SCALE, b: SCALE }
}

/// Pure black.
pub open spec fn spec_black() -> Color {
    Color { r: 0i64, g: 0i64, b: 0i64 }
}

/// Channelwise sum.
pub open spec fn cadd(a: Color, b: Color) -> Color {
    Color { r: fadd(a.r, b.r), g: fadd(a.g, b.g), b: fadd(a.b, b.b) }
}

/// Channelwise product (attenuation of transported light).
pub open spec fn cmul(a: Color, b: Color) -> Color {
    Color { r: fmul(a.r, b.r), g: fmul(a.g, b.g), b: fmul(a.b, b.b) }
}

/// Product with a scalar.
pub open spec fn cscale(a: Color, k: i64) -> Color {
    Color { r: fmul(a.r, k), g: fmul(a.g, k), b: fmul(a.b, k) }
}

/// One channel's output byte: average over the sample count, gamma-correct
/// by square root, clamp just below one, and scale to eight bits.
pub open spec fn spec_quantize(c: i64, samples: u32) -> u8 {
    let avg = fdiv(c, ((samples as int) * (SCALE as int)) as i64);
    let root = fsqrt(fmax(0, avg));
    let clamped = spec_clamp(root as int, 0, 999_000) as i64;
    ((256 * clamped) / (SCALE as int)) as u8
}

/// The three output bytes of a pixel whose accumulated color is `c`.
pub open spec fn spec_pixel_bytes(c: Color, samples: u32) -> (u8, u8, u8) {
    (spec_quantize(c.r, samples), spec_quantize(c.g, samples), spec_quantize(c.b, samples))
}

/// Three successive uniform channel draws over `[min, max)`.
pub open spec fn spec_color_range(s: u64, min: i64, max: i64) -> (Color, u64) {
    let s1 = spec_step(s);
    let s2 = spec_step(s1);
    let s3 = spec_step(s2);
    (
        Color {
            r: (min + s1 as int % (max - min)) as i64,
            g: (min + s2 as int % (max - min)) as i64,
            b: (min + s3 as int % (max - min)) as i64,
        },
        s3,
    )
}

impl Color {
    /// A color from its channels.
    pub fn new(r: i64, g: i64, b: i64) -> (c: Color)
        requires
            fx_wf(r),
            fx_wf(g),
            fx_wf(b),
        ensures
            c == (Color { r, g, b }),
    {
        Color { r, g, b }
    }

    /// Pure white.
    pub fn new_white() -> (c: Color)
        ensures
            c == spec_white(),
    {
        Color { r: SCALE, g: SCALE, b: SCALE }
    }

    /// Pure black.
    pub fn new_black() -> (c: Color)
        ensures
            c == spec_black(),
    {
        Color { r: 0, g: 0, b: 0 }
    }

    /// Three independent uniform draws over `[0, 1)`.
    pub fn random(rng: &mut Rng64) -> (c: Color)
        ensures
            (c, final(rng).state) == spec_color_range(old(rng).state, 0, SCALE),
            color_wf(c),
    {
        Color::random_range(rng, 0, SCALE)
    }

    /// Three independent uniform draws over `[min, max)`.
    pub fn random_range(rng: &mut Rng64, min: i64, max: i64) -> (c: Color)
        requires
            fx_wf(min),
            fx_wf(max),
            min < max,
        ensures
            (c, final(rng).state) == spec_color_range(old(rng).state, min, max),
            color_wf(c),
    {
        let r = rng.next_range(min, max);
        let g = rng.next_range(min, max);
        let b = rng.next_range(min, max);
        Color { r, g, b }
    }

    /// Channelwise sum.
    pub fn add(self, rhs: Color) -> (c: Color)
        requires
            color_wf(self),
            color_wf(rhs),
        ensures
            c == cadd(self, rhs),
            color_wf(c),
    {
        Color {
            r: fx_add(self.r, rhs.r),
            g: fx_add(self.g, rhs.g),
            b: fx_add(self.b, rhs.b),
        }
    }

    /// Channelwise product.
    pub fn mul(self, rhs: Color) -> (c: Color)
        requires
            color_wf(self),
            color_wf(rhs),
        ensures
            c == cmul(self, rhs),
            color_wf(c),
    {
        Color {
            r: fx_mul(self.r, rhs.r),
            g: fx_mul(self.g, rhs.g),
            b: fx_mul(self.b, rhs.b),
        }
    }

    /// Product with a scalar.
    pub fn scale(self, k: i64) -> (c: Color)
        requires
            color_wf(self),
            fx_wf(k),
        ensures
            c == cscale(self, k),
            color_wf(c),
    {
        Color {
            r: fx_mul(self.r, k),
            g: fx_mul(self.g, k),
            b: fx_mul(self.b, k),
        }
    }

    /// The output bytes of a pixel: averaged over `samples` draws,
    /// gamma-corrected and clamped.
    pub fn pixels(&self, samples: u32) -> (bytes: (u8, u8, u8))
        requires
            color_wf(*self),
            samples >= 1,
        ensures
            bytes == spec_pixel_bytes(*self, samples),
    {
        (
            quantize_channel(self.r, samples),
            quantize_channel(self.g, samples),
            quantize_channel(self.b, samples),
        )
    }
}

/// One channel's averaged, gamma-corrected output byte.
fn quantize_channel(c: i64, samples: u32) -> (byte: u8)
    requires
        fx_wf(c),
        samples >= 1,
    ensures
        byte == spec_quantize(c, samples),
{
    let divisor: i64 = (samples as i64) * SCALE;
    let avg = fx_div(c, divisor);
    let root = fx_sqrt(fx_max(0, avg));
    let clamped = fx_clamp(root, 0, 999_000);
    let wide: u64 = (256u64 * (clamped as u64)) / 1_000_000u64;
    wide as u8
}

} // verus!
