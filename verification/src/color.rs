//! RGB colors with componentwise fixed-point arithmetic.

use vstd::prelude::*;

use crate::constants::ONE;
use crate::fixed::{fmul, fmul_s, sadd, sadd_s, ssub, ssub_s};

verus! {

/// An RGB color; each channel is a fixed-point value, nominally in
/// `[0, ONE]`.
#[derive(Clone, Copy, Debug, PartialEq, Eq, Structural)]
pub struct Color {
    pub r: i64,
    pub g: i64,
    pub b: i64,
}

impl Color {
    /// Black, the identity of color summation.
    pub open spec fn black_s() -> Color {
        Color { r: 0, g: 0, b: 0 }
    }

    /// Componentwise saturating sum.
    pub open spec fn add_s(self, o: Color) -> Color {
        Color { r: sadd_s(self.r, o.r), g: sadd_s(self.g, o.g), b: sadd_s(self.b, o.b) }
    }

    /// Componentwise saturating difference.
    pub open spec fn sub_s(self, o: Color) -> Color {
        Color { r: ssub_s(self.r, o.r), g: ssub_s(self.g, o.g), b: ssub_s(self.b, o.b) }
    }

    /// Componentwise fixed-point scaling by a scalar.
    pub open spec fn scale_s(self, k: i64) -> Color {
        Color { r: fmul_s(self.r, k), g: fmul_s(self.g, k), b: fmul_s(self.b, k) }
    }

    /// Componentwise fixed-point product of two colors.
    pub open spec fn mul_s(self, o: Color) -> Color {
        Color { r: fmul_s(self.r, o.r), g: fmul_s(self.g, o.g), b: fmul_s(self.b, o.b) }
    }

    /// Upper clamp of each channel to `ONE`. Negative channels are left
    /// alone: the diffuse pass only ever accumulates non-negative
    /// contributions.
    pub open spec fn min_one_s(self) -> Color {
        Color {
            r: if self.r > ONE {
                ONE
            } else {
                self.r
            },
            g: if self.g > ONE {
                ONE
            } else {
                self.g
            },
            b: if self.b > ONE {
                ONE
            } else {
                self.b
            },
        }
    }

    /// Clamp of each channel to `[0, ONE]`. The specular pass can produce
    /// negative channels (highlights are desaturated toward the light's own
    /// color), so it clamps at both ends.
    pub open spec fn clamp01_s(self) -> Color {
        Color { r: clamp01_channel_s(self.r), g: clamp01_channel_s(self.g), b: clamp01_channel_s(self.b) }
    }

    pub fn new(r: i64, g: i64, b: i64) -> (c: Color)
        ensures
            c == (Color { r, g, b }),
    {
        Color { r, g, b }
    }

    /// Black, the identity of color summation.
    pub fn black() -> (c: Color)
        ensures
            c == Color::black_s(),
    {
        Color { r: 0, g: 0, b: 0 }
    }

    /// Componentwise saturating sum.
    pub fn add(self, o: Color) -> (c: Color)
        ensures
            c == self.add_s(o),
    {
        Color { r: sadd(self.r, o.r), g: sadd(self.g, o.g), b: sadd(self.b, o.b) }
    }

    /// Componentwise saturating difference.
    pub fn sub(self, o: Color) -> (c: Color)
        ensures
            c == self.sub_s(o),
    {
        Color { r: ssub(self.r, o.r), g: ssub(self.g, o.g), b: ssub(self.b, o.b) }
    }

    /// Componentwise fixed-point scaling by a scalar.
    pub fn scale(self, k: i64) -> (c: Color)
        ensures
            c == self.scale_s(k),
    {
        Color { r: fmul(self.r, k), g: fmul(self.g, k), b: fmul(self.b, k) }
    }

    /// Componentwise fixed-point product of two colors.
    pub fn mul(self, o: Color) -> (c: Color)
        ensures
            c == self.mul_s(o),
    {
        Color { r: fmul(self.r, o.r), g: fmul(self.g, o.g), b: fmul(self.b, o.b) }
    }

    /// Upper clamp of each channel to `ONE`.
    pub fn min_one(self) -> (c: Color)
        ensures
            c == self.min_one_s(),
    {
        Color {
            r: if self.r > ONE {
                ONE
            } else {
                self.r
            },
            g: if self.g > ONE {
                ONE
            } else {
                self.g
            },
            b: if self.b > ONE {
                ONE
            } else {
                self.b
            },
        }
    }

    /// Clamp of each channel to `[0, ONE]`.
    pub fn clamp01(self) -> (c: Color)
        ensures
            c == self.clamp01_s(),
    {
        Color {
            r: clamp01_channel(self.r),
            g: clamp01_channel(self.g),
            b: clamp01_channel(self.b),
        }
    }
}

/// Clamp of one channel to `[0, ONE]`.
pub open spec fn clamp01_channel_s(v: i64) -> i64 {
    if v < 0 {
        0
    } else if v > ONE {
        ONE
    } else {
        v
    }
}

/// Clamp of one channel to `[0, ONE]`.
pub fn clamp01_channel(v: i64) -> (r: i64)
    ensures
        r == clamp01_channel_s(v),
{
    if v < 0 {
        0
    } else if v > ONE {
        ONE
    } else {
        v
    }
}

/// No channel of a clamped color exceeds `ONE` or drops below zero.
pub proof fn lemma_clamp01_bounds(c: Color)
    ensures
        0 <= c.clamp01_s().r <= ONE,
        0 <= c.clamp01_s().g <= ONE,
        0 <= c.clamp01_s().b <= ONE,
{
}

/// The upper clamp bounds every channel by `ONE` and keeps non-negative
/// channels non-negative.
pub proof fn lemma_min_one_bounds(c: Color)
    ensures
        c.min_one_s().r <= ONE,
        c.min_one_s().g <= ONE,
        c.min_one_s().b <= ONE,
        c.r >= 0 ==> c.min_one_s().r >= 0,
        c.g >= 0 ==> c.min_one_s().g >= 0,
        c.b >= 0 ==> c.min_one_s().b >= 0,
{
}

} // verus!
