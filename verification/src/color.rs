//! Three-channel colours in fixed point.
//!
//! A `Color` serves both as a radiance (any non-negative magnitude) and as a
//! filter whose channels are weights in `[0, ONE]`.

use crate::fixed::{blend, is_sqrt, mix, product, root, scale, sqrt, ONE};
use vstd::prelude::*;

verus! {

/// A red, green and blue triple of fixed-point quantities.
#[derive(Clone, Copy, Debug, PartialEq, Eq, Structural)]
pub struct Color {
    pub r: u64,
    pub g: u64,
    pub b: u64,
}

/// A sum held at the largest representable quantity once it passes it.
pub open spec fn capped(value: int) -> int {
    if value > u64::MAX {
        u64::MAX as int
    } else {
        value
    }
}

impl Color {
    /// No light at all.
    pub open spec fn dark() -> Color {
        Color { r: 0, g: 0, b: 0 }
    }

    /// The filter that lets everything through.
    pub open spec fn clear() -> Color {
        Color { r: ONE, g: ONE, b: ONE }
    }

    /// Whether every channel is a weight.
    pub open spec fn is_weight(self) -> bool {
        self.r <= ONE && self.g <= ONE && self.b <= ONE
    }

    /// Channel-wise sum, each channel capped.
    pub open spec fn sum(self, other: Color) -> Color {
        Color {
            r: capped(self.r + other.r) as u64,
            g: capped(self.g + other.g) as u64,
            b: capped(self.b + other.b) as u64,
        }
    }

    /// Channel-wise product with a filter.
    pub open spec fn filtered(self, filter: Color) -> Color {
        Color {
            r: product(self.r as int, filter.r as int) as u64,
            g: product(self.g as int, filter.g as int) as u64,
            b: product(self.b as int, filter.b as int) as u64,
        }
    }

    /// Every channel multiplied by one weight.
    pub open spec fn dimmed(self, weight: int) -> Color {
        Color {
            r: product(self.r as int, weight) as u64,
            g: product(self.g as int, weight) as u64,
            b: product(self.b as int, weight) as u64,
        }
    }

    /// Channel-wise linear interpolation towards `to`.
    pub open spec fn blended(self, to: Color, weight: int) -> Color {
        Color {
            r: blend(self.r as int, to.r as int, weight) as u64,
            g: blend(self.g as int, to.g as int, weight) as u64,
            b: blend(self.b as int, to.b as int, weight) as u64,
        }
    }

    /// The mean of the three channels, rounded down.
    pub open spec fn mean(self) -> int {
        (self.r + self.g + self.b) / 3
    }

    /// The Euclidean length of the triple, rounded down.
    pub open spec fn length(self) -> int {
        root(self.r * self.r + self.g * self.g + self.b * self.b)
    }

    pub fn new(r: u64, g: u64, b: u64) -> (c: Color)
        ensures
            c == (Color { r, g, b }),
    {
        Color { r, g, b }
    }

    pub fn black() -> (c: Color)
        ensures
            c == Color::dark(),
    {
        Color { r: 0, g: 0, b: 0 }
    }

    pub fn white() -> (c: Color)
        ensures
            c == Color::clear(),
            c.is_weight(),
    {
        Color { r: ONE, g: ONE, b: ONE }
    }

    pub fn is_black(&self) -> (dark: bool)
        ensures
            dark == (*self == Color::dark()),
    {
        self.r == 0 && self.g == 0 && self.b == 0
    }

    /// Adds two radiances. A channel that would pass the largest
    /// representable quantity stays there.
    pub fn plus(&self, other: Color) -> (c: Color)
        ensures
            c == self.sum(other),
    {
        Color {
            r: self.r.saturating_add(other.r),
            g: self.g.saturating_add(other.g),
            b: self.b.saturating_add(other.b),
        }
    }

    /// Passes a radiance through a filter.
    pub fn times(&self, filter: Color) -> (c: Color)
        requires
            filter.is_weight(),
        ensures
            c == self.filtered(filter),
            c.r <= self.r && c.g <= self.g && c.b <= self.b,
    {
        Color { r: scale(self.r, filter.r), g: scale(self.g, filter.g), b: scale(self.b, filter.b) }
    }

    /// Multiplies every channel by the same weight.
    pub fn scaled(&self, weight: u64) -> (c: Color)
        requires
            weight <= ONE,
        ensures
            c == self.dimmed(weight as int),
            c.r <= self.r && c.g <= self.g && c.b <= self.b,
    {
        Color { r: scale(self.r, weight), g: scale(self.g, weight), b: scale(self.b, weight) }
    }

    /// Interpolates linearly from this colour to another.
    pub fn lerp(&self, to: Color, weight: u64) -> (c: Color)
        requires
            weight <= ONE,
        ensures
            c == self.blended(to, weight as int),
            self.is_weight() && to.is_weight() ==> c.is_weight(),
    {
        Color { r: mix(self.r, to.r, weight), g: mix(self.g, to.g, weight), b: mix(self.b, to.b, weight) }
    }

    /// The mean of the three channels.
    pub fn component_average(&self) -> (m: u64)
        ensures
            m == self.mean(),
            self.is_weight() ==> m <= ONE,
    {
        let total: u128 = self.r as u128 + self.g as u128 + self.b as u128;
        (total / 3) as u64
    }

    /// The grey of the same mean brightness.
    pub fn greyscale(&self) -> (c: Color)
        ensures
            c.r == self.mean() && c.g == self.mean() && c.b == self.mean(),
    {
        let m: u64 = self.component_average();
        Color { r: m, g: m, b: m }
    }

    /// The Euclidean length of a filter. No channel exceeds it.
    pub fn norm(&self) -> (n: u64)
        requires
            self.is_weight(),
        ensures
            n == self.length(),
            self.r <= n && self.g <= n && self.b <= n,
    {
        let r: u128 = self.r as u128;
        let g: u128 = self.g as u128;
        let b: u128 = self.b as u128;
        assert(r * r <= 0x1_0000_0000_0000_0000 && g * g <= 0x1_0000_0000_0000_0000 && b * b
            <= 0x1_0000_0000_0000_0000) by (nonlinear_arith)
            requires
                r <= 0x1_0000_0000,
                g <= 0x1_0000_0000,
                b <= 0x1_0000_0000,
        ;
        let squares: u128 = r * r + g * g + b * b;
        let n: u64 = sqrt(squares);
        proof {
            lemma_channel_within_length(r as int, squares as int, n as int);
            lemma_channel_within_length(g as int, squares as int, n as int);
            lemma_channel_within_length(b as int, squares as int, n as int);
        }
        n
    }
}

/// A number whose square is part of a sum of squares is at most the root of
/// the sum.
proof fn lemma_channel_within_length(channel: int, squares: int, n: int)
    requires
        0 <= channel,
        channel * channel <= squares,
        is_sqrt(n, squares),
    ensures
        channel <= n,
{
    if channel > n {
        assert((n + 1) * (n + 1) <= channel * channel) by (nonlinear_arith)
            requires
                0 <= n,
                n + 1 <= channel,
        ;
    }
}

} // verus!
