//! Per-pixel dithering decisions: the global threshold cutoff and the
//! ordered (Bayer) spatial threshold. Each decision is a pure function of
//! its inputs, with no state between pixels.

use crate::matrix::DitheringMatrix;
use vstd::prelude::*;

verus! {

/// Threshold algorithm: a pixel is lit exactly when its intensity lies
/// above the midpoint of the black and white levels, all in sample units.
pub open spec fn threshold_bit_spec(intensity: u8, black: u8, white: u8) -> bool {
    2 * intensity > black + white
}

/// Intensity rescaled from sample units (0..=255) to `[0, n*n)`.
pub open spec fn scaled_intensity(intensity: u8, n: int) -> int {
    intensity * (n * n) / 256
}

impl DitheringMatrix {
    /// Ordered algorithm: pixel `(x, y)` is lit exactly when its intensity,
    /// rescaled to `[0, n*n)`, exceeds the matrix entry at
    /// `(y mod n, x mod n)`.
    pub open spec fn bit_at(self, intensity: u8, x: int, y: int) -> bool
        recommends
            self.wf(),
            0 <= x,
            0 <= y,
    {
        scaled_intensity(intensity, self.n as int) > self.entries@[(y % (self.n as int)) * (
        self.n as int) + x % (self.n as int)]
    }
}

/// Decides one pixel of the threshold algorithm.
pub fn threshold_bit(intensity: u8, black: u8, white: u8) -> (r: bool)
    ensures
        r == threshold_bit_spec(intensity, black, white),
{
    2 * (intensity as u16) > (black as u16) + (white as u16)
}

/// Decides one pixel of the ordered algorithm.
pub fn ordered_bit(m: &DitheringMatrix, intensity: u8, x: usize, y: usize) -> (r: bool)
    requires
        m.wf(),
    ensures
        r == m.bit_at(intensity, x as int, y as int),
{
    let n = m.n;
    proof {
        assert(n == 4 || n == 8);
    }
    let nn: u32 = (n * n) as u32;
    proof {
        assert((intensity as u32) * nn <= 255 * 64) by (nonlinear_arith)
            requires
                intensity <= 255 && nn <= 64,
        ;
    }
    let scaled: u32 = (intensity as u32) * nn / 256;
    let row: usize = y % n;
    let col: usize = x % n;
    proof {
        vstd::arithmetic::div_mod::lemma_mod_bound(y as int, n as int);
        vstd::arithmetic::div_mod::lemma_mod_bound(x as int, n as int);
        vstd::arithmetic::mul::lemma_mul_inequality(row as int, n as int - 1, n as int);
    }
    let idx: usize = row * n + col;
    scaled > m.entries[idx]
}

/// For a fixed pixel position and matrix, the ordered-dither bit is
/// monotone in the intensity: once a darker intensity lights the pixel,
/// every brighter intensity lights it too.
pub proof fn lemma_ordered_dither_monotonic(m: DitheringMatrix, i1: u8, i2: u8, x: int, y: int)
    requires
        m.wf(),
        i1 <= i2,
        m.bit_at(i1, x, y),
    ensures
        m.bit_at(i2, x, y),
{
    let k = (m.n * m.n) as int;
    vstd::arithmetic::mul::lemma_mul_inequality(i1 as int, i2 as int, k);
    vstd::arithmetic::div_mod::lemma_div_is_ordered(i1 * k, i2 * k, 256);
}

} // verus!
