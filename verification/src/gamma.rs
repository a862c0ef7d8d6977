//! Gamma correction for one 8-bit LED channel: a quadratic transfer curve,
//! `round(v * v / 255)`, which keeps 0 and 255 fixed and darkens mid-range
//! values to compensate for the eye's brightness response.

use vstd::prelude::*;

verus! {

/// The gamma-corrected value of channel value `v`: `v * v / 255`, rounded
/// to the nearest integer.
pub open spec fn gamma_of(v: u8) -> u8 {
    ((2 * v * v + 255) / 510) as u8
}

/// Apply the gamma curve to one channel value.
pub fn gamma_correct(v: u8) -> (r: u8)
    ensures
        r == gamma_of(v),
{
    let x: u32 = v as u32;
    assert(2 * x * x + 255 <= 130305) by (nonlinear_arith)
        requires
            x <= 255,
    ;
    let y: u32 = (2 * x * x + 255) / 510;
    assert(y <= 255);
    y as u8
}

} // verus!
