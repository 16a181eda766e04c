//! How finely the browser draws.

use crate::binary64::{number, order_of_positive_bits, Binary64, FOUR, QUARTER};
use vstd::prelude::*;

verus! {

/// How many device pixels the scene is rasterised into, as the browser takes it.
/// Below the monitor's own scale the browser renders a smaller image and the
/// compositor stretches it.
pub open spec fn raster_scale(scale: Binary64) -> Binary64 {
    scale.clamped(number(QUARTER), number(FOUR))
}

/// The scale is absolute rather than a multiplier on the monitor's, so the caller
/// folds the monitor's scale in.
pub fn rasterization_scale(scale: Binary64) -> (held: Binary64)
    ensures
        held == raster_scale(scale),
{
    proof {
        order_of_positive_bits(QUARTER, FOUR);
    }
    scale.clamp(Binary64 { bits: QUARTER }, Binary64 { bits: FOUR })
}

/// Every scale that is a number at all comes out between a quarter and four, and
/// one that was there already stays as it is.
pub proof fn raster_scale_in_range(scale: Binary64)
    requires
        !scale.is_nan(),
    ensures
        number(QUARTER).scaled() <= raster_scale(scale).scaled() <= number(FOUR).scaled(),
        number(QUARTER).scaled() <= scale.scaled() <= number(FOUR).scaled() ==> raster_scale(scale)
            == scale,
{
    order_of_positive_bits(QUARTER, FOUR);
}


/// A scale below a quarter counts as a quarter, one above four as four.
pub proof fn raster_scale_is_held(scale: Binary64)
    requires
        !scale.is_nan(),
    ensures
        ({
            let (low, high) = (number(0x3fd0_0000_0000_0000), number(0x4010_0000_0000_0000));
            &&& scale.scaled() < low.scaled() ==> raster_scale(scale) == low
            &&& scale.scaled() > high.scaled() ==> raster_scale(scale) == high
        }),
{
    order_of_positive_bits(QUARTER, FOUR);
}

} // verus!
