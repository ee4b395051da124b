//! Pure conversions between pixel, world and data units, parameterized
//! by the current zoom scale.

use vstd::prelude::*;
use crate::rat::{Rat, fits_i128, eq_frac, le_frac};

verus! {

/// World units per unit of data value on the vertical axis.
pub const VERTICAL_SCALE: i128 = 8;

/// One world unit on the horizontal axis spans
/// `DAYS_PER_UNIT_NUM / DAYS_PER_UNIT_DEN` days, i.e. half a nominal
/// 365-day year.
pub const DAYS_PER_UNIT_NUM: i128 = 365;

/// See [`DAYS_PER_UNIT_NUM`].
pub const DAYS_PER_UNIT_DEN: i128 = 2;

/// Converts a length in pixels to a length in world units at the given
/// zoom scale (pixels per world unit): exactly `px / zoom`.
pub fn pixels_to_world(px: &Rat, zoom: &Rat) -> (r: Rat)
    requires
        px.wf(),
        zoom.wf(),
        zoom.num > 0,
        fits_i128(px.num * zoom.den),
        fits_i128(px.den * zoom.num),
    ensures
        r.num == px.num * zoom.den,
        r.den == px.den * zoom.num,
        r.wf(),
{
    px.div_by(zoom)
}

/// Law: `pixels_to_world` returns exactly the quotient `px / zoom` —
/// multiplying the result back by the zoom scale gives the pixel count
/// again.
pub proof fn lemma_pixels_to_world_exact(px: Rat, zoom: Rat, r: Rat)
    requires
        px.wf(),
        zoom.wf(),
        zoom.num > 0,
        r.num == px.num * zoom.den,
        r.den == px.den * zoom.num,
    ensures
        eq_frac(r.num * zoom.num, r.den * zoom.den, px.num as int, px.den as int),
{
    assert((px.num * zoom.den * zoom.num) * px.den == px.num * (px.den * zoom.num * zoom.den))
        by (nonlinear_arith);
}

/// Law: for a fixed nonnegative pixel count, `pixels_to_world` is
/// monotonically non-increasing in the zoom scale: zooming in (a larger
/// zoom scale) never makes the converted length grow.
pub proof fn lemma_pixels_to_world_monotone(px: Rat, z1: Rat, z2: Rat)
    requires
        px.wf(),
        px.num >= 0,
        z1.wf(),
        z1.num > 0,
        z2.wf(),
        z2.num > 0,
        z1.le(z2),
    ensures
        le_frac(px.num * z2.den, px.den * z2.num, px.num * z1.den, px.den * z1.num),
{
    assert((px.num * z2.den) * (px.den * z1.num) <= (px.num * z1.den) * (px.den * z2.num))
        by (nonlinear_arith)
        requires
            px.num >= 0,
            px.den > 0,
            z1.num * z2.den <= z2.num * z1.den,
    ;
}

/// Maps a calendar date, given as whole days since the fixed epoch
/// (January 1st, 2000), to its world-space x coordinate: exactly
/// `days / 182.5`.
pub fn date_to_x(days_since_epoch: i64) -> (r: Rat)
    ensures
        r.num == days_since_epoch * DAYS_PER_UNIT_DEN,
        r.den == DAYS_PER_UNIT_NUM,
        r.wf(),
{
    Rat::new((days_since_epoch as i128) * DAYS_PER_UNIT_DEN, DAYS_PER_UNIT_NUM)
}

/// Maps a data value to its world-space y coordinate: exactly
/// `value * VERTICAL_SCALE`. There is no auto-fit or auto-range logic.
pub fn value_to_y(value: &Rat) -> (r: Rat)
    requires
        value.wf(),
        fits_i128(value.num * VERTICAL_SCALE),
    ensures
        r.num == value.num * VERTICAL_SCALE,
        r.den == value.den,
        r.wf(),
{
    let r = value.times(&Rat { num: VERTICAL_SCALE, den: 1 });
    r
}

} // verus!
