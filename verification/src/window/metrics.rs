//! The size of a character cell on screen.

use vstd::prelude::*;

use noto_sans_mono_bitmap::{get_raster_width, FontWeight, RasterHeight};

verus! {

pub const CHAR_W: usize = 7;

pub const ROW_H: usize = 16;

/// `noto_sans_mono_bitmap::get_raster_width`: the regular weight at height 16
/// is seven pixels wide.
#[verifier::external_body]
pub(crate) fn char_w() -> (w: usize)
    ensures
        w == CHAR_W,
{
    get_raster_width(FontWeight::Regular, RasterHeight::Size16)
}

/// `noto_sans_mono_bitmap::RasterHeight::val`: the height as a number.
#[verifier::external_body]
pub(crate) fn row_h() -> (h: usize)
    ensures
        h == ROW_H,
{
    RasterHeight::Size16.val()
}

} // verus!
