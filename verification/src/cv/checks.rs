use vstd::prelude::*;

use super::{
    bin_readable, start_pixel_inside,
};
use crate::config::Config;
use crate::raster::RgbaImage;

verus! {

/// Whether the watched pixel lies inside `img`.
pub fn start_pixel_visible(cfg: &Config, img: &RgbaImage) -> (res: bool)
    ensures
        res == start_pixel_inside(cfg, img@),
{
    cfg.start_pixel_x < img.width() && cfg.start_pixel_y < img.height()
}

/// Whether the box (`x`, `y`, `width`, `height`) can be binarised from `img`.
pub fn bin_possible(img: &RgbaImage, x: u32, y: u32, width: u32, height: u32) -> (res: bool)
    ensures
        res == bin_readable(img@, x, y, width, height),
{
    assert(width * height <= 0x1_0000_0000 * 0x1_0000_0000) by (nonlinear_arith)
        requires
            width <= 0x1_0000_0000,
            height <= 0x1_0000_0000,
    ;
    let area = width as u128 * height as u128;
    if 4 * area > 0xffff_ffff || y as u64 + height as u64 > 0xffff_ffff {
        return false;
    }
    if height > 0 {
        let w = img.width() as u128;
        let last_row = (y + height - 1) as u128;
        assert(last_row * w <= 0x1_0000_0000 * 0x1_0000_0000) by (nonlinear_arith)
            requires
                last_row <= 0x1_0000_0000,
                w <= 0x1_0000_0000,
        ;
        let end = last_row * w + x as u128 + width as u128;
        end <= 0xffff_ffff && 4 * end <= img.as_raw().len() as u128
    } else {
        true
    }
}

} // verus!
