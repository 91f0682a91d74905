use vstd::prelude::*;

use crate::config::Config;
use crate::raster::{RasterView, RgbaImage, lemma_pixel_in_bounds, rgb_at};

mod binarize;
mod checks;
mod locality;
mod word_bounds;
mod word_start;

pub use binarize::{
    bin_readable, bin_row, bin_rows, ink_bytes, law_bin_black_on_bin_colour, law_bin_crop, law_bin_pixel, law_bin_two_tone, make_bin,
};
pub use checks::{bin_possible, start_pixel_visible};
pub use locality::{
    agree_on, law_scan_ignores_outside, law_threshold_keeps_start, law_window_start_is_local,
    same_window_colours,
};
pub use word_bounds::{
    bounds_height, bounds_scan_limit, bounds_x, bounds_y, get_word_bounds, is_char_square,
    law_taller_strip_keeps_char, law_width_within_scan_limit, law_word_box_geometry, scan_width, strip_count, strip_end,
    strip_has_char, strip_possible, strip_readable, strip_row_count, try_word_bounds,
    width_scan_readable, word_box, word_box_measurable,
};
pub use word_start::{
    anchor, detect_word_start, first_start_from_row, first_start_in_row, get_beginning_of_word, grid_scan_readable,
    is_prefix, law_screen_start_is_start_coloured, law_window_start_is_start_coloured, needed,
    row_hits, row_scan_readable, scan_limits_fit, scan_max_x, scan_max_y, scan_readable,
    try_beginning_of_word, window_hits, window_in_buffer, window_possible, window_readable,
    word_start_in_window, word_start_on_screen,
};

verus! {

// ---------------------------------------------------------------------------
// Colour classes
// ---------------------------------------------------------------------------

/// Each of the three channels lies within its inclusive range.
pub open spec fn within_ranges(
    p: (u8, u8, u8),
    r_max: u8,
    r_min: u8,
    g_max: u8,
    g_min: u8,
    b_max: u8,
    b_min: u8,
) -> bool {
    &&& r_max >= p.0 && p.0 >= r_min
    &&& g_max >= p.1 && p.1 >= g_min
    &&& b_max >= p.2 && p.2 >= b_min
}

/// Each of the three channels is at least `thr`.
pub open spec fn whitish(p: (u8, u8, u8), thr: u8) -> bool {
    p.0 >= thr && p.1 >= thr && p.2 >= thr
}

/// The colour of the first character of a word.
pub open spec fn start_char_colour(cfg: &Config, p: (u8, u8, u8)) -> bool {
    within_ranges(
        p,
        cfg.start_char_r_max,
        cfg.start_char_r_min,
        cfg.start_char_g_max,
        cfg.start_char_g_min,
        cfg.start_char_b_max,
        cfg.start_char_b_min,
    )
}

/// A pixel that belongs to a character when the word's bounds are measured.
pub open spec fn border_pixel(cfg: &Config, p: (u8, u8, u8)) -> bool {
    whitish(p, cfg.char_white) || start_char_colour(cfg, p)
}

/// A pixel that is drawn black in the binarised word.
pub open spec fn ink_pixel(cfg: &Config, p: (u8, u8, u8)) -> bool {
    within_ranges(
        p,
        cfg.bin_start_char_r_max,
        cfg.bin_start_char_r_min,
        cfg.bin_start_char_g_max,
        cfg.bin_start_char_g_min,
        cfg.bin_start_char_b_max,
        cfg.bin_start_char_b_min,
    ) || whitish(p, cfg.bin_char_white)
}

/// The pixel that marks the menu, before a game has started.
pub open spec fn menu_pixel(cfg: &Config, p: (u8, u8, u8)) -> bool {
    p.0 == cfg.start_pixel_red && p.1 == cfg.start_pixel_green && p.2 == cfg.start_pixel_blue
}

/// The first three channels of a pixel slice.
pub open spec fn rgb_of(pixel: Seq<u8>) -> (u8, u8, u8) {
    (pixel[0], pixel[1], pixel[2])
}

/// Whether the pixel's red, green and blue channels each lie in their
/// inclusive ranges.
pub fn what_color(
    pixel: &[u8],
    thr_r_max: u8,
    thr_r_min: u8,
    thr_g_max: u8,
    thr_g_min: u8,
    thr_b_max: u8,
    thr_b_min: u8,
) -> (res: bool)
    requires
        pixel@.len() >= 3,
    ensures
        res == within_ranges(
            rgb_of(pixel@),
            thr_r_max,
            thr_r_min,
            thr_g_max,
            thr_g_min,
            thr_b_max,
            thr_b_min,
        ),
{
    let r = pixel[0];
    let g = pixel[1];
    let b = pixel[2];

    thr_r_max >= r && r >= thr_r_min && thr_g_max >= g && g >= thr_g_min && thr_b_max >= b && b
        >= thr_b_min
}

/// Whether the pixel's red, green and blue channels are all at least `thr`.
pub fn is_white(pixel: &[u8], thr: u8) -> (res: bool)
    requires
        pixel@.len() >= 3,
    ensures
        res == whitish(rgb_of(pixel@), thr),
{
    let r = pixel[0];
    let g = pixel[1];
    let b = pixel[2];

    r >= thr && g >= thr && b >= thr
}

/// Whether the pixel has exactly the menu colour.
pub fn is_pixel_start(cfg: &Config, pixel: &[u8; 4]) -> (res: bool)
    ensures
        res == menu_pixel(cfg, rgb_of(pixel@)),
{
    let r = pixel[0];
    let g = pixel[1];
    let b = pixel[2];

    r == cfg.start_pixel_red && g == cfg.start_pixel_green && b == cfg.start_pixel_blue
}

/// The watched pixel lies inside the image.
pub open spec fn start_pixel_inside(cfg: &Config, img: RasterView) -> bool {
    cfg.start_pixel_x < img.width && cfg.start_pixel_y < img.height
}

/// The game has started: the watched pixel no longer shows the menu colour.
pub open spec fn game_started(cfg: &Config, img: RasterView) -> bool {
    !menu_pixel(
        cfg,
        rgb_at(
            img.bytes,
            cfg.start_pixel_y as int * img.width as int + cfg.start_pixel_x as int,
        ),
    )
}

/// Whether a game has begun: the pixel at (`start_pixel_x`, `start_pixel_y`)
/// is not of the menu colour.
pub fn is_start(cfg: &Config, img: &RgbaImage) -> (res: bool)
    requires
        start_pixel_inside(cfg, img@),
    ensures
        res == game_started(cfg, img@),
{
    let pixel = img.get_pixel(cfg.start_pixel_x, cfg.start_pixel_y);
    let ghost k = cfg.start_pixel_y as int * img@.width as int + cfg.start_pixel_x as int;
    proof {
        use_type_invariant(img);
        lemma_pixel_in_bounds(
            img@.width as int,
            img@.height as int,
            cfg.start_pixel_x as int,
            cfg.start_pixel_y as int,
        );
    }
    assert(rgb_of(pixel@) == rgb_at(img@.bytes, k)) by {
        assert(pixel@[0] == img@.bytes[4 * k]);
        assert(pixel@[1] == img@.bytes[4 * k + 1]);
        assert(pixel@[2] == img@.bytes[4 * k + 2]);
    }
    !is_pixel_start(cfg, &pixel)
}

/// The game counts as started exactly when the watched pixel differs from
/// the configured menu colour in at least one of its red, green and blue
/// channels.
pub proof fn law_game_starts_off_menu_colour(cfg: &Config, img: RasterView)
    ensures
        ({
            let k = cfg.start_pixel_y as int * img.width as int + cfg.start_pixel_x as int;
            game_started(cfg, img) <==> (img.bytes[4 * k] != cfg.start_pixel_red || img.bytes[4 * k
                + 1] != cfg.start_pixel_green || img.bytes[4 * k + 2] != cfg.start_pixel_blue)
        }),
{
}

} // verus!
