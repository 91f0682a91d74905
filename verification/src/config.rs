use vstd::prelude::*;

verus! {

/// Every setting the program reads from its configuration file.
///
/// Coordinates and sizes are pixels, colours are channel values (0..=255),
/// `work_timer` is seconds and the `delay_*` fields are milliseconds.
pub struct Config {
    pub window_name: String,
    pub allowed_chars: String,

    pub start_pixel_x: u32,
    pub start_pixel_y: u32,

    pub roi_x: u32,
    pub roy_y: u32,
    pub roi_width: u32,
    pub roi_height: u32,

    pub char_width: u32,
    pub char_height: u32,

    pub scan_stride: u32,

    pub required_pixels_for_start: u32,
    pub required_pixels_for_borders: u32,

    pub start_pixel_red: u8,
    pub start_pixel_green: u8,
    pub start_pixel_blue: u8,

    pub start_char_r_max: u8,
    pub start_char_r_min: u8,
    pub start_char_g_max: u8,
    pub start_char_g_min: u8,
    pub start_char_b_max: u8,
    pub start_char_b_min: u8,

    pub bin_start_char_r_max: u8,
    pub bin_start_char_r_min: u8,
    pub bin_start_char_g_max: u8,
    pub bin_start_char_g_min: u8,
    pub bin_start_char_b_max: u8,
    pub bin_start_char_b_min: u8,

    pub char_white: u8,
    pub bin_char_white: u8,

    pub work_timer: u64,

    pub delay_before_word_appears: u64,
    pub delay_type_min: u64,
    pub delay_type_max: u64,
    pub delay_before_new_capture: u64,
    pub delay_defore_new_word_appears: u64,
}

} // verus!
