use ocalrs::cv::{
    detect_word_start, get_beginning_of_word, is_char_square, get_word_bounds, is_pixel_start, is_start, is_white, make_bin,
    strip_possible, try_beginning_of_word, try_word_bounds, what_color, window_possible,
};
use ocalrs::raster::RgbaImage;
use ocalrs::Config;

const RED: [u8; 4] = [230, 20, 10, 255];
const WHITE: [u8; 4] = [255, 255, 255, 255];
const BLACK: [u8; 4] = [0, 0, 0, 255];

fn config() -> Config {
    Config {
        window_name: "game".to_string(),
        allowed_chars: "ABCDEFGHIJKLMNOPQRSTUVWXYZ".to_string(),
        start_pixel_x: 1,
        start_pixel_y: 1,
        roi_x: 0,
        roy_y: 0,
        roi_width: 20,
        roi_height: 10,
        char_width: 4,
        char_height: 4,
        scan_stride: 2,
        required_pixels_for_start: 3,
        required_pixels_for_borders: 2,
        start_pixel_red: 10,
        start_pixel_green: 20,
        start_pixel_blue: 30,
        start_char_r_max: 255,
        start_char_r_min: 200,
        start_char_g_max: 50,
        start_char_g_min: 0,
        start_char_b_max: 50,
        start_char_b_min: 0,
        bin_start_char_r_max: 255,
        bin_start_char_r_min: 200,
        bin_start_char_g_max: 50,
        bin_start_char_g_min: 0,
        bin_start_char_b_max: 50,
        bin_start_char_b_min: 0,
        char_white: 250,
        bin_char_white: 250,
        work_timer: 60,
        delay_before_word_appears: 500,
        delay_type_min: 10,
        delay_type_max: 20,
        delay_before_new_capture: 50,
        delay_defore_new_word_appears: 700,
    }
}

fn image(width: u32, height: u32, fill: [u8; 4], points: &[(u32, u32, [u8; 4])]) -> RgbaImage {
    let mut data = Vec::new();
    for _ in 0..(width * height) {
        data.extend_from_slice(&fill);
    }
    for &(x, y, px) in points {
        let k = ((y * width + x) * 4) as usize;
        data[k..k + 4].copy_from_slice(&px);
    }
    RgbaImage::from_raw(width, height, data).unwrap()
}

#[test]
fn what_color_checks_each_range_inclusively() {
    assert!(what_color(&[10, 20, 30, 0], 10, 10, 20, 20, 30, 30));
    assert!(what_color(&[15, 25, 35], 20, 10, 30, 20, 40, 30));
    assert!(!what_color(&[21, 25, 35], 20, 10, 30, 20, 40, 30));
    assert!(!what_color(&[15, 19, 35], 20, 10, 30, 20, 40, 30));
    assert!(!what_color(&[15, 25, 41], 20, 10, 30, 20, 40, 30));
}

#[test]
fn is_white_needs_every_channel_at_threshold() {
    assert!(is_white(&[250, 250, 250, 0], 250));
    assert!(is_white(&[255, 251, 250], 250));
    assert!(!is_white(&[255, 249, 255], 250));
    assert!(is_white(&[0, 0, 0], 0));
}

#[test]
fn pixel_start_is_exact_menu_colour() {
    let cfg = config();
    assert!(is_pixel_start(&cfg, &[10, 20, 30, 0]));
    assert!(!is_pixel_start(&cfg, &[10, 20, 31, 255]));
}

#[test]
fn game_starts_when_watched_pixel_leaves_menu_colour() {
    let cfg = config();
    let menu = image(4, 4, BLACK, &[(1, 1, [10, 20, 30, 255])]);
    assert!(!is_start(&cfg, &menu));
    let game = image(4, 4, BLACK, &[(2, 1, [10, 20, 30, 255])]);
    assert!(is_start(&cfg, &game));
}

#[test]
fn word_start_is_first_window_with_enough_colour() {
    let cfg = config();
    let img = image(20, 10, BLACK, &[(5, 3, RED), (6, 3, RED), (5, 4, RED)]);
    assert_eq!(get_beginning_of_word(&cfg, &img), Some((5, 3)));
}

#[test]
fn word_start_needs_required_pixels() {
    let cfg = config();
    let img = image(20, 10, BLACK, &[(5, 3, RED), (6, 3, RED)]);
    assert_eq!(get_beginning_of_word(&cfg, &img), None);
}

#[test]
fn word_start_skips_hits_in_column_zero() {
    let mut cfg = config();
    cfg.scan_stride = 4;
    let img = image(20, 10, BLACK, &[(0, 1, RED), (0, 2, RED), (3, 2, RED)]);
    assert_eq!(get_beginning_of_word(&cfg, &img), Some((3, 2)));
}

#[test]
fn word_start_threshold_zero_takes_first_hit() {
    let mut cfg = config();
    cfg.required_pixels_for_start = 0;
    let img = image(20, 10, BLACK, &[(9, 7, RED)]);
    assert_eq!(get_beginning_of_word(&cfg, &img), Some((9, 7)));
}

#[test]
fn word_bounds_end_after_three_empty_strips() {
    let mut cfg = config();
    cfg.scan_stride = 5;
    let mut points = Vec::new();
    for x in [7u32, 12, 17, 22] {
        points.push((x, 20, WHITE));
        points.push((x, 21, WHITE));
    }
    let img = image(60, 50, BLACK, &points);
    assert_eq!(get_word_bounds(&cfg, 20, 20, &img), (5, 13, 30, 37));
}

#[test]
fn word_bounds_without_gap_report_scan_limit() {
    let mut cfg = config();
    cfg.scan_stride = 5;
    let img = image(60, 50, WHITE, &[]);
    assert_eq!(get_word_bounds(&cfg, 20, 20, &img), (5, 13, 55, 37));
}

#[test]
fn word_bounds_clamp_at_top_left_and_bottom() {
    let mut cfg = config();
    cfg.scan_stride = 5;
    let img = image(60, 30, BLACK, &[]);
    // no character at all: the third strip closes the run at column 10
    assert_eq!(get_word_bounds(&cfg, 3, 4, &img), (0, 0, 10, 30));
}

#[test]
fn make_bin_draws_ink_black_and_rest_white() {
    let cfg = config();
    let img = image(
        4,
        3,
        BLACK,
        &[(1, 1, RED), (2, 1, BLACK), (1, 2, WHITE), (2, 2, [100, 100, 100, 255])],
    );
    let bin = make_bin(&cfg, 1, 1, 2, 2, &img).unwrap();
    assert_eq!(bin.dimensions(), (2, 2));
    assert_eq!(
        bin.into_raw(),
        vec![0, 0, 0, 255, 255, 255, 255, 255, 0, 0, 0, 255, 255, 255, 255, 255]
    );
}

#[test]
fn make_bin_is_two_tone() {
    let cfg = config();
    let mut points = Vec::new();
    for i in 0..30u32 {
        points.push((i % 6, i % 5, [(i * 37 % 256) as u8, (i * 91 % 256) as u8, (i * 13 % 256) as u8, 7]));
    }
    let img = image(6, 5, BLACK, &points);
    let bin = make_bin(&cfg, 0, 0, 6, 5, &img).unwrap();
    for px in bin.as_raw().chunks(4) {
        assert!(px == [0, 0, 0, 255] || px == [255, 255, 255, 255]);
    }
}

#[test]
fn make_bin_of_empty_box() {
    let cfg = config();
    let img = image(4, 3, BLACK, &[]);
    let bin = make_bin(&cfg, 2, 1, 0, 0, &img).unwrap();
    assert_eq!(bin.dimensions(), (0, 0));
    assert!(bin.into_raw().is_empty());
}

#[test]
fn testcl_get_word_start() {
    let mut cfg = config();
    cfg.roi_width = 60;
    cfg.roi_height = 50;
    cfg.scan_stride = 5;
    let mut points = vec![(20, 20, RED), (21, 20, RED), (20, 21, RED)];
    for x in [7u32, 12, 17, 22, 27, 32] {
        points.push((x, 20, WHITE));
        points.push((x, 21, WHITE));
    }
    let rgba_img = image(60, 50, BLACK, &points);
    let (x, y) = get_beginning_of_word(&cfg, &rgba_img).unwrap();
    assert_eq!((x, y), (20, 20));

    let bounds = get_word_bounds(&cfg, x, y, &rgba_img);
    assert_eq!(bounds, (5, 13, 40, 37));

    let gray = make_bin(&cfg, bounds.0, bounds.1, bounds.2, bounds.3, &rgba_img).unwrap();
    assert_eq!(gray.dimensions(), (40, 37));
    let raw = gray.as_raw();
    // pixel (20, 20) of the frame is (15, 7) of the box
    let k = ((7 * 40 + 15) * 4) as usize;
    assert_eq!(&raw[k..k + 4], &[0, 0, 0, 255]);
    assert_eq!(&raw[0..4], &[255, 255, 255, 255]);
}

#[test]
fn huge_stride_scans_one_window() {
    let mut cfg = config();
    cfg.roi_width = 4;
    cfg.roi_height = 4;
    cfg.char_width = 1;
    cfg.char_height = 1;
    cfg.required_pixels_for_start = 1;
    cfg.scan_stride = u32::MAX;
    let hit = image(4, 4, BLACK, &[(0, 0, RED)]);
    assert_eq!(get_beginning_of_word(&cfg, &hit), Some((0, 0)));
    let miss = image(4, 4, BLACK, &[(1, 0, RED)]);
    assert_eq!(get_beginning_of_word(&cfg, &miss), None);
    assert_eq!(try_beginning_of_word(&cfg, &miss), Some(None));
}

#[test]
fn zero_stride_ends_only_on_a_start() {
    let mut cfg = config();
    cfg.scan_stride = 0;
    let found = image(20, 10, BLACK, &[(1, 1, RED), (2, 1, RED), (1, 2, RED)]);
    assert_eq!(get_beginning_of_word(&cfg, &found), Some((1, 1)));
    let blank = image(20, 10, BLACK, &[]);
    assert_eq!(try_beginning_of_word(&cfg, &blank), None);
}

#[test]
fn scan_reading_outside_frame_is_refused() {
    let cfg = config();
    let small = image(10, 10, BLACK, &[]);
    assert_eq!(try_beginning_of_word(&cfg, &small), None);
    // a start found before the scan leaves the frame is still reported
    let early = image(10, 10, BLACK, &[(1, 1, RED), (2, 1, RED), (1, 2, RED)]);
    assert_eq!(try_beginning_of_word(&cfg, &early), Some(Some((1, 1))));
}

#[test]
fn zero_stride_word_bounds() {
    let mut cfg = config();
    cfg.scan_stride = 0;
    let img = image(60, 50, WHITE, &[]);
    assert_eq!(get_word_bounds(&cfg, 20, 20, &img), (5, 13, 0, 37));
    let narrow = image(3, 50, WHITE, &[]);
    assert_eq!(get_word_bounds(&cfg, 30, 20, &narrow), (15, 13, 3, 37));
    assert_eq!(try_word_bounds(&cfg, 30, 20, &narrow), Some((15, 13, 3, 37)));
}

#[test]
fn word_bounds_read_only_strips_before_the_gap() {
    let mut cfg = config();
    cfg.scan_stride = 5;
    // the gap closes at column 10, long before the scan limit
    let img = image(60, 30, BLACK, &[]);
    assert_eq!(try_word_bounds(&cfg, 3, 4, &img), Some((0, 0, 10, 30)));
}

#[test]
fn pixels_outside_roi_do_not_change_scan() {
    let mut cfg = config();
    cfg.roi_x = 2;
    cfg.roy_y = 2;
    cfg.roi_width = 10;
    cfg.roi_height = 6;
    let inside = [(5, 3, RED), (6, 3, RED), (5, 4, RED)];
    let a = image(20, 10, BLACK, &inside);
    let mut noisy = inside.to_vec();
    for x in 0..20 {
        noisy.push((x, 0, RED));
        noisy.push((x, 9, RED));
    }
    noisy.push((15, 4, RED));
    let b = image(20, 10, BLACK, &noisy);
    assert_eq!(get_beginning_of_word(&cfg, &a), get_beginning_of_word(&cfg, &b));
    assert_eq!(get_beginning_of_word(&cfg, &a), Some((5, 3)));
}

#[test]
fn raising_threshold_never_moves_start() {
    let mut cfg = config();
    cfg.required_pixels_for_start = 1;
    let img = image(20, 10, BLACK, &[(5, 3, RED), (6, 3, RED), (5, 4, RED)]);
    let low = get_beginning_of_word(&cfg, &img);
    cfg.required_pixels_for_start = 3;
    let high = get_beginning_of_word(&cfg, &img);
    assert_eq!(low, Some((5, 3)));
    assert_eq!(high, Some((5, 3)));
    cfg.required_pixels_for_start = 4;
    assert_eq!(get_beginning_of_word(&cfg, &img), None);
}

#[test]
fn sub_box_binarises_as_crop() {
    let cfg = config();
    let mut points = Vec::new();
    for i in 0..20u32 {
        points.push((i % 5, i % 4, [(i * 53 % 256) as u8, (i * 7 % 256) as u8, (i * 29 % 256) as u8, 1]));
    }
    points.push((2, 1, RED));
    points.push((3, 2, WHITE));
    let img = image(5, 4, BLACK, &points);
    let full = make_bin(&cfg, 0, 0, 5, 4, &img).unwrap();
    let sub = make_bin(&cfg, 1, 1, 3, 2, &img).unwrap();
    let full_raw = full.as_raw();
    let sub_raw = sub.as_raw();
    assert_eq!(sub_raw.len(), 4 * 3 * 2);
    for r in 0..2usize {
        for c in 0..3usize {
            let s = (r * 3 + c) * 4;
            let f = ((1 + r) * 5 + 1 + c) * 4;
            assert_eq!(&sub_raw[s..s + 4], &full_raw[f..f + 4]);
        }
    }
}

#[test]
fn window_checks_match_reads() {
    let cfg = config();
    let img = image(20, 10, BLACK, &[]);
    assert!(window_possible(&cfg, &img, 16, 6));
    assert!(!window_possible(&cfg, &img, 17, 6));
    assert!(window_possible(&cfg, &img, 17, 5));
    assert!(strip_possible(&cfg, &img, 18, 0, 10));
    assert!(!strip_possible(&cfg, &img, 21, 0, 10));
    assert!(strip_possible(&cfg, &img, 21, 0, 0));
}

#[test]
fn window_start_is_first_coloured_pixel_once_enough() {
    let cfg = config();
    let img = image(20, 10, BLACK, &[(5, 3, RED), (6, 3, RED), (5, 4, RED)]);
    assert_eq!(detect_word_start(&cfg, &img, 4, 2), Some((5, 3)));
    assert_eq!(detect_word_start(&cfg, &img, 7, 2), None);
}

#[test]
fn window_start_ignores_pixels_outside_window() {
    let cfg = config();
    let inside = [(5, 3, RED), (6, 3, RED), (5, 4, RED)];
    let a = image(20, 10, BLACK, &inside);
    let mut noisy = inside.to_vec();
    noisy.extend_from_slice(&[(0, 0, RED), (3, 3, RED), (8, 3, RED), (5, 6, RED), (19, 9, RED)]);
    let b = image(20, 10, BLACK, &noisy);
    assert_eq!(detect_word_start(&cfg, &a, 4, 2), detect_word_start(&cfg, &b, 4, 2));
}

#[test]
fn window_start_threshold_only_drops_start() {
    let mut cfg = config();
    let img = image(20, 10, BLACK, &[(5, 3, RED), (6, 3, RED), (5, 4, RED)]);
    cfg.required_pixels_for_start = 1;
    assert_eq!(detect_word_start(&cfg, &img, 4, 2), Some((5, 3)));
    cfg.required_pixels_for_start = 3;
    assert_eq!(detect_word_start(&cfg, &img, 4, 2), Some((5, 3)));
    cfg.required_pixels_for_start = 4;
    assert_eq!(detect_word_start(&cfg, &img, 4, 2), None);
}

#[test]
fn taller_strip_keeps_character() {
    let cfg = config();
    let img = image(20, 10, BLACK, &[(4, 2, WHITE), (5, 5, RED), (6, 2, WHITE)]);
    assert!(!is_char_square(&cfg, 4, 2, 3, &img));
    assert!(is_char_square(&cfg, 4, 2, 4, &img));
    assert!(is_char_square(&cfg, 4, 2, 8, &img));
    assert!(!is_char_square(&cfg, 4, 2, 0, &img));
}
