use ocalrs::raster::RgbaImage;
use ocalrs::session::{step, SessionAction, SessionEvent, SessionState};
use ocalrs::Config;

const RED: [u8; 4] = [230, 20, 10, 255];
const BLACK: [u8; 4] = [0, 0, 0, 255];
const MENU: [u8; 4] = [10, 20, 30, 255];

fn config() -> Config {
    Config {
        window_name: "game".to_string(),
        allowed_chars: "ABC".to_string(),
        start_pixel_x: 1,
        start_pixel_y: 1,
        roi_x: 0,
        roy_y: 0,
        roi_width: 20,
        roi_height: 10,
        char_width: 4,
        char_height: 4,
        scan_stride: 2,
        required_pixels_for_start: 3,
        required_pixels_for_borders: 2,
        start_pixel_red: 10,
        start_pixel_green: 20,
        start_pixel_blue: 30,
        start_char_r_max: 255,
        start_char_r_min: 200,
        start_char_g_max: 50,
        start_char_g_min: 0,
        start_char_b_max: 50,
        start_char_b_min: 0,
        bin_start_char_r_max: 255,
        bin_start_char_r_min: 200,
        bin_start_char_g_max: 50,
        bin_start_char_g_min: 0,
        bin_start_char_b_max: 50,
        bin_start_char_b_min: 0,
        char_white: 250,
        bin_char_white: 250,
        work_timer: 60,
        delay_before_word_appears: 500,
        delay_type_min: 10,
        delay_type_max: 20,
        delay_before_new_capture: 50,
        delay_defore_new_word_appears: 700,
    }
}

fn image(width: u32, height: u32, fill: [u8; 4], points: &[(u32, u32, [u8; 4])]) -> RgbaImage {
    let mut data = Vec::new();
    for _ in 0..(width * height) {
        data.extend_from_slice(&fill);
    }
    for &(x, y, px) in points {
        let k = ((y * width + x) * 4) as usize;
        data[k..k + 4].copy_from_slice(&px);
    }
    RgbaImage::from_raw(width, height, data).unwrap()
}

#[test]
fn session_waits_for_start_then_reads_words() {
    let cfg = config();
    let menu = image(20, 10, BLACK, &[(1, 1, MENU)]);
    let game = image(20, 10, BLACK, &[(5, 3, RED), (6, 3, RED), (5, 4, RED)]);

    let (s, a) = step(&cfg, SessionState::AwaitingStart, SessionEvent::Clock(0));
    assert_eq!(s, SessionState::CheckingStart);
    assert!(matches!(a, SessionAction::Examine));

    let (s, a) = step(&cfg, s, SessionEvent::Frame(&menu));
    assert_eq!(s, SessionState::AwaitingStart);
    assert!(matches!(a, SessionAction::Capture(100)));

    let (s, _) = step(&cfg, s, SessionEvent::Clock(3));
    let (s, a) = step(&cfg, s, SessionEvent::Frame(&game));
    assert_eq!(s, SessionState::Playing);
    assert!(matches!(a, SessionAction::BeginPlaying(500)));

    let (s, a) = step(&cfg, s, SessionEvent::Clock(0));
    assert_eq!(s, SessionState::SeekingWord);
    assert!(matches!(a, SessionAction::Capture(50)));

    let (s, a) = step(&cfg, s, SessionEvent::Frame(&game));
    assert_eq!(s, SessionState::ReadingWord);
    match a {
        SessionAction::ReadWord { bounds, bin } => {
            assert_eq!(bounds, (0, 0, 10, 10));
            assert_eq!(bin.dimensions(), (10, 10));
        }
        _ => panic!("expected a word"),
    }

    let (s, a) = step(&cfg, s, SessionEvent::WordRead(true));
    assert_eq!(s, SessionState::Playing);
    assert!(matches!(a, SessionAction::Capture(700)));

    let (s, a) = step(&cfg, s, SessionEvent::Clock(60));
    assert_eq!(s, SessionState::Finished);
    assert!(matches!(a, SessionAction::Finish(true)));
}

#[test]
fn session_gives_up_when_game_never_starts() {
    let cfg = config();
    let (s, a) = step(&cfg, SessionState::AwaitingStart, SessionEvent::Clock(60));
    assert_eq!(s, SessionState::Finished);
    assert!(matches!(a, SessionAction::Finish(false)));
}

#[test]
fn finished_session_ignores_events() {
    let cfg = config();
    let (s, a) = step(&cfg, SessionState::Finished, SessionEvent::Clock(0));
    assert_eq!(s, SessionState::Finished);
    assert!(matches!(a, SessionAction::Ignore));
    let (s, a) = step(&cfg, SessionState::Finished, SessionEvent::WordRead(true));
    assert_eq!(s, SessionState::Finished);
    assert!(matches!(a, SessionAction::Ignore));
}

#[test]
fn frame_without_word_goes_back_to_playing() {
    let cfg = config();
    let blank = image(20, 10, BLACK, &[]);
    let (s, a) = step(&cfg, SessionState::SeekingWord, SessionEvent::Frame(&blank));
    assert_eq!(s, SessionState::Playing);
    assert!(matches!(a, SessionAction::NoWordStart));
}

#[test]
fn failed_recognition_skips() {
    let cfg = config();
    let (s, a) = step(&cfg, SessionState::ReadingWord, SessionEvent::WordRead(false));
    assert_eq!(s, SessionState::Playing);
    assert!(matches!(a, SessionAction::Skip));
}

#[test]
fn too_small_frame_is_unreadable() {
    let cfg = config();
    let tiny = image(2, 2, BLACK, &[]);
    let (s, a) = step(&cfg, SessionState::SeekingWord, SessionEvent::Frame(&tiny));
    assert_eq!(s, SessionState::SeekingWord);
    assert!(matches!(a, SessionAction::Unreadable));
    let one = image(1, 1, BLACK, &[]);
    let (s, a) = step(&cfg, SessionState::CheckingStart, SessionEvent::Frame(&one));
    assert_eq!(s, SessionState::CheckingStart);
    assert!(matches!(a, SessionAction::Unreadable));
}

#[test]
fn mismatched_event_is_ignored() {
    let cfg = config();
    let (s, a) = step(&cfg, SessionState::Playing, SessionEvent::WordRead(true));
    assert_eq!(s, SessionState::Playing);
    assert!(matches!(a, SessionAction::Ignore));
}
