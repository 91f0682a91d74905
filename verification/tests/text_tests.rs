use ocalrs::menu::{parse_command, Command};
use ocalrs::ocr::{get_word, join_recognized_lines, OcrError};
use ocalrs::raster::RgbaImage;
use ocalrs::typer::plan_typing;
use ocalrs::window::{find_window, pick_window, WindowLookupError};

#[test]
fn lines_of_one_byte_are_dropped_and_rest_joined() {
    let lines = vec![
        Some("ab".to_string()),
        Some("c".to_string()),
        None,
        Some("é".to_string()),
        Some("de".to_string()),
    ];
    assert_eq!(join_recognized_lines(&lines).unwrap(), "abéde");
}

#[test]
fn no_long_line_is_an_error() {
    let lines = vec![Some("x".to_string()), None, Some(String::new())];
    assert!(matches!(join_recognized_lines(&lines), Err(OcrError::NoWords)));
    assert!(matches!(join_recognized_lines(&vec![]), Err(OcrError::NoWords)));
}

#[test]
fn engine_without_models_fails_at_detection() {
    let engine = ocrs::OcrEngine::new(ocrs::OcrEngineParams::default()).unwrap();
    let bin = RgbaImage::from_raw(2, 2, vec![255; 16]).unwrap();
    assert!(matches!(get_word(&engine, bin), Err(OcrError::DetectWords(_))));
}

#[test]
fn empty_image_is_refused_by_recogniser() {
    let engine = ocrs::OcrEngine::new(ocrs::OcrEngineParams::default()).unwrap();
    let bin = RgbaImage::from_raw(0, 3, vec![]).unwrap();
    assert!(matches!(get_word(&engine, bin), Err(OcrError::ImageSource(_))));
    let odd = RgbaImage::from_raw(1, 1, vec![0; 5]).unwrap();
    let engine = ocrs::OcrEngine::new(ocrs::OcrEngineParams::default()).unwrap();
    assert!(matches!(get_word(&engine, odd), Err(OcrError::ImageSource(_))));
}

#[test]
fn typing_plan_follows_split_on_empty_pattern() {
    for word in ["héllo", "ab", "", "x y"] {
        let plan = plan_typing(word, 5, 5);
        let texts: Vec<String> = plan.iter().map(|k| k.text.clone()).collect();
        let expected: Vec<String> = word.split("").map(|s| s.to_string()).collect();
        assert_eq!(texts, expected);
        assert!(plan.iter().all(|k| k.delay_ms == 5));
        assert_eq!(texts.concat(), word);
    }
}

#[test]
fn typing_delays_stay_in_range() {
    let plan = plan_typing("random", 10, 20);
    assert_eq!(plan.len(), 8);
    assert!(plan.iter().all(|k| (10..=20).contains(&k.delay_ms)));
}

#[test]
fn window_is_chosen_by_lowercased_first_word() {
    let titles = vec![
        None,
        Some("Notepad - game".to_string()),
        Some("GAME window".to_string()),
        Some("game".to_string()),
    ];
    assert_eq!(find_window(&titles, "game"), Ok(2));
    assert_eq!(find_window(&titles, "notepad"), Ok(1));
    assert_eq!(find_window(&titles, "Game"), Err(WindowLookupError::NotFound));
    assert_eq!(find_window(&titles, "other"), Err(WindowLookupError::NotFound));
    assert_eq!(find_window(&titles, ""), Err(WindowLookupError::EmptyName));
    assert_eq!(find_window(&vec![], "game"), Err(WindowLookupError::NotFound));
}

#[test]
fn window_title_with_leading_space_has_empty_first_word() {
    let titles = vec![Some(" game".to_string())];
    assert_eq!(find_window(&titles, "game"), Err(WindowLookupError::NotFound));
}

#[test]
fn commands_are_read_exactly() {
    assert_eq!(parse_command("s"), Command::Start);
    assert_eq!(parse_command("s -l"), Command::StartLogged);
    assert_eq!(parse_command("q"), Command::Quit);
    assert_eq!(parse_command("e"), Command::Quit);
    assert_eq!(parse_command("S"), Command::Invalid);
    assert_eq!(parse_command(""), Command::Invalid);
}

#[test]
fn failed_recognition_keeps_its_error() {
    let res = ocalrs::ocr::word_from_recognition(Err(anyhow::Error::msg("model failed")));
    match res {
        Err(OcrError::RecognizeText(e)) => assert_eq!(e.to_string(), "model failed"),
        _ => panic!("expected a recognition error"),
    }
    assert!(matches!(
        ocalrs::ocr::word_from_recognition(Ok(vec![None, None])),
        Err(OcrError::NoWords)
    ));
}

#[test]
fn failed_detection_keeps_its_error() {
    let engine = ocrs::OcrEngine::new(ocrs::OcrEngineParams::default()).unwrap();
    let bytes = vec![255u8; 16];
    let source = ocrs::ImageSource::from_bytes(&bytes, (2, 2)).unwrap();
    let input = engine.prepare_input(source).unwrap();
    let res = ocalrs::ocr::word_from_detection(&engine, &input, Err(anyhow::Error::msg("no model")));
    match res {
        Err(OcrError::DetectWords(e)) => assert_eq!(e.to_string(), "no model"),
        _ => panic!("expected a detection error"),
    }
    // no words detected: no lines, nothing recognised
    let engine = ocrs::OcrEngine::new(ocrs::OcrEngineParams::default()).unwrap();
    let res = ocalrs::ocr::word_from_detection(&engine, &input, Ok(vec![]));
    assert!(matches!(res, Err(OcrError::RecognizeText(_)) | Err(OcrError::NoWords)));
}

#[test]
fn transposed_image_is_handed_over_as_is() {
    let engine = ocrs::OcrEngine::new(ocrs::OcrEngineParams::default()).unwrap();
    let wide = RgbaImage::from_raw(3, 1, vec![255; 12]).unwrap();
    assert!(matches!(get_word(&engine, wide), Err(OcrError::DetectWords(_))));
}

#[test]
fn recognised_lines_are_joined_without_short_ones() {
    let lines = vec![
        Some("he".to_string()),
        Some("l".to_string()),
        None,
        Some("llo".to_string()),
        Some("é".to_string()),
    ];
    match ocalrs::ocr::word_from_recognition(Ok(lines)) {
        Ok(word) => assert_eq!(word, "helloé"),
        _ => panic!("expected a word"),
    }
    assert!(matches!(
        ocalrs::ocr::word_from_recognition(Ok(vec![Some("a".to_string()), Some(String::new())])),
        Err(OcrError::NoWords)
    ));
}

#[test]
fn window_is_picked_by_its_word() {
    let words = vec![None, Some("notepad".to_string()), Some("game".to_string()), Some("game".to_string())];
    assert_eq!(pick_window(&words, "game"), Ok(2));
    assert_eq!(pick_window(&words, "notepad"), Ok(1));
    assert_eq!(pick_window(&words, "Game"), Err(WindowLookupError::NotFound));
    assert_eq!(pick_window(&words, ""), Err(WindowLookupError::EmptyName));
    assert_eq!(pick_window(&vec![], "game"), Err(WindowLookupError::NotFound));
}
