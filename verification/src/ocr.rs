use vstd::prelude::*;
use vstd::string::StringExecFns;
use vstd::utf8::encode_utf8;

use crate::raster::RgbaImage;

verus! {

#[verifier::external_type_specification]
#[verifier::external_body]
pub struct ExOcrEngine(ocrs::OcrEngine);

#[verifier::external_type_specification]
#[verifier::external_body]
pub struct ExOcrInput(ocrs::OcrInput);

#[verifier::external_type_specification]
#[verifier::external_body]
pub struct ExImageSource<'a>(ocrs::ImageSource<'a>);

#[verifier::external_type_specification]
#[verifier::external_body]
pub struct ExImageSourceError(ocrs::ImageSourceError);

#[verifier::external_type_specification]
#[verifier::external_body]
pub struct ExTextLine(ocrs::TextLine);

#[verifier::external_type_specification]
#[verifier::external_body]
pub struct ExRotatedRect(rten_imageproc::RotatedRect);

#[verifier::external_type_specification]
#[verifier::external_body]
pub struct ExAnyhowError(anyhow::Error);

/// Why no word was recognised.
#[derive(Debug)]
pub enum OcrError {
    /// The image could not be handed to the recogniser.
    ImageSource(ocrs::ImageSourceError),
    /// The image could not be prepared for recognition.
    PrepareInput(anyhow::Error),
    /// Word detection failed.
    DetectWords(anyhow::Error),
    /// Text recognition failed.
    RecognizeText(anyhow::Error),
    /// Recognition ran but gave no line of more than one byte.
    NoWords,
}

/// The recogniser takes a buffer of `len` bytes for a `width` x `height`
/// image: the image has pixels and the buffer holds 1, 3 or 4 bytes for each.
pub open spec fn source_accepts(len: nat, width: u32, height: u32) -> bool {
    let pixels: int = width * height;
    let len = len as int;
    &&& pixels > 0
    &&& len % pixels == 0
    &&& (len / pixels == 1 || len / pixels == 3 || len / pixels == 4)
}

/// `ocrs::OcrEngine::prepare_input`: the crate's source always returns
/// `Ok`. The prepared input is opaque here.
#[verifier::external_body]
fn prepare_input(engine: &ocrs::OcrEngine, image: ocrs::ImageSource) -> (res: Result<
    ocrs::OcrInput,
    anyhow::Error,
>)
    ensures
        res is Ok,
{
    engine.prepare_input(image)
}

/// `ocrs::OcrEngine::detect_words`: runs the detection model. Nothing is
/// claimed of the outcome, which rests on the engine's model.
#[verifier::external_body]
fn detect_words(engine: &ocrs::OcrEngine, input: &ocrs::OcrInput) -> Result<
    Vec<rten_imageproc::RotatedRect>,
    anyhow::Error,
> {
    engine.detect_words(input)
}

/// `ocrs::OcrEngine::find_text_lines`: groups word boxes into lines in
/// reading order. The crate's source starts every line with a word, so no
/// line is empty; nothing more is claimed of the grouping, which works on
/// floating-point boxes.
#[verifier::external_body]
fn find_text_lines(
    engine: &ocrs::OcrEngine,
    input: &ocrs::OcrInput,
    words: &[rten_imageproc::RotatedRect],
) -> (lines: Vec<Vec<rten_imageproc::RotatedRect>>)
    ensures
        forall|i: int| 0 <= i < lines@.len() ==> (#[trigger] lines@[i])@.len() > 0,
{
    engine.find_text_lines(input, words)
}

/// `ocrs::OcrEngine::recognize_text`: runs the recognition model on each
/// line, each recognised line then written out as text through
/// `ocrs::TextLine`'s `Display` (its characters, in order). Nothing is
/// claimed of the outcome, which rests on the engine's model. The crate's
/// source stops with a panic on a line without words, hence the requirement.
#[verifier::external_body]
fn recognize_text(
    engine: &ocrs::OcrEngine,
    input: &ocrs::OcrInput,
    lines: &[Vec<rten_imageproc::RotatedRect>],
) -> Result<Vec<Option<String>>, anyhow::Error>
    requires
        forall|i: int| 0 <= i < lines@.len() ==> (#[trigger] lines@[i])@.len() > 0,
{
    engine.recognize_text(input, lines).map(
        |texts| texts.into_iter().map(|line| line.map(|l| l.to_string())).collect(),
    )
}

/// Number of bytes in the UTF-8 encoding of `s` (what `str::len` gives).
pub open spec fn byte_len(s: Seq<char>) -> nat {
    encode_utf8(s).len()
}

/// A recognised line is kept when its text is longer than one byte.
pub open spec fn kept_text(line: Option<String>) -> Seq<char> {
    match line {
        Some(t) => if byte_len(t@) > 1 {
            t@
        } else {
            Seq::empty()
        },
        None => Seq::empty(),
    }
}

/// The word made of the recognised lines: the kept lines, joined with nothing between them.
pub open spec fn recognized_text(lines: Seq<Option<String>>) -> Seq<char>
    decreases lines.len(),
{
    if lines.len() == 0 {
        Seq::empty()
    } else {
        recognized_text(lines.drop_last()) + kept_text(lines.last())
    }
}

/// Joins recognised lines (`None` where a line gave no text) into one word:
/// lines of at most one byte are dropped and the rest are joined with
/// nothing between them; an empty result is an error.
pub fn join_recognized_lines(lines: &Vec<Option<String>>) -> (res: Result<String, OcrError>)
    ensures
        match res {
            Ok(word) => word@ == recognized_text(lines@) && word@.len() > 0,
            Err(e) => e is NoWords && recognized_text(lines@).len() == 0,
        },
{
    let mut text = String::new();
    let mut i: usize = 0;
    while i < lines.len()
        invariant
            i <= lines@.len(),
            text@ == recognized_text(lines@.take(i as int)),
        decreases lines@.len() - i,
    {
        assert(lines@.take(i + 1).drop_last() =~= lines@.take(i as int));
        assert(lines@.take(i + 1).last() == lines@[i as int]);
        let ghost before = text@;
        match &lines[i] {
            Some(line) => {
                if line.as_str().as_bytes().len() > 1 {
                    text.append(line.as_str());
                }
            },
            None => {},
        }
        assert(text@ =~= before + kept_text(lines@[i as int]));
        i += 1;
    }
    assert(lines@.take(lines@.len() as int) =~= lines@);
    if text.as_str().is_empty() {
        return Err(OcrError::NoWords);
    }
    Ok(text)
}

/// Finishes recognition once the recogniser has given its lines' texts (or
/// failed): a failure becomes `RecognizeText` with the recogniser's error;
/// otherwise the texts are joined as `join_recognized_lines` does.
pub fn word_from_recognition(recognized: Result<Vec<Option<String>>, anyhow::Error>) -> (res:
    Result<String, OcrError>)
    ensures
        match recognized {
            Err(e) => res == Err::<String, OcrError>(OcrError::RecognizeText(e)),
            Ok(lines) => match res {
                Ok(word) => word@ == recognized_text(lines@) && word@.len() > 0,
                Err(e) => e is NoWords && recognized_text(lines@).len() == 0,
            },
        },
{
    match recognized {
        Ok(lines) => join_recognized_lines(&lines),
        Err(e) => Err(OcrError::RecognizeText(e)),
    }
}

/// Finishes recognition once word detection has run (or failed): a failure
/// becomes `DetectWords` with the detector's error and nothing more runs;
/// otherwise the words are grouped into lines, the lines are recognised and
/// the result is finished by `word_from_recognition`.
pub fn word_from_detection(
    engine: &ocrs::OcrEngine,
    input: &ocrs::OcrInput,
    detected: Result<Vec<rten_imageproc::RotatedRect>, anyhow::Error>,
) -> (res: Result<String, OcrError>)
    ensures
        match detected {
            Err(e) => res == Err::<String, OcrError>(OcrError::DetectWords(e)),
            Ok(_) => match res {
                Ok(word) => word@.len() > 0,
                Err(e) => e is RecognizeText || e is NoWords,
            },
        },
{
    let word_rects = match detected {
        Ok(rects) => rects,
        Err(e) => return Err(OcrError::DetectWords(e)),
    };
    let line_rects = find_text_lines(engine, input, word_rects.as_slice());
    let recognized = recognize_text(engine, input, line_rects.as_slice());
    word_from_recognition(recognized)
}

/// Recognises the word in a binarised image: hands its bytes to the
/// recogniser, detects words, groups them into lines, recognises each line
/// and joins the lines as `join_recognized_lines` does. Each failing step
/// gives its own error and stops the rest.
pub fn get_word(engine: &ocrs::OcrEngine, grayscale: RgbaImage) -> (res: Result<String, OcrError>)
    requires
        grayscale@.width * grayscale@.height <= u32::MAX,
    ensures
        res matches Err(OcrError::ImageSource(_)) <==> !source_accepts(
            grayscale@.bytes.len(),
            grayscale@.width,
            grayscale@.height,
        ),
        !(res matches Err(OcrError::PrepareInput(_))),
        res matches Ok(word) ==> word@.len() > 0,
{
    let img_source = match grayscale.image_source() {
        Ok(source) => source,
        Err(e) => return Err(OcrError::ImageSource(e)),
    };

    let ocr_input = match prepare_input(engine, img_source) {
        Ok(input) => input,
        Err(e) => return Err(OcrError::PrepareInput(e)),
    };

    let detected = detect_words(engine, &ocr_input);
    word_from_detection(engine, &ocr_input, detected)
}

} // verus!
