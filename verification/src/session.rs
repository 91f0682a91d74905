use vstd::prelude::*;

use crate::config::Config;
use crate::cv::{
    bin_possible, bin_readable, bin_rows, game_started, try_beginning_of_word,
    try_word_bounds, is_start, law_screen_start_is_start_coloured, make_bin,
    scan_readable, start_char_colour, start_pixel_inside, start_pixel_visible, word_box,
    word_box_measurable, word_start_on_screen,
};
use crate::raster::{RasterView, RgbaImage, rgb_at};

verus! {

/// Where a game session stands. Each state expects one kind of event:
/// `AwaitingStart` and `Playing` a clock reading, `CheckingStart` and
/// `SeekingWord` the current frame, `ReadingWord` the recognition outcome.
#[derive(Debug, PartialEq, Eq, Clone, Copy, Structural)]
pub enum SessionState {
    /// Waiting for the game to start.
    AwaitingStart,
    /// Looking at the current frame for the start of the game.
    CheckingStart,
    /// The game runs; the next word is due.
    Playing,
    /// Looking at a fresh frame for a word.
    SeekingWord,
    /// A word is being recognised and typed.
    ReadingWord,
    /// The session is over.
    Finished,
}

/// What the program around the session reports.
pub enum SessionEvent<'a> {
    /// Whole seconds elapsed on the session's timer.
    Clock(u64),
    /// The frame held now.
    Frame(&'a RgbaImage),
    /// Whether recognition produced a word (which was then typed).
    WordRead(bool),
}

/// What the program around the session does next.
pub enum SessionAction {
    /// Report the frame held now.
    Examine,
    /// Sleep this many milliseconds, then capture a new frame.
    Capture(u64),
    /// The game has started: sleep this many milliseconds, then restart the timer.
    BeginPlaying(u64),
    /// The frame shows no start of a word.
    NoWordStart,
    /// The word's box (left, top, width, height) could not be made into an image.
    BinRejected(u32, u32, u32, u32),
    /// Recognise the word in `bin`, cut from the box `bounds`, and type it.
    ReadWord { bounds: (u32, u32, u32, u32), bin: RgbaImage },
    /// Recognition gave no word; go on.
    Skip,
    /// The session is over; the flag says whether a game had started.
    Finish(bool),
    /// The frame is too small for the configured regions (the analysis would
    /// read outside it or overflow).
    Unreadable,
    /// The event does not fit the state.
    Ignore,
}

/// The abstract value of a [`SessionAction`].
pub enum ActionView {
    Examine,
    Capture(u64),
    BeginPlaying(u64),
    NoWordStart,
    BinRejected(u32, u32, u32, u32),
    ReadWord { bounds: (u32, u32, u32, u32), bin: RasterView },
    Skip,
    Finish(bool),
    Unreadable,
    Ignore,
}

impl View for SessionAction {
    type V = ActionView;

    open spec fn view(&self) -> ActionView {
        match self {
            SessionAction::Examine => ActionView::Examine,
            SessionAction::Capture(ms) => ActionView::Capture(*ms),
            SessionAction::BeginPlaying(ms) => ActionView::BeginPlaying(*ms),
            SessionAction::NoWordStart => ActionView::NoWordStart,
            SessionAction::BinRejected(x, y, w, h) => ActionView::BinRejected(*x, *y, *w, *h),
            SessionAction::ReadWord { bounds, bin } => ActionView::ReadWord { bounds: *bounds, bin: bin@ },
            SessionAction::Skip => ActionView::Skip,
            SessionAction::Finish(b) => ActionView::Finish(*b),
            SessionAction::Unreadable => ActionView::Unreadable,
            SessionAction::Ignore => ActionView::Ignore,
        }
    }
}

/// Pause, in milliseconds, between two looks for the start of the game.
pub open spec fn start_poll_ms() -> u64 {
    100
}

/// What a fresh frame gives while a word is sought.
pub open spec fn seek_word(cfg: &Config, img: RasterView) -> (SessionState, ActionView) {
    if !scan_readable(cfg, img) {
        (SessionState::SeekingWord, ActionView::Unreadable)
    } else {
        match word_start_on_screen(cfg, img) {
            None => (SessionState::Playing, ActionView::NoWordStart),
            Some(p) => {
                if !word_box_measurable(cfg, img, p.0, p.1) {
                    (SessionState::SeekingWord, ActionView::Unreadable)
                } else {
                    let b = word_box(cfg, img, p.0, p.1);
                    if !bin_readable(img, b.0, b.1, b.2, b.3) {
                        (SessionState::SeekingWord, ActionView::Unreadable)
                    } else if 4 * b.2 > usize::MAX {
                        (SessionState::Playing, ActionView::BinRejected(b.0, b.1, b.2, b.3))
                    } else {
                        (
                            SessionState::ReadingWord,
                            ActionView::ReadWord {
                                bounds: b,
                                bin: RasterView {
                                    width: b.2,
                                    height: b.3,
                                    bytes: bin_rows(
                                        cfg,
                                        img,
                                        b.0 as int,
                                        b.1 as int,
                                        b.2 as nat,
                                        b.3 as nat,
                                    ),
                                },
                            },
                        )
                    }
                }
            },
        }
    }
}

/// The session's transition: the next state and what to do, given the
/// current state and the event that was reported.
pub open spec fn next(cfg: &Config, state: SessionState, event: SessionEvent) -> (SessionState, ActionView) {
    match (state, event) {
        (SessionState::AwaitingStart, SessionEvent::Clock(secs)) => {
            if secs >= cfg.work_timer {
                (SessionState::Finished, ActionView::Finish(false))
            } else {
                (SessionState::CheckingStart, ActionView::Examine)
            }
        },
        (SessionState::CheckingStart, SessionEvent::Frame(img)) => {
            if !start_pixel_inside(cfg, img@) {
                (SessionState::CheckingStart, ActionView::Unreadable)
            } else if game_started(cfg, img@) {
                (SessionState::Playing, ActionView::BeginPlaying(cfg.delay_before_word_appears))
            } else {
                (SessionState::AwaitingStart, ActionView::Capture(start_poll_ms()))
            }
        },
        (SessionState::Playing, SessionEvent::Clock(secs)) => {
            if secs >= cfg.work_timer {
                (SessionState::Finished, ActionView::Finish(true))
            } else {
                (SessionState::SeekingWord, ActionView::Capture(cfg.delay_before_new_capture))
            }
        },
        (SessionState::SeekingWord, SessionEvent::Frame(img)) => seek_word(cfg, img@),
        (SessionState::ReadingWord, SessionEvent::WordRead(read)) => {
            if read {
                (SessionState::Playing, ActionView::Capture(cfg.delay_defore_new_word_appears))
            } else {
                (SessionState::Playing, ActionView::Skip)
            }
        },
        _ => (state, ActionView::Ignore),
    }
}

fn seek_word_in(cfg: &Config, img: &RgbaImage) -> (res: (SessionState, SessionAction))
    ensures
        (res.0, res.1@) == seek_word(cfg, img@),
{
    let (start_x, start_y) = match try_beginning_of_word(cfg, img) {
        None => return (SessionState::SeekingWord, SessionAction::Unreadable),
        Some(None) => return (SessionState::Playing, SessionAction::NoWordStart),
        Some(Some(xy)) => xy,
    };
    let (x, y, width, height) = match try_word_bounds(cfg, start_x, start_y, img) {
        Some(b) => b,
        None => return (SessionState::SeekingWord, SessionAction::Unreadable),
    };
    if !bin_possible(img, x, y, width, height) {
        return (SessionState::SeekingWord, SessionAction::Unreadable);
    }
    match make_bin(cfg, x, y, width, height, img) {
        Some(bin) => (SessionState::ReadingWord, SessionAction::ReadWord { bounds: (x, y, width, height), bin }),
        None => (SessionState::Playing, SessionAction::BinRejected(x, y, width, height)),
    }
}

/// Advances the session by one event.
pub fn step(cfg: &Config, state: SessionState, event: SessionEvent) -> (res: (SessionState, SessionAction))
    ensures
        (res.0, res.1@) == next(cfg, state, event),
{
    match (state, event) {
        (SessionState::AwaitingStart, SessionEvent::Clock(secs)) => {
            if secs >= cfg.work_timer {
                (SessionState::Finished, SessionAction::Finish(false))
            } else {
                (SessionState::CheckingStart, SessionAction::Examine)
            }
        },
        (SessionState::CheckingStart, SessionEvent::Frame(img)) => {
            if !start_pixel_visible(cfg, img) {
                (SessionState::CheckingStart, SessionAction::Unreadable)
            } else if is_start(cfg, img) {
                (SessionState::Playing, SessionAction::BeginPlaying(cfg.delay_before_word_appears))
            } else {
                (SessionState::AwaitingStart, SessionAction::Capture(100))
            }
        },
        (SessionState::Playing, SessionEvent::Clock(secs)) => {
            if secs >= cfg.work_timer {
                (SessionState::Finished, SessionAction::Finish(true))
            } else {
                (SessionState::SeekingWord, SessionAction::Capture(cfg.delay_before_new_capture))
            }
        },
        (SessionState::SeekingWord, SessionEvent::Frame(img)) => seek_word_in(cfg, img),
        (SessionState::ReadingWord, SessionEvent::WordRead(read)) => {
            if read {
                (SessionState::Playing, SessionAction::Capture(cfg.delay_defore_new_word_appears))
            } else {
                (SessionState::Playing, SessionAction::Skip)
            }
        },
        (state, _) => (state, SessionAction::Ignore),
    }
}


/// Once finished, a session stays finished and does nothing more.
pub proof fn law_finished_is_final(cfg: &Config, event: SessionEvent)
    ensures
        next(cfg, SessionState::Finished, event) == (SessionState::Finished, ActionView::Ignore),
{
}

/// A session finishes only on a clock reading at or past `work_timer`
/// seconds, and it reports a started game exactly when it finishes while
/// playing.
pub proof fn law_finish_only_when_time_is_up(cfg: &Config, state: SessionState, event: SessionEvent)
    ensures
        next(cfg, state, event).1 matches ActionView::Finish(began) ==> {
            &&& event matches SessionEvent::Clock(secs) && secs >= cfg.work_timer
            &&& began == (state == SessionState::Playing)
        },
{
}

/// While waiting or playing, a clock reading finishes the session exactly
/// when the time is up.
pub proof fn law_time_left_keeps_session_going(cfg: &Config, state: SessionState, secs: u64)
    requires
        state == SessionState::AwaitingStart || state == SessionState::Playing,
    ensures
        (next(cfg, state, SessionEvent::Clock(secs)).0 == SessionState::Finished) <==> secs
            >= cfg.work_timer,
{
}

/// Play begins only from a frame in which the watched pixel has left the
/// menu colour.
pub proof fn law_play_begins_on_start_frame(cfg: &Config, state: SessionState, event: SessionEvent)
    requires
        state == SessionState::AwaitingStart || state == SessionState::CheckingStart,
        next(cfg, state, event).0 == SessionState::Playing,
    ensures
        state == SessionState::CheckingStart,
        event matches SessionEvent::Frame(img) && start_pixel_inside(cfg, img@) && game_started(
            cfg,
            img@,
        ),
{
}

/// A word is read only from a frame in which the scan found a word start:
/// the box is measured from that start, which has the colour of a word's
/// first character and lies in the region of interest.
pub proof fn law_words_come_from_word_starts(cfg: &Config, state: SessionState, event: SessionEvent)
    requires
        next(cfg, state, event).1 is ReadWord,
    ensures
        state == SessionState::SeekingWord,
        event matches SessionEvent::Frame(img) && word_start_on_screen(cfg, img@) matches Some(p) && {
            &&& next(cfg, state, event).1->bounds == word_box(cfg, img@, p.0, p.1)
            &&& cfg.roi_x <= p.0 < cfg.roi_x + cfg.roi_width
            &&& cfg.roy_y <= p.1 < cfg.roy_y + cfg.roi_height
            &&& start_char_colour(
                cfg,
                rgb_at(img@.bytes, p.1 * img@.width + p.0),
            )
        },
{
    if let SessionEvent::Frame(img) = event {
        law_screen_start_is_start_coloured(cfg, img@);
    }
}

} // verus!
