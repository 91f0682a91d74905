//! Screen-reading typing assistant: the verified core.
//!
//! The library holds the decisions of the program: which pixels mark the
//! start of a game and of a word, where a word's bounds lie, how a word is
//! binarised, how the recogniser's lines become one word, how a word is split
//! into keystrokes, which window is the game's, which command was typed, and
//! the session loop as a state machine. Capturing the screen, loading the
//! recogniser's models, pressing keys and sleeping are left to the program
//! around it.

mod config;
pub mod cv;
pub mod menu;
pub mod ocr;
pub mod raster;
pub mod session;
pub mod typer;
pub mod window;

pub use config::Config;
