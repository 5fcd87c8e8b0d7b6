//! The core of a music player for the terminal: the equalizer and the
//! stage that every sample passes, the transport with its ordering of
//! tracks, the displays on a canvas of braille dots, and the texts and
//! geometry of the panels around them.
//!
//! The library holds no floating point. Gains are hundredths of a
//! decibel, the volume is counted in steps of 0.05, times are
//! milliseconds, and the displays take samples as 16-bit values. The
//! filters of the equalizer and the samples that run through them are of
//! types of the caller's, who also hands in the arithmetic on them.

pub mod canvas;
pub mod controls;
pub mod eq;
pub mod eq_panel;
pub mod file_browser;
pub mod gauge;
pub mod input;
pub mod layout;
pub mod lyrics;
pub mod meta;
pub mod now_playing;
pub mod progress;
pub mod ring;
pub mod settings;
pub mod source;
pub mod text;
pub mod theme;
pub mod transport;
pub mod visualizer;
pub mod waveform;
