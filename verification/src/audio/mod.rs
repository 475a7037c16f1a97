//! The playback engine: decoding rules, sample buffering and session state.

pub mod decoder;
pub mod output;
pub mod player;
pub mod resampler;
