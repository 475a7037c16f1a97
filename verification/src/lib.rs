//! Core logic of a desktop music player: queue ordering, playback session
//! state, sample buffering, loudness normalisation rules and tag parsing.

pub mod audio;
pub mod db;
pub mod library;
pub mod metadata;
pub mod settings;
pub mod smtc;
