//! Finding audio files and summing up what indexing them gave.

pub mod indexer;
pub mod scanner;
