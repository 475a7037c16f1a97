//! What is learnt from a track's contents: its loudness and its tags.

pub mod extractor;
pub mod loudness;
pub mod parser;
pub mod sampling;
