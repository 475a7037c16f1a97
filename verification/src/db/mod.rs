//! Library data and the queue arithmetic that goes with it.

pub mod models;
pub mod operations;
pub mod queue;
pub mod shuffle_laws;
