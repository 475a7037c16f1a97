//! The buttons of the system's media controls.

use vstd::prelude::*;

verus! {

/// A button of the system's media controls.
#[derive(Debug, Clone, Copy, PartialEq, Eq, Structural)]
pub enum SmtcButton {
    Play,
    Pause,
    Stop,
    Next,
    Previous,
}

} // verus!
