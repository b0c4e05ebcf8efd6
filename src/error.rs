use vstd::prelude::*;

verus! {

/// Failures the sound player can report.
#[derive(Debug, Clone, Copy, PartialEq, Eq, Structural)]
pub enum SoundError {
    /// The audio output device could not be opened.
    NoAudioDevice,
    /// No clip survived loading, so there is nothing to select from.
    EmptyBank,
}

} // verus!
