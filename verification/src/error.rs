//! The ways a run can fail. Every failure ends the run.

use vstd::prelude::*;

verus! {

/// The step at which the outside world failed.
#[derive(Clone, Copy, Debug, PartialEq, Eq, Structural)]
pub enum IoStage {
    /// Removing the output root.
    Cleanup,
    /// Looking a card up or downloading its image.
    Fetch,
    /// Decoding downloaded bytes into pixels.
    Decode,
    /// Encoding pixels into a file's bytes.
    Encode,
    /// Creating a directory or writing a file.
    Write,
}

/// Why a run was aborted.
#[derive(Clone, Copy, Debug, PartialEq, Eq, Structural)]
pub enum PipelineError {
    /// The deck list line with this number, counted from 0, is malformed.
    InputFormat { line: usize },
    /// The card found for the entry at this position has another name.
    LookupMismatch { entry: usize },
    /// The card image has this size, not the expected one.
    DimensionMismatch { width: u32, height: u32 },
    /// The file system, the network or a codec failed.
    Io { stage: IoStage },
}

} // verus!
