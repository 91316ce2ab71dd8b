//! Failures of the codec: plain data, one variant for each cause.

use vstd::prelude::*;

verus! {

/// What can go wrong when a command is built or a response is decoded.
#[derive(Debug, Clone, Copy, PartialEq, Eq, Structural)]
pub enum Mcp3208Error {
    /// The requested channel number is not one of the converter's inputs;
    /// holds the number that was asked for.
    ChannelOutOfRange(u8),
    /// A bit that is always zero in a response was set; holds the frame as
    /// it was received.
    MalformedResponse(u32),
    /// The sample and its mirrored copy disagree; holds the frame as it was
    /// received.
    ChecksumMismatch(u32),
}

} // verus!
