//! The fatal conditions that end a comparison run.

use vstd::prelude::*;

verus! {

/// A fatal condition. None of them is recoverable: a run that meets one ends.
#[derive(Clone, Copy, Debug, PartialEq, Eq, Structural)]
pub enum Error {
    /// The two streams differ in width or height.
    DimensionMismatch,
    /// A stream declares a bit depth other than 8, 10, 12 or 16.
    UnsupportedBitDepth,
    /// The scoring tool's output holds no usable score, or a malformed norm line.
    ScoreParse,
    /// The run ended without a single scored frame pair.
    NoFrames,
}

impl Error {
    /// What went wrong, in words.
    pub open spec fn spec_message(&self) -> Seq<char> {
        match self {
            Error::DimensionMismatch => "the two clips differ in width or height"@,
            Error::UnsupportedBitDepth => "the bit depth is not one of 8, 10, 12 and 16"@,
            Error::ScoreParse => "the output of the scoring tool could not be read"@,
            Error::NoFrames => "no frames read"@,
        }
    }

    /// What went wrong, in words.
    pub fn message(&self) -> (text: &'static str)
        ensures
            text@ == self.spec_message(),
    {
        match self {
            Error::DimensionMismatch => "the two clips differ in width or height",
            Error::UnsupportedBitDepth => "the bit depth is not one of 8, 10, 12 and 16",
            Error::ScoreParse => "the output of the scoring tool could not be read",
            Error::NoFrames => "no frames read",
        }
    }
}

} // verus!
