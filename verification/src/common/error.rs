use vstd::prelude::*;

verus! {

/// Everything that can go wrong inside the extraction core.  Failures of
/// the surrounding collaborators (opening the bag container, walking its
/// chunks, persisting a frame) are raised by the caller that performs
/// them.
#[derive(Debug)]
pub enum AppError {
    /// A read ran past the end of a byte buffer.
    OutOfBounds,
    /// A length-prefixed string field held bytes that are not UTF-8.
    InvalidUtf8String,
    /// A decoded frame's pixel buffer does not fit its declared dimensions;
    /// carries the frame's encoding string.
    InvalidImageEncoding(String),
    /// A topic selector was requested as a regular expression but does not
    /// compile; carries the pattern.
    ArgsInvalidRegex(String),
    /// The configured end time does not lie after the start time; carries
    /// both, in nanoseconds.
    ArgsEndBeforeStart(u64, u64),
    /// The configured frame step is zero; carries it.
    ArgsNegativeStep(u32),
    /// The configured maximum frame count is zero; carries it.
    ArgsNegativeNumber(u32),
    /// No topic selector was given.
    ArgsEmptyTopics,
}

} // verus!
