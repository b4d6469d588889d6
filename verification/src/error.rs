//! The ways in which making or reading an identifier can fail.

use vstd::prelude::*;

verus! {

#[derive(Debug, Clone, Copy, PartialEq, Eq, Structural)]
pub enum SmallUidError {
    /// The system clock reports a time before the Unix epoch.
    ClockError,
    /// All 1024 tails of the current millisecond have been issued.
    MonotonicCounterLimit,
    /// The text holds a character outside the URL-safe alphabet.
    InvalidChar,
    /// The text is shorter than a token, or is not what encoding produces.
    NotABase64Url,
    /// The decoded bytes are not exactly eight.
    VecToArray,
}

} // verus!
