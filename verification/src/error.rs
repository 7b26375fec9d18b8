//! The minimal failure signal raised by a combinator at the point of mismatch.

use vstd::prelude::*;

verus! {

/// An opaque "no match at this position" signal.
///
/// This layer carries no payload; richer diagnostics (position, expected
/// tokens) belong to a surrounding layer that extends the factory.
#[derive(Clone, Copy, PartialEq, Eq, Structural, Debug)]
pub struct ParseError;

impl ParseError {
    /// The failure factory called wherever a combinator gives up.
    pub fn create() -> ParseError {
        ParseError
    }
}

} // verus!
