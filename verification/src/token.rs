//! The atomic unit of input, with an equality test the verifier can follow.

use vstd::prelude::*;

verus! {

/// A token type: copyable, with an equality test that decides mathematical
/// equality of the two values.  The literal and membership matchers compare
/// pattern elements against stream tokens through [`Token::eq_token`].
pub trait Token: Copy + Sized {
    /// Decides whether the two tokens are the same value.
    fn eq_token(self, other: Self) -> (r: bool)
        ensures
            r == (self == other),
    ;
}

impl Token for char {
    fn eq_token(self, other: char) -> bool {
        self == other
    }
}

impl Token for u8 {
    fn eq_token(self, other: u8) -> bool {
        self == other
    }
}

impl Token for u16 {
    fn eq_token(self, other: u16) -> bool {
        self == other
    }
}

impl Token for u32 {
    fn eq_token(self, other: u32) -> bool {
        self == other
    }
}

impl Token for u64 {
    fn eq_token(self, other: u64) -> bool {
        self == other
    }
}

impl Token for i32 {
    fn eq_token(self, other: i32) -> bool {
        self == other
    }
}

impl Token for i64 {
    fn eq_token(self, other: i64) -> bool {
        self == other
    }
}

} // verus!
