//! Match patterns: a value that can be read, afresh each time, as a sequence
//! of tokens to match against input, left to right.
//!
//! A pattern is realized by a single token (a one-element sequence), a vector
//! of tokens, or text (its character sequence).  Reading goes through
//! [`Pattern::length`] and [`Pattern::token_at`], so the same pattern value can
//! be matched any number of times with no shared iteration state.

use vstd::prelude::*;

use crate::token::Token;

verus! {

/// A restartable sequence of tokens to match against input.
pub trait Pattern<T: Token>: Sized {
    /// The token sequence this pattern stands for, in match order.
    spec fn pat(&self) -> Seq<T>;

    /// How many tokens the pattern holds.
    fn length(&self) -> (n: usize)
        ensures
            n == self.pat().len(),
    ;

    /// The `i`-th token of the pattern.
    fn token_at(&self, i: usize) -> (t: T)
        requires
            i < self.pat().len(),
        ensures
            t == self.pat()[i as int],
    ;

    /// A copy of the pattern standing for the same token sequence.
    fn dup(&self) -> (r: Self)
        ensures
            r.pat() == self.pat(),
    ;
}

/// A single token is the one-element pattern.
impl<T: Token> Pattern<T> for T {
    open spec fn pat(&self) -> Seq<T> {
        seq![*self]
    }

    fn length(&self) -> usize {
        1
    }

    fn token_at(&self, _i: usize) -> T {
        *self
    }

    fn dup(&self) -> T {
        *self
    }
}

/// A vector of tokens is the pattern of its elements in order.
impl<T: Token> Pattern<T> for Vec<T> {
    open spec fn pat(&self) -> Seq<T> {
        self@
    }

    fn length(&self) -> usize {
        self.len()
    }

    fn token_at(&self, i: usize) -> T {
        self[i]
    }

    fn dup(&self) -> (r: Vec<T>) {
        let mut r: Vec<T> = Vec::new();
        let mut i: usize = 0;
        while i < self.len()
            invariant
                i <= self@.len(),
                r@ == self@.subrange(0, i as int),
            decreases self@.len() - i,
        {
            r.push(self[i]);
            i = i + 1;
        }
        proof {
            assert(r@ =~= self@);
        }
        r
    }
}

/// Borrowed text is the pattern of its characters in order.
impl<'a> Pattern<char> for &'a str {
    open spec fn pat(&self) -> Seq<char> {
        self@
    }

    fn length(&self) -> usize {
        self.unicode_len()
    }

    fn token_at(&self, i: usize) -> char {
        self.get_char(i)
    }

    fn dup(&self) -> &'a str {
        *self
    }
}

/// Text is the pattern of its characters in order.
impl Pattern<char> for String {
    open spec fn pat(&self) -> Seq<char> {
        self@
    }

    fn length(&self) -> usize {
        self.as_str().unicode_len()
    }

    fn token_at(&self, i: usize) -> char {
        self.as_str().get_char(i)
    }

    fn dup(&self) -> String {
        self.clone()
    }
}

} // verus!
