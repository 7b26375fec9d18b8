//! Random-access input: a [`Stream`] of tokens, a [`Cursor`] over it, and the
//! [`Checkpoint`]s that make exact backtracking possible.

use vstd::prelude::*;

verus! {

/// An immutable, ordered sequence of tokens, read only through a [`Cursor`].
pub struct Stream<T> {
    toks: Vec<T>,
}

impl<T> View for Stream<T> {
    type V = Seq<T>;

    closed spec fn view(&self) -> Seq<T> {
        self.toks@
    }
}

impl<T> Stream<T> {
    /// Wraps a fully materialized token sequence as parse input.
    pub fn new(toks: Vec<T>) -> (s: Stream<T>)
        ensures
            s@ == toks@,
    {
        Stream { toks }
    }
}

impl Stream<char> {
    /// The stream of the characters of `text`, in order.
    #[verifier::loop_isolation(false)]
    pub fn of_text(text: &str) -> (s: Stream<char>)
        ensures
            s@ == text@,
    {
        let n = text.unicode_len();
        let mut toks: Vec<char> = Vec::new();
        let mut i: usize = 0;
        while i < n
            invariant
                n == text@.len(),
                i <= n,
                toks@ == text@.subrange(0, i as int),
            decreases n - i,
        {
            let c = text.get_char(i);
            toks.push(c);
            i = i + 1;
            proof {
                assert(toks@ =~= text@.subrange(0, i as int));
            }
        }
        proof {
            assert(toks@ =~= text@);
        }
        Stream { toks }
    }
}

/// An opaque, copyable snapshot of a [`Cursor`] position, obtained from
/// [`Cursor::save`] and consumed by [`Cursor::rewind`].
#[derive(Clone, Copy)]
pub struct Checkpoint {
    pos: usize,
}

impl Checkpoint {
    /// The saved position.
    pub closed spec fn pos(self) -> int {
        self.pos as int
    }
}

/// A position into a [`Stream`], advanced one token at a time by [`Cursor::next`].
///
/// The cursor owns its stream for the duration of one parse call; the stream
/// itself is never mutated, so a rewind to any saved [`Checkpoint`] is exact.
pub struct Cursor<T> {
    stream: Stream<T>,
    pos: usize,
}

impl<T> Cursor<T> {
    /// The tokens of the underlying stream.
    pub closed spec fn input(&self) -> Seq<T> {
        self.stream@
    }

    /// The current position, between `0` and `input().len()` inclusive.
    pub closed spec fn pos(&self) -> int {
        self.pos as int
    }

    /// The cursor never stands past end-of-input.
    pub open spec fn wf(&self) -> bool {
        0 <= self.pos() <= self.input().len()
    }

    /// A fresh cursor at the start of `stream`.
    pub fn new(stream: Stream<T>) -> (c: Cursor<T>)
        ensures
            c.input() == stream@,
            c.pos() == 0,
            c.wf(),
    {
        Cursor { stream, pos: 0 }
    }

    /// The current position as a plain offset.
    pub fn position(&self) -> (n: usize)
        ensures
            n == self.pos(),
    {
        self.pos
    }

    /// Reads the token at the current position and advances by one, or signals
    /// end-of-input without advancing.  The offset returned is the position
    /// the read happened at.
    pub fn next(&mut self) -> (r: (usize, Option<T>)) where T: Copy
        requires
            old(self).wf(),
        ensures
            final(self).input() == old(self).input(),
            final(self).wf(),
            r.0 == old(self).pos(),
            old(self).pos() < old(self).input().len() ==> {
                &&& r.1 == Some(old(self).input()[old(self).pos()])
                &&& final(self).pos() == old(self).pos() + 1
            },
            old(self).pos() == old(self).input().len() ==> {
                &&& r.1 is None
                &&& final(self).pos() == old(self).pos()
            },
    {
        let at = self.pos;
        if at < self.stream.toks.len() {
            let tok = self.stream.toks[at];
            self.pos = at + 1;
            (at, Some(tok))
        } else {
            (at, None)
        }
    }

    /// Snapshots the current position in O(1); always succeeds.
    pub fn save(&self) -> (c: Checkpoint)
        ensures
            c.pos() == self.pos(),
    {
        Checkpoint { pos: self.pos }
    }

    /// Restores the exact position `c` was saved at.  Callable any number of
    /// times and from any later position; the stream is untouched.
    pub fn rewind(&mut self, c: Checkpoint)
        requires
            c.pos() <= old(self).input().len(),
        ensures
            final(self).input() == old(self).input(),
            final(self).pos() == c.pos(),
            final(self).wf(),
    {
        self.pos = c.pos;
    }
}

} // verus!
