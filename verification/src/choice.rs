//! Ordered, backtracking alternation: try each alternative from one saved
//! checkpoint, commit to the first that succeeds, and restore the entry
//! position exactly when all of them fail.

use vstd::prelude::*;

use crate::error::ParseError;
use crate::mode::Mode;
use crate::parser::{PResult, Parser};
use crate::stream::Cursor;
use crate::token::Token;

verus! {

/// Ordered alternation over a fixed tuple or a vector of combinators that
/// share one output type.  First match wins; no further alternative is tried
/// once one succeeds.
#[derive(Clone, Copy)]
pub struct Choice<Ps> {
    /// The alternatives, tried in order.
    pub parsers: Ps,
}

/// The ordered-choice combinator over `parsers`.
pub fn choice<Ps>(parsers: Ps) -> (c: Choice<Ps>)
    ensures
        c.parsers == parsers,
{
    Choice { parsers }
}

/// The index of the first alternative in `ps` that succeeds on `input` at
/// `from`, or `ps.len()` when none does.
pub open spec fn first_match<T: Token, P: Parser<T>>(ps: Seq<P>, input: Seq<T>, from: int) -> int
    decreases ps.len(),
{
    if ps.len() == 0 {
        0
    } else if ps[0].succeeds(input, from) {
        0
    } else {
        1 + first_match(ps.skip(1), input, from)
    }
}

/// The defining properties of [`first_match`]: everything before it fails,
/// and it points at a success unless all alternatives fail.
pub proof fn lemma_first_match<T: Token, P: Parser<T>>(ps: Seq<P>, input: Seq<T>, from: int)
    ensures
        ({
            let k = first_match(ps, input, from);
            &&& 0 <= k <= ps.len()
            &&& forall|j: int| 0 <= j < k ==> !ps[j].succeeds(input, from)
            &&& k < ps.len() ==> ps[k].succeeds(input, from)
        }),
    decreases ps.len(),
{
    if ps.len() != 0 && !ps[0].succeeds(input, from) {
        lemma_first_match(ps.skip(1), input, from);
        let k1 = first_match(ps.skip(1), input, from);
        let k = first_match(ps, input, from);
        assert(k == 1 + k1);
        assert forall|j: int| 0 <= j < k implies !ps[j].succeeds(input, from) by {
            if j > 0 {
                assert(ps.skip(1)[j - 1] == ps[j]);
            }
        }
        if k < ps.len() {
            assert(ps.skip(1)[k1] == ps[k]);
        }
    }
}

/// An index before which every alternative fails, and which succeeds itself
/// unless it is the end, is exactly [`first_match`].
pub proof fn lemma_first_match_is<T: Token, P: Parser<T>>(
    ps: Seq<P>,
    input: Seq<T>,
    from: int,
    k: int,
)
    requires
        0 <= k <= ps.len(),
        forall|j: int| 0 <= j < k ==> !ps[j].succeeds(input, from),
        k < ps.len() ==> ps[k].succeeds(input, from),
    ensures
        first_match(ps, input, from) == k,
{
    let m = first_match(ps, input, from);
    lemma_first_match(ps, input, from);
    if m < k {
        assert(ps[m].succeeds(input, from));
        assert(false);
    }
    if k < m {
        assert(ps[k].succeeds(input, from));
        assert(false);
    }
}

impl<T: Token, O, P1, P2> Parser<T> for Choice<(P1, P2)> where
    P1: Parser<T, Output = O>,
    P2: Parser<T, Output = O>,
 {
    type Output = O;

    open spec fn wf(&self) -> bool {
        self.parsers.0.wf() && self.parsers.1.wf()
    }

    open spec fn succeeds(&self, input: Seq<T>, from: int) -> bool {
        self.parsers.0.succeeds(input, from) || self.parsers.1.succeeds(input, from)
    }

    open spec fn end_pos(&self, input: Seq<T>, from: int) -> int {
        if self.parsers.0.succeeds(input, from) {
            self.parsers.0.end_pos(input, from)
        } else if self.parsers.1.succeeds(input, from) {
            self.parsers.1.end_pos(input, from)
        } else {
            from
        }
    }

    open spec fn output_matches(&self, input: Seq<T>, from: int, out: O) -> bool {
        if self.parsers.0.succeeds(input, from) {
            self.parsers.0.output_matches(input, from, out)
        } else {
            self.parsers.1.output_matches(input, from, out)
        }
    }

    fn go(&self, inp: &mut Cursor<T>, mode: Mode) -> (r: PResult<O>) {
        let before = inp.save();
        match self.parsers.0.go(inp, mode) {
            Ok(out) => Ok(out),
            Err(_) => {
                inp.rewind(before);
                match self.parsers.1.go(inp, mode) {
                    Ok(out) => Ok(out),
                    Err(_) => {
                        inp.rewind(before);
                        Err(ParseError::create())
                    },
                }
            },
        }
    }
}

impl<T: Token, O, P1, P2, P3> Parser<T> for Choice<(P1, P2, P3)> where
    P1: Parser<T, Output = O>,
    P2: Parser<T, Output = O>,
    P3: Parser<T, Output = O>,
 {
    type Output = O;

    open spec fn wf(&self) -> bool {
        self.parsers.0.wf() && self.parsers.1.wf() && self.parsers.2.wf()
    }

    open spec fn succeeds(&self, input: Seq<T>, from: int) -> bool {
        ||| self.parsers.0.succeeds(input, from)
        ||| self.parsers.1.succeeds(input, from)
        ||| self.parsers.2.succeeds(input, from)
    }

    open spec fn end_pos(&self, input: Seq<T>, from: int) -> int {
        if self.parsers.0.succeeds(input, from) {
            self.parsers.0.end_pos(input, from)
        } else if self.parsers.1.succeeds(input, from) {
            self.parsers.1.end_pos(input, from)
        } else if self.parsers.2.succeeds(input, from) {
            self.parsers.2.end_pos(input, from)
        } else {
            from
        }
    }

    open spec fn output_matches(&self, input: Seq<T>, from: int, out: O) -> bool {
        if self.parsers.0.succeeds(input, from) {
            self.parsers.0.output_matches(input, from, out)
        } else if self.parsers.1.succeeds(input, from) {
            self.parsers.1.output_matches(input, from, out)
        } else {
            self.parsers.2.output_matches(input, from, out)
        }
    }

    fn go(&self, inp: &mut Cursor<T>, mode: Mode) -> (r: PResult<O>) {
        let before = inp.save();
        match self.parsers.0.go(inp, mode) {
            Ok(out) => Ok(out),
            Err(_) => {
                inp.rewind(before);
                match self.parsers.1.go(inp, mode) {
                    Ok(out) => Ok(out),
                    Err(_) => {
                        inp.rewind(before);
                        match self.parsers.2.go(inp, mode) {
                            Ok(out) => Ok(out),
                            Err(_) => {
                                inp.rewind(before);
                                Err(ParseError::create())
                            },
                        }
                    },
                }
            },
        }
    }
}

impl<T: Token, O, P1, P2, P3, P4> Parser<T> for Choice<(P1, P2, P3, P4)> where
    P1: Parser<T, Output = O>,
    P2: Parser<T, Output = O>,
    P3: Parser<T, Output = O>,
    P4: Parser<T, Output = O>,
 {
    type Output = O;

    open spec fn wf(&self) -> bool {
        &&& self.parsers.0.wf()
        &&& self.parsers.1.wf()
        &&& self.parsers.2.wf()
        &&& self.parsers.3.wf()
    }

    open spec fn succeeds(&self, input: Seq<T>, from: int) -> bool {
        ||| self.parsers.0.succeeds(input, from)
        ||| self.parsers.1.succeeds(input, from)
        ||| self.parsers.2.succeeds(input, from)
        ||| self.parsers.3.succeeds(input, from)
    }

    open spec fn end_pos(&self, input: Seq<T>, from: int) -> int {
        if self.parsers.0.succeeds(input, from) {
            self.parsers.0.end_pos(input, from)
        } else if self.parsers.1.succeeds(input, from) {
            self.parsers.1.end_pos(input, from)
        } else if self.parsers.2.succeeds(input, from) {
            self.parsers.2.end_pos(input, from)
        } else if self.parsers.3.succeeds(input, from) {
            self.parsers.3.end_pos(input, from)
        } else {
            from
        }
    }

    open spec fn output_matches(&self, input: Seq<T>, from: int, out: O) -> bool {
        if self.parsers.0.succeeds(input, from) {
            self.parsers.0.output_matches(input, from, out)
        } else if self.parsers.1.succeeds(input, from) {
            self.parsers.1.output_matches(input, from, out)
        } else if self.parsers.2.succeeds(input, from) {
            self.parsers.2.output_matches(input, from, out)
        } else {
            self.parsers.3.output_matches(input, from, out)
        }
    }

    fn go(&self, inp: &mut Cursor<T>, mode: Mode) -> (r: PResult<O>) {
        let before = inp.save();
        match self.parsers.0.go(inp, mode) {
            Ok(out) => Ok(out),
            Err(_) => {
                inp.rewind(before);
                match self.parsers.1.go(inp, mode) {
                    Ok(out) => Ok(out),
                    Err(_) => {
                        inp.rewind(before);
                        match self.parsers.2.go(inp, mode) {
                            Ok(out) => Ok(out),
                            Err(_) => {
                                inp.rewind(before);
                                match self.parsers.3.go(inp, mode) {
                                    Ok(out) => Ok(out),
                                    Err(_) => {
                                        inp.rewind(before);
                                        Err(ParseError::create())
                                    },
                                }
                            },
                        }
                    },
                }
            },
        }
    }
}

impl<T: Token, P: Parser<T>> Parser<T> for Choice<Vec<P>> {
    type Output = P::Output;

    open spec fn wf(&self) -> bool {
        forall|i: int| 0 <= i < self.parsers@.len() ==> (#[trigger] self.parsers@[i]).wf()
    }

    open spec fn succeeds(&self, input: Seq<T>, from: int) -> bool {
        exists|i: int|
            0 <= i < self.parsers@.len() && (#[trigger] self.parsers@[i]).succeeds(input, from)
    }

    open spec fn end_pos(&self, input: Seq<T>, from: int) -> int {
        let k = first_match(self.parsers@, input, from);
        if k < self.parsers@.len() {
            self.parsers@[k].end_pos(input, from)
        } else {
            from
        }
    }

    open spec fn output_matches(&self, input: Seq<T>, from: int, out: P::Output) -> bool {
        let k = first_match(self.parsers@, input, from);
        k < self.parsers@.len() && self.parsers@[k].output_matches(input, from, out)
    }

    #[verifier::loop_isolation(false)]
    fn go(&self, inp: &mut Cursor<T>, mode: Mode) -> (r: PResult<P::Output>) {
        let ghost input = old(inp).input();
        let ghost from = old(inp).pos();
        let before = inp.save();
        let n = self.parsers.len();
        let mut i: usize = 0;
        while i < n
            invariant
                inp.wf(),
                inp.input() == input,
                inp.pos() == from,
                n == self.parsers@.len(),
                i <= n,
                forall|j: int| 0 <= j < i ==> !(#[trigger] self.parsers@[j]).succeeds(input, from),
            decreases n - i,
        {
            match self.parsers[i].go(inp, mode) {
                Ok(out) => {
                    proof {
                        lemma_first_match_is(self.parsers@, input, from, i as int);
                    }
                    return Ok(out);
                },
                Err(_) => {
                    inp.rewind(before);
                    i = i + 1;
                },
            }
        }
        proof {
            lemma_first_match_is(self.parsers@, input, from, n as int);
        }
        Err(ParseError::create())
    }
}

} // verus!
