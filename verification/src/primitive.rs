//! The primitive combinators: single-attempt matchers built directly on the
//! cursor.  None of them rewinds on behalf of its caller except where its
//! contract says the cursor is left at the entry position; composition layers
//! snapshot and rewind around them.

use vstd::prelude::*;

use crate::error::ParseError;
use crate::mode::Mode;
use crate::parser::{PResult, Parser};
use crate::stream::Cursor;
use crate::pattern::Pattern;
use crate::token::Token;

verus! {

/// Matches end-of-input; consumes nothing, succeeding or failing.
#[derive(Clone, Copy)]
pub struct End;

/// The end-of-input matcher: succeeds exactly when no token is left, and
/// never moves the cursor.
pub fn end() -> End {
    End
}

impl<T: Token> Parser<T> for End {
    type Output = ();

    open spec fn wf(&self) -> bool {
        true
    }

    open spec fn succeeds(&self, input: Seq<T>, from: int) -> bool {
        from == input.len()
    }

    open spec fn end_pos(&self, input: Seq<T>, from: int) -> int {
        from
    }

    open spec fn output_matches(&self, input: Seq<T>, from: int, out: ()) -> bool {
        true
    }

    fn go(&self, inp: &mut Cursor<T>, mode: Mode) -> PResult<()> {
        let before = inp.save();
        match inp.next() {
            (_, None) => Ok(mode.bind(|| ())),
            (_, Some(_)) => {
                inp.rewind(before);
                Err(ParseError::create())
            },
        }
    }
}

/// The no-op matcher; always succeeds, consumes nothing.
#[derive(Clone, Copy)]
pub struct Empty;

/// The matcher that succeeds on any input without moving the cursor.
pub fn empty() -> Empty {
    Empty
}

impl<T: Token> Parser<T> for Empty {
    type Output = ();

    open spec fn wf(&self) -> bool {
        true
    }

    open spec fn succeeds(&self, input: Seq<T>, from: int) -> bool {
        true
    }

    open spec fn end_pos(&self, input: Seq<T>, from: int) -> int {
        from
    }

    open spec fn output_matches(&self, input: Seq<T>, from: int, out: ()) -> bool {
        true
    }

    fn go(&self, inp: &mut Cursor<T>, mode: Mode) -> PResult<()> {
        Ok(mode.bind(|| ()))
    }
}

/// Whether every element of `pat` equals the corresponding token of `input`,
/// in order, starting at position `from`.
pub open spec fn matches_at<T>(pat: Seq<T>, input: Seq<T>, from: int) -> bool {
    &&& from + pat.len() <= input.len()
    &&& forall|j: int| 0 <= j < pat.len() ==> input[from + j] == pat[j]
}

/// How many leading elements of `pat` agree with `input` from position `from`
/// before the first mismatch or end-of-input.
pub open spec fn matched_prefix_len<T>(pat: Seq<T>, input: Seq<T>, from: int) -> int
    decreases pat.len(),
{
    if pat.len() == 0 {
        0
    } else if from < input.len() && input[from] == pat[0] {
        1 + matched_prefix_len(pat.skip(1), input, from + 1)
    } else {
        0
    }
}

/// The defining properties of [`matched_prefix_len`]: it counts a real
/// agreeing prefix, and stops only at the pattern's end, a mismatch, or
/// end-of-input.
pub proof fn lemma_matched_prefix_len<T>(pat: Seq<T>, input: Seq<T>, from: int)
    requires
        0 <= from <= input.len(),
    ensures
        ({
            let k = matched_prefix_len(pat, input, from);
            &&& 0 <= k <= pat.len()
            &&& from + k <= input.len()
            &&& forall|j: int| 0 <= j < k ==> input[from + j] == pat[j]
            &&& k < pat.len() ==> (from + k == input.len() || input[from + k] != pat[k])
        }),
    decreases pat.len(),
{
    if pat.len() != 0 && from < input.len() && input[from] == pat[0] {
        lemma_matched_prefix_len(pat.skip(1), input, from + 1);
        let k1 = matched_prefix_len(pat.skip(1), input, from + 1);
        let k = matched_prefix_len(pat, input, from);
        assert(k == 1 + k1);
        assert(pat.skip(1).len() == pat.len() - 1);
        assert forall|j: int| 0 <= j < k implies input[from + j] == pat[j] by {
            if j > 0 {
                assert(input[(from + 1) + (j - 1)] == pat.skip(1)[j - 1]);
                assert(pat.skip(1)[j - 1] == pat[j]);
            }
        }
        if k < pat.len() {
            assert(k1 < pat.skip(1).len());
            assert(pat.skip(1)[k1] == pat[k]);
        }
    }
}

/// A count that matches an agreeing prefix and stops for one of the three
/// reasons is exactly [`matched_prefix_len`].
pub proof fn lemma_matched_prefix_len_is<T>(pat: Seq<T>, input: Seq<T>, from: int, k: int)
    requires
        0 <= from <= input.len(),
        0 <= k <= pat.len(),
        from + k <= input.len(),
        forall|j: int| 0 <= j < k ==> input[from + j] == pat[j],
        k < pat.len() ==> (from + k == input.len() || input[from + k] != pat[k]),
    ensures
        matched_prefix_len(pat, input, from) == k,
{
    let m = matched_prefix_len(pat, input, from);
    lemma_matched_prefix_len(pat, input, from);
    if m < k {
        assert(input[from + m] == pat[m]);
        assert(from + m < input.len());
        assert(false);
    }
    if k < m {
        assert(input[from + k] == pat[k]);
        assert(from + k < input.len());
        assert(false);
    }
}

/// Matches a literal sequence of tokens; on success the cursor has advanced
/// past the whole pattern and the output is a copy of the pattern value.
///
/// `Just` is not atomic: on a mismatch partway through, the cursor is left
/// where matching stopped, past the entry position.  Callers that need the
/// entry position back snapshot and rewind around the call, as
/// [`crate::choice::Choice`] does.
#[derive(Clone, Copy)]
pub struct Just<P> {
    /// The pattern to match, element for element.
    pub seq: P,
}

/// The literal-sequence matcher for `seq`.
pub fn just<T: Token, P: Pattern<T>>(seq: P) -> (p: Just<P>)
    ensures
        p.seq == seq,
{
    Just { seq }
}

impl<T: Token, P: Pattern<T>> Parser<T> for Just<P> {
    type Output = P;

    open spec fn wf(&self) -> bool {
        true
    }

    open spec fn succeeds(&self, input: Seq<T>, from: int) -> bool {
        matches_at(self.seq.pat(), input, from)
    }

    open spec fn end_pos(&self, input: Seq<T>, from: int) -> int {
        let k = matched_prefix_len(self.seq.pat(), input, from);
        if k < self.seq.pat().len() && from + k < input.len() {
            from + k + 1
        } else {
            from + k
        }
    }

    open spec fn output_matches(&self, input: Seq<T>, from: int, out: P) -> bool {
        out.pat() == self.seq.pat()
    }

    #[verifier::loop_isolation(false)]
    fn go(&self, inp: &mut Cursor<T>, mode: Mode) -> (r: PResult<P>) {
        let ghost input = old(inp).input();
        let ghost from = old(inp).pos();
        let ghost pat = self.seq.pat();
        let n = self.seq.length();
        let mut j: usize = 0;
        while j < n
            invariant
                inp.wf(),
                inp.input() == input,
                pat == self.seq.pat(),
                n == pat.len(),
                0 <= from <= input.len(),
                j <= n,
                inp.pos() == from + j,
                from + j <= input.len(),
                forall|m: int| 0 <= m < j ==> input[from + m] == pat[m],
            decreases n - j,
        {
            let expected = self.seq.token_at(j);
            match inp.next() {
                (_, Some(tok)) => {
                    if expected.eq_token(tok) {
                        j = j + 1;
                    } else {
                        proof {
                            lemma_matched_prefix_len_is(pat, input, from, j as int);
                            if matches_at(pat, input, from) {
                                lemma_matched_prefix_len_is(pat, input, from, pat.len() as int);
                            }
                        }
                        return Err(ParseError::create());
                    }
                },
                (_, None) => {
                    proof {
                        lemma_matched_prefix_len_is(pat, input, from, j as int);
                    }
                    return Err(ParseError::create());
                },
            }
        }
        proof {
            lemma_matched_prefix_len_is(pat, input, from, n as int);
        }
        let dup_pattern = (|| -> (out: P) ensures out.pat() == self.seq.pat() { self.seq.dup() });
        Ok(mode.bind(dup_pattern))
    }
}

/// Matches one token that equals some element of a set of alternatives.
#[derive(Clone, Copy)]
pub struct OneOf<P> {
    /// The accepted tokens.
    pub seq: P,
}

/// The single-token membership matcher: succeeds on the next token exactly
/// when it equals an element of `seq`, consuming it; on failure the cursor
/// stays at the entry position.
pub fn one_of<T: Token, P: Pattern<T>>(seq: P) -> (p: OneOf<P>)
    ensures
        p.seq == seq,
{
    OneOf { seq }
}

impl<T: Token, P: Pattern<T>> Parser<T> for OneOf<P> {
    type Output = T;

    open spec fn wf(&self) -> bool {
        true
    }

    open spec fn succeeds(&self, input: Seq<T>, from: int) -> bool {
        from < input.len() && self.seq.pat().contains(input[from])
    }

    open spec fn end_pos(&self, input: Seq<T>, from: int) -> int {
        if self.succeeds(input, from) {
            from + 1
        } else {
            from
        }
    }

    open spec fn output_matches(&self, input: Seq<T>, from: int, out: T) -> bool {
        out == input[from]
    }

    #[verifier::loop_isolation(false)]
    fn go(&self, inp: &mut Cursor<T>, mode: Mode) -> (r: PResult<T>) {
        let before = inp.save();
        match inp.next() {
            (_, Some(tok)) => {
                let n = self.seq.length();
                let mut j: usize = 0;
                while j < n
                    invariant
                        n == self.seq.pat().len(),
                        j <= n,
                        forall|m: int| 0 <= m < j ==> self.seq.pat()[m] != tok,
                    decreases n - j,
                {
                    if self.seq.token_at(j).eq_token(tok) {
                        proof {
                            assert(self.seq.pat()[j as int] == tok);
                        }
                        let emit_token = (|| -> (t: T) ensures t == tok { tok });
                        return Ok(mode.bind(emit_token));
                    }
                    j = j + 1;
                }
                proof {
                    assert(forall|m: int| 0 <= m < self.seq.pat().len()
                        ==> self.seq.pat()[m] != tok);
                }
                inp.rewind(before);
                Err(ParseError::create())
            },
            (_, None) => Err(ParseError::create()),
        }
    }
}

/// Matches one token that equals no element of a set of alternatives.
#[derive(Clone, Copy)]
pub struct NoneOf<P> {
    /// The rejected tokens.
    pub seq: P,
}

/// The negated membership matcher: succeeds on the next token exactly when
/// input is left and the token equals no element of `seq`, consuming it.  On
/// failure the inspected token stays consumed; callers rewind.
pub fn none_of<T: Token, P: Pattern<T>>(seq: P) -> (p: NoneOf<P>)
    ensures
        p.seq == seq,
{
    NoneOf { seq }
}

impl<T: Token, P: Pattern<T>> Parser<T> for NoneOf<P> {
    type Output = T;

    open spec fn wf(&self) -> bool {
        true
    }

    open spec fn succeeds(&self, input: Seq<T>, from: int) -> bool {
        from < input.len() && !self.seq.pat().contains(input[from])
    }

    open spec fn end_pos(&self, input: Seq<T>, from: int) -> int {
        if from < input.len() {
            from + 1
        } else {
            from
        }
    }

    open spec fn output_matches(&self, input: Seq<T>, from: int, out: T) -> bool {
        out == input[from]
    }

    #[verifier::loop_isolation(false)]
    fn go(&self, inp: &mut Cursor<T>, mode: Mode) -> (r: PResult<T>) {
        match inp.next() {
            (_, Some(tok)) => {
                let n = self.seq.length();
                let mut j: usize = 0;
                while j < n
                    invariant
                        n == self.seq.pat().len(),
                        j <= n,
                        forall|m: int| 0 <= m < j ==> self.seq.pat()[m] != tok,
                    decreases n - j,
                {
                    if self.seq.token_at(j).eq_token(tok) {
                        proof {
                            assert(self.seq.pat()[j as int] == tok);
                        }
                        return Err(ParseError::create());
                    }
                    j = j + 1;
                }
                proof {
                    assert(forall|m: int| 0 <= m < self.seq.pat().len()
                        ==> self.seq.pat()[m] != tok);
                }
                let emit_token = (|| -> (t: T) ensures t == tok { tok });
                Ok(mode.bind(emit_token))
            },
            (_, None) => Err(ParseError::create()),
        }
    }
}

/// Whether every outcome the verifier admits for `f` agrees with the
/// predicate `q`: `f` never returns anything but `q` of its argument.
pub open spec fn decides<T, F: Fn(T) -> bool>(f: F, q: spec_fn(T) -> bool) -> bool {
    forall|t: T, b: bool| #[trigger] call_ensures(f, (t,), b) ==> b == q(t)
}

/// Whether `f` may be called on every token.
pub open spec fn callable_on_all<T, F: Fn(T) -> bool>(f: F) -> bool {
    forall|t: T| #[trigger] call_requires(f, (t,))
}

/// Matches one token for which a predicate holds.
#[derive(Clone, Copy)]
#[verifier::reject_recursive_types(T)]
pub struct Filter<T, F> {
    /// The accepting predicate, run on the next token.
    pub filter: F,
    /// The mathematical predicate that `filter` decides.
    pub pred: Ghost<spec_fn(T) -> bool>,
}

/// The predicate matcher for `f`, which must be total over tokens and decide
/// the ghost predicate `q`.
pub fn with_pred<T: Token, F: Fn(T) -> bool>(f: F, q: Ghost<spec_fn(T) -> bool>) -> (p: Filter<
    T,
    F,
>)
    requires
        callable_on_all(f),
        decides(f, q@),
    ensures
        p.filter == f,
        p.pred == q,
        p.wf(),
{
    Filter { filter: f, pred: q }
}

/// The predicate matcher for `f`: succeeds on the next token exactly when
/// `f` accepts it, consuming it.  `f` must be total over tokens and agree
/// with some predicate on every outcome; [`with_pred`] names that predicate.
pub fn filter<T: Token, F: Fn(T) -> bool>(f: F) -> (p: Filter<T, F>)
    requires
        callable_on_all(f),
        exists|q: spec_fn(T) -> bool| decides(f, q),
    ensures
        p.filter == f,
        decides(f, p.pred@),
        p.wf(),
{
    let ghost q = choose|q: spec_fn(T) -> bool| decides(f, q);
    Filter { filter: f, pred: Ghost(q) }
}

impl<T: Token, F: Fn(T) -> bool> Parser<T> for Filter<T, F> {
    type Output = T;

    open spec fn wf(&self) -> bool {
        callable_on_all(self.filter) && decides(self.filter, self.pred@)
    }

    open spec fn succeeds(&self, input: Seq<T>, from: int) -> bool {
        from < input.len() && (self.pred@)(input[from])
    }

    open spec fn end_pos(&self, input: Seq<T>, from: int) -> int {
        if from < input.len() {
            from + 1
        } else {
            from
        }
    }

    open spec fn output_matches(&self, input: Seq<T>, from: int, out: T) -> bool {
        out == input[from]
    }

    fn go(&self, inp: &mut Cursor<T>, mode: Mode) -> (r: PResult<T>) {
        match inp.next() {
            (_, Some(tok)) => {
                if (self.filter)(tok) {
                    let emit_token = (|| -> (t: T) ensures t == tok { tok });
                    Ok(mode.bind(emit_token))
                } else {
                    Err(ParseError::create())
                }
            },
            (_, None) => Err(ParseError::create()),
        }
    }
}

/// Matches any one token: the always-true specialization of [`Filter`].
#[derive(Clone, Copy)]
pub struct Any;

/// The matcher that consumes and returns the next token, failing only at
/// end-of-input.
pub fn any() -> Any {
    Any
}

impl<T: Token> Parser<T> for Any {
    type Output = T;

    open spec fn wf(&self) -> bool {
        true
    }

    open spec fn succeeds(&self, input: Seq<T>, from: int) -> bool {
        from < input.len()
    }

    open spec fn end_pos(&self, input: Seq<T>, from: int) -> int {
        if from < input.len() {
            from + 1
        } else {
            from
        }
    }

    open spec fn output_matches(&self, input: Seq<T>, from: int, out: T) -> bool {
        out == input[from]
    }

    fn go(&self, inp: &mut Cursor<T>, mode: Mode) -> (r: PResult<T>) {
        match inp.next() {
            (_, Some(tok)) => {
                let emit_token = (|| -> (t: T) ensures t == tok { tok });
                Ok(mode.bind(emit_token))
            },
            (_, None) => Err(ParseError::create()),
        }
    }
}

} // verus!
