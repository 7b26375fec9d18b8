//! The single capability every combinator exposes: `run(cursor, mode)`.

use vstd::prelude::*;

use crate::error::ParseError;
use crate::mode::Mode;
use crate::stream::Cursor;
use crate::token::Token;

verus! {

/// The result of one combinator run: on success, the output shaped by the
/// mode (`None` under [`Mode::Check`], `Some` under [`Mode::Emit`]); on
/// failure, the error signal.
pub type PResult<O> = Result<Option<O>, ParseError>;

/// A stateless, reusable parsing unit.
///
/// Each implementation fixes, as functions of the input tokens and the entry
/// position alone, whether it succeeds, where the cursor ends up, and (as a
/// relation) which output it may emit.  [`Parser::go`] is then pinned to those
/// three: success, failure and the final position never depend on the
/// [`Mode`], which is the mode-equivalence guarantee — the mode only decides
/// whether the output value is built.
pub trait Parser<T: Token> {
    /// The value a successful run materializes under [`Mode::Emit`].
    type Output;

    /// Configuration well-formedness; holds of every combinator built through
    /// this crate's constructors and is preserved by composition.
    spec fn wf(&self) -> bool;

    /// Whether a run entered at position `from` of `input` succeeds.
    spec fn succeeds(&self, input: Seq<T>, from: int) -> bool;

    /// The exact cursor position after a run entered at `from`, on success
    /// and on failure alike.  Combinators are single-attempt and do not
    /// rewind themselves; a failed literal match may end mid-pattern.
    spec fn end_pos(&self, input: Seq<T>, from: int) -> int;

    /// Which output values a successful run entered at `from` may emit.
    spec fn output_matches(&self, input: Seq<T>, from: int, out: Self::Output) -> bool;

    /// Runs the combinator once against the cursor in the given mode.
    fn go(&self, inp: &mut Cursor<T>, mode: Mode) -> (r: PResult<Self::Output>)
        requires
            self.wf(),
            old(inp).wf(),
        ensures
            final(inp).input() == old(inp).input(),
            final(inp).wf(),
            (r is Ok) == self.succeeds(old(inp).input(), old(inp).pos()),
            final(inp).pos() == self.end_pos(old(inp).input(), old(inp).pos()),
            r matches Ok(out) ==> (out is Some <==> mode is Emit),
            r matches Ok(Some(o)) ==> self.output_matches(old(inp).input(), old(inp).pos(), o),
    ;
}

/// Whether a run of `p` entered at position `from` of `input` can observably
/// end with outcome `ok` and cursor position `end`.  By the contract of
/// [`Parser::go`], every run satisfies this, whatever the [`Mode`].
pub open spec fn describes_run<T: Token, P: Parser<T>>(
    p: &P,
    input: Seq<T>,
    from: int,
    ok: bool,
    end: int,
) -> bool {
    &&& ok == p.succeeds(input, from)
    &&& end == p.end_pos(input, from)
}

/// Mode equivalence: any two runs of one combinator on one input and entry
/// position — in particular, one under [`Mode::Check`] and one under
/// [`Mode::Emit`] — agree on success versus failure and on the final cursor
/// position.  This holds because the contract of [`Parser::go`] pins both to
/// spec functions of the combinator, the input and the entry position alone;
/// the mode appears only in the clause that shapes the output value.
pub proof fn lemma_mode_equivalence<T: Token, P: Parser<T>>(
    p: &P,
    input: Seq<T>,
    from: int,
    ok1: bool,
    end1: int,
    ok2: bool,
    end2: int,
)
    requires
        describes_run(p, input, from, ok1, end1),
        describes_run(p, input, from, ok2, end2),
    ensures
        ok1 == ok2,
        end1 == end2,
{
}

} // verus!
