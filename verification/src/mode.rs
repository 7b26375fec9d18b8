//! The execution mode: validate-only (`Check`) or materializing (`Emit`).

use vstd::prelude::*;

verus! {

/// Selects between the two execution paths of every combinator.
///
/// Under [`Mode::Check`] no output value is ever constructed; under
/// [`Mode::Emit`] the output is built and returned.  A combinator must run the
/// same control flow under both, so success, failure and the final cursor
/// position never depend on the mode.
#[derive(Clone, Copy, PartialEq, Eq, Structural, Debug)]
pub enum Mode {
    /// Probe feasibility only; outputs are discarded unbuilt.
    Check,
    /// Construct the output value.
    Emit,
}

impl Mode {
    /// Wraps an output computation: under `Check` the closure is never run and
    /// `None` comes back; under `Emit` it runs exactly once and its result is
    /// returned in `Some`.
    pub fn bind<O, F: FnOnce() -> O>(self, f: F) -> (r: Option<O>)
        requires
            self is Emit ==> call_requires(f, ()),
        ensures
            r is None <==> self is Check,
            r matches Some(o) ==> self is Emit && call_ensures(f, (), o),
    {
        match self {
            Mode::Check => None,
            Mode::Emit => Some(f()),
        }
    }
}

} // verus!
