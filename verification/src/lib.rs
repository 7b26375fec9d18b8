//! Primitive substrate of a backtracking parser-combinator engine.
//!
//! A [`stream::Cursor`] walks a random-access [`stream::Stream`] of tokens and
//! supports exact checkpoint/rewind backtracking.  Every combinator exposes one
//! entry operation, [`parser::Parser::go`], parametrized by a [`mode::Mode`]
//! that selects between validate-only and materializing execution with
//! identical control flow.

pub mod choice;
pub mod error;
pub mod mode;
pub mod parser;
pub mod pattern;
pub mod primitive;
pub mod stream;
pub mod token;
