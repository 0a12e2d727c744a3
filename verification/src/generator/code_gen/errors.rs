//! Why a document could not be turned into code.

use vstd::prelude::*;

verus! {

/// Why a document could not be turned into code.
#[derive(Debug, PartialEq, Eq, Clone, Copy)]
pub enum CodeGenError {
    /// An exception that a function throws has no field id.
    MissingExceptionId,
    /// The source text that was put together is no sequence of tokens.
    Tokens,
}

/// What generating one part gives: its text or the reason for the
/// failure.
pub type CodeGenResult<T> = Result<T, CodeGenError>;

} // verus!
