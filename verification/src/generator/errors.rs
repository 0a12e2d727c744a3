//! Why generating code failed.

use vstd::prelude::*;

use crate::generator::code_gen::errors::CodeGenError;

verus! {

/// Why generating code failed.
#[derive(Debug, PartialEq, Eq)]
pub enum GenerateError {
    /// A file could not be read or written: the text of the I/O error and
    /// the path.
    Io { err: String, path: String },
    /// A path could not be related to another.
    Path(String),
    /// A document could not be read.
    Parse(String),
    /// A document could not be turned into code.
    CodeGen(CodeGenError),
    /// The includes form a cycle.
    Loop(),
    /// A variable of the environment is missing.
    Env(String),
    /// Anything else.
    Unknown(String),
}

/// What generating gives: a value or the reason for the failure.
pub type GenerateResult<R> = Result<R, GenerateError>;

} // verus!
