//! The compiler front end's error type.

use vstd::prelude::*;

verus! {

/// An error that can name an underlying cause.
pub trait Error {
    /// A description of the error underlying this one, if any.
    fn source(&self) -> Option<String>;
}

/// A failure of the compiler front end as a whole.
#[derive(Clone, Copy, Debug, PartialEq, Eq, Structural)]
pub enum CompilerError {
    /// The diagnostics bag holds at least one error.
    DiagnosticError,
    /// The diagnostics bag holds only warnings.
    DiagnosticWarning,
    /// The source text could not be read.
    ReadSource,
}

impl Error for CompilerError {
    fn source(&self) -> Option<String> {
        None
    }
}

impl CompilerError {
    /// The message a host would print for this error.
    pub fn message(&self) -> (r: String)
        ensures
            *self is DiagnosticError ==> r@ == "compiler error: diagnostic errors found"@,
            *self is DiagnosticWarning ==> r@ == "compiler error: diagnostic warnings found"@,
            *self is ReadSource ==> r@ == "compiler error: failed to read source file"@,
    {
        match self {
            CompilerError::DiagnosticError => String::from_str(
                "compiler error: diagnostic errors found",
            ),
            CompilerError::DiagnosticWarning => String::from_str(
                "compiler error: diagnostic warnings found",
            ),
            CompilerError::ReadSource => String::from_str(
                "compiler error: failed to read source file",
            ),
        }
    }
}

} // verus!
