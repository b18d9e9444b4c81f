//! The ways in which a search can fail without stopping the run.

use vstd::prelude::*;
use vstd::string::*;

verus! {

/// What went wrong with one file or one argument. None of these ends the
/// run: the file or argument is skipped and the next one is taken.
#[derive(Clone, Copy, Debug, PartialEq, Eq, Structural)]
pub enum GrepError {
    /// No search pattern was given.
    MissingPattern,
    /// A file could not be opened.
    FileOpenError,
    /// Reading a file failed part-way.
    FileReadError,
    /// A wildcard argument is not a well-formed expression.
    InvalidGlobExpression,
}

/// The text of the diagnostic for an error about `subject` (a file or an
/// argument) with the underlying `cause`.
pub open spec fn diagnostic_text(error: GrepError, subject: Seq<char>, cause: Seq<char>) -> Seq<
    char,
> {
    match error {
        GrepError::MissingPattern => "Error: No pattern provided."@,
        GrepError::FileOpenError | GrepError::FileReadError => "Error processing file "@ + subject
            + ": "@ + cause,
        GrepError::InvalidGlobExpression => "Invalid argument: "@ + subject,
    }
}

impl GrepError {
    /// The diagnostic to show for this error. `subject` names the file or the
    /// argument concerned and `cause` the underlying failure; a kind of error
    /// that has no subject or no cause leaves it out.
    pub fn diagnostic(&self, subject: &str, cause: &str) -> (message: String)
        ensures
            message@ == diagnostic_text(*self, subject@, cause@),
    {
        match self {
            GrepError::MissingPattern => "Error: No pattern provided.".to_owned(),
            GrepError::FileOpenError | GrepError::FileReadError => {
                let mut message = "Error processing file ".to_owned();
                message.append(subject);
                message.append(": ");
                message.append(cause);
                message
            },
            GrepError::InvalidGlobExpression => {
                let mut message = "Invalid argument: ".to_owned();
                message.append(subject);
                message
            },
        }
    }
}

} // verus!
