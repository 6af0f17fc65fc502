//! Errors.

use vstd::prelude::*;

verus! {

/// What can go wrong.
#[derive(Debug)]
pub enum ClaudeError {
    /// The operation was cancelled.
    Cancelled,
    /// Anything else, in words.
    Other(String),
}

/// The model of an error.
pub enum ErrorModel {
    Cancelled,
    Other(Seq<char>),
}

impl View for ClaudeError {
    type V = ErrorModel;

    open spec fn view(&self) -> ErrorModel {
        match self {
            ClaudeError::Cancelled => ErrorModel::Cancelled,
            ClaudeError::Other(text) => ErrorModel::Other(text@),
        }
    }
}

} // verus!
