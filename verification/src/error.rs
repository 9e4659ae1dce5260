//! The one error type of the library: a stable code and a message for people.

use vstd::prelude::*;

verus! {

/// A refused operation: a machine-readable code and a message for people.
#[derive(Clone, Debug, PartialEq, Eq)]
pub struct MkoError {
    code: String,
    message: String,
}

/// What an error says.
#[verifier::ext_equal]
pub struct ErrorView {
    pub code: Seq<char>,
    pub message: Seq<char>,
}

impl DeepView for MkoError {
    type V = ErrorView;

    closed spec fn deep_view(&self) -> ErrorView {
        ErrorView { code: self.code@, message: self.message@ }
    }
}

/// The error with the given code and message.
pub open spec fn error(code: Seq<char>, message: Seq<char>) -> ErrorView {
    ErrorView { code, message }
}

/// What a fallible operation returned.
pub open spec fn outcome<T: DeepView>(result: Result<T, MkoError>) -> Result<T::V, ErrorView> {
    match result {
        Ok(value) => Ok(value.deep_view()),
        Err(failure) => Err(failure.deep_view()),
    }
}

/// Whether a check passed, and the error it gave otherwise.
pub open spec fn verdict(result: Result<(), MkoError>) -> Result<(), ErrorView> {
    match result {
        Ok(_) => Ok(()),
        Err(failure) => Err(failure.deep_view()),
    }
}

impl MkoError {
    pub fn new(code: &str, message: &str) -> (failure: Self)
        ensures
            failure.deep_view() == error(code@, message@),
    {
        MkoError { code: code.to_owned(), message: message.to_owned() }
    }

    pub fn code(&self) -> (code: &str)
        ensures
            code@ == self.deep_view().code,
    {
        self.code.as_str()
    }

    pub fn message(&self) -> (message: &str)
        ensures
            message@ == self.deep_view().message,
    {
        self.message.as_str()
    }

    /// An error that says the same.
    pub fn duplicate(&self) -> (copy: Self)
        ensures
            copy.deep_view() == self.deep_view(),
    {
        MkoError { code: self.code.clone(), message: self.message.clone() }
    }
}

} // verus!
