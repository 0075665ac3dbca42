//! Errors that the actions report.

use vstd::prelude::*;

verus! {

/// What kind of failure an [`Error`] stands for.
#[derive(Debug, Clone, Copy, PartialEq, Eq, Structural)]
pub enum ErrorKind {
    /// The table or the request does not fit what was asked for.
    DataInvalid,
    /// Anything else, such as a failure of the storage.
    Unexpected,
}

/// A failure.
#[derive(Debug, Clone, PartialEq, Eq)]
pub struct Error {
    /// What kind of failure this is.
    pub kind: ErrorKind,
    /// What went wrong, in words.
    pub message: String,
    /// What is known of the failure, by name.
    pub context: Vec<(&'static str, String)>,
    /// The same request may succeed when it is made again.
    pub retryable: bool,
}

/// The mathematical value of an [`Error`].
#[verifier::ext_equal]
pub struct ErrorView {
    /// What kind of failure this is.
    pub kind: ErrorKind,
    /// What went wrong, in words.
    pub message: Seq<char>,
    /// What is known of the failure, by name.
    pub context: Seq<(Seq<char>, Seq<char>)>,
    /// The same request may succeed when it is made again.
    pub retryable: bool,
}

impl View for Error {
    type V = ErrorView;

    open spec fn view(&self) -> ErrorView {
        ErrorView {
            kind: self.kind,
            message: self.message@,
            context: self.context@.map_values(|named: (&'static str, String)| (named.0@, named.1@)),
            retryable: self.retryable,
        }
    }
}

impl Error {
    /// Returns what kind of failure this is.
    pub fn kind(&self) -> (kind: ErrorKind)
        ensures
            kind == self.kind,
    {
        self.kind
    }

    /// Returns what went wrong, in words.
    pub fn message(&self) -> (message: &str)
        ensures
            message@ == self.message@,
    {
        self.message.as_str()
    }

    /// Returns what is known of the failure, by name.
    pub fn context(&self) -> (context: &Vec<(&'static str, String)>)
        ensures
            context@ == self.context@,
    {
        &self.context
    }

    /// Tells whether the same request may succeed when it is made again.
    pub fn retryable(&self) -> (retryable: bool)
        ensures
            retryable == self.retryable,
    {
        self.retryable
    }
}

} // verus!
