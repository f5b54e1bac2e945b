//! Errors reported by the reducer.

use vstd::prelude::*;
use vstd::string::StringExecFns;

verus! {

/// Mathematical model of an [`Error`] value.
pub enum ErrorV {
    /// The given input did not cause a failure.
    NoChange,
    /// Any other error, carrying its message.
    Msg(Seq<char>),
}

/// An error that occurs while reducing.
#[derive(Debug)]
pub enum Error {
    /// The given input did not cause a failure.
    NoChange,
    /// Other kinds of errors propagated from other Result errors.
    Error(String),
}

impl View for Error {
    type V = ErrorV;

    open spec fn view(&self) -> ErrorV {
        match self {
            Error::NoChange => ErrorV::NoChange,
            Error::Error(s) => ErrorV::Msg(s@),
        }
    }
}

impl Error {
    /// Wraps a message into the general error variant.
    pub fn new(msg: String) -> (r: Error)
        ensures
            r@ == ErrorV::Msg(msg@),
    {
        Error::Error(msg)
    }

    /// A human-readable description of the error.
    pub fn message(&self) -> (r: String)
        ensures
            self@ matches ErrorV::Msg(m) ==> r@ == m,
            self@ is NoChange ==> r@ == "input did not cause a failure"@,
    {
        match self {
            Error::NoChange => String::from_str("input did not cause a failure"),
            Error::Error(s) => s.clone(),
        }
    }
}

impl From<String> for Error {
    fn from(msg: String) -> (r: Error) {
        Error::Error(msg)
    }
}

impl vstd::std_specs::convert::FromSpecImpl<String> for Error {
    open spec fn obeys_from_spec() -> bool {
        true
    }

    open spec fn from_spec(msg: String) -> Error {
        Error::Error(msg)
    }
}

} // verus!
