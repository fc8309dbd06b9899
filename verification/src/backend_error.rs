//! Errors of persistence backends.
use vstd::prelude::*;

verus! {

/// An error of a persistence backend.
#[derive(Debug)]
pub enum BackendError {
    /// No snapshot or claim under this id.
    NotFound(String),
    /// A snapshot could not be encoded or decoded.
    Serialization(String),
    /// The store itself failed.
    Backend(String),
    /// The workflow is in a state in which it cannot be cancelled.
    CannotCancel(String),
    /// The workflow is in a state in which it cannot be paused or unpaused.
    CannotPause(String),
}

/// The contents of a [`BackendError`].
pub enum BackendFault {
    NotFound(Seq<char>),
    Serialization(Seq<char>),
    Backend(Seq<char>),
    CannotCancel(Seq<char>),
    CannotPause(Seq<char>),
}

impl View for BackendError {
    type V = BackendFault;

    open spec fn view(&self) -> BackendFault {
        match *self {
            BackendError::NotFound(m) => BackendFault::NotFound(m@),
            BackendError::Serialization(m) => BackendFault::Serialization(m@),
            BackendError::Backend(m) => BackendFault::Backend(m@),
            BackendError::CannotCancel(m) => BackendFault::CannotCancel(m@),
            BackendError::CannotPause(m) => BackendFault::CannotPause(m@),
        }
    }
}

/// The message of an error that a client of the store reported.
pub struct DdbError(pub String);

/// The error of a message that a client of the store reported.
pub fn sdk_err(message: &str) -> (r: DdbError)
    ensures
        r.0@ == message@,
{
    DdbError(String::from_str(message))
}

impl vstd::std_specs::convert::FromSpecImpl<DdbError> for BackendError {
    open spec fn obeys_from_spec() -> bool {
        true
    }

    open spec fn from_spec(e: DdbError) -> BackendError {
        BackendError::Backend(e.0)
    }
}

impl From<DdbError> for BackendError {
    fn from(e: DdbError) -> (r: Self) {
        BackendError::Backend(e.0)
    }
}

/// An error that a database behind a JavaScript binding reported.
pub struct D1Error {
    /// The error itself, where it is a string.
    pub text: Option<String>,
    /// Its `message` property, where that is a string.
    pub message: Option<String>,
    /// What it looks like.
    pub debug: String,
}

impl vstd::std_specs::convert::FromSpecImpl<D1Error> for BackendError {
    open spec fn obeys_from_spec() -> bool {
        true
    }

    open spec fn from_spec(e: D1Error) -> BackendError {
        BackendError::Backend(
            match e.text {
                Some(t) => t,
                None => match e.message {
                    Some(m) => m,
                    None => e.debug,
                },
            },
        )
    }
}

impl From<D1Error> for BackendError {
    fn from(e: D1Error) -> (r: Self) {
        BackendError::Backend(
            match e.text {
                Some(t) => t,
                None => match e.message {
                    Some(m) => m,
                    None => e.debug,
                },
            },
        )
    }
}

/// How a conditional write went.
#[derive(Debug)]
pub enum WriteOutcome {
    /// It was done.
    Done,
    /// Its condition did not hold.
    ConditionFailed,
    /// The store failed, with a message.
    Failed(String),
}

} // verus!
