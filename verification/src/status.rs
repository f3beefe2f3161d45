//! The status a failed operation is answered with: a gRPC code and a message.

use vstd::prelude::*;

verus! {

/// The gRPC status codes.
#[derive(Clone, Copy, Debug, PartialEq, Eq, Structural)]
pub enum Code {
    /// The code of an operation that did not fail.
    NoError,
    Cancelled,
    Unknown,
    InvalidArgument,
    DeadlineExceeded,
    NotFound,
    AlreadyExists,
    PermissionDenied,
    ResourceExhausted,
    FailedPrecondition,
    Aborted,
    OutOfRange,
    Unimplemented,
    Internal,
    Unavailable,
    DataLoss,
    Unauthenticated,
}

/// Why an operation failed.
#[derive(Debug)]
pub struct Status {
    pub code: Code,
    pub message: String,
}

/// A status as contracts see it: its code and the text of its message.
pub type StatusView = (Code, Seq<char>);

impl View for Status {
    type V = StatusView;

    open spec fn view(&self) -> StatusView {
        (self.code, self.message@)
    }
}

impl Clone for Status {
    fn clone(&self) -> (r: Self)
        ensures
            r@ == self@,
    {
        Status { code: self.code, message: self.message.clone() }
    }
}

impl Status {
    /// A status with the given code and message.
    pub fn new(code: Code, message: String) -> (r: Status)
        ensures
            r@ == (code, message@),
    {
        Status { code, message }
    }

    /// The client sent something that no state of the server accepts.
    pub fn invalid_argument(message: String) -> (r: Status)
        ensures
            r@ == (Code::InvalidArgument, message@),
    {
        Status::new(Code::InvalidArgument, message)
    }

    /// A model or the server itself misbehaved.
    pub fn internal(message: String) -> (r: Status)
        ensures
            r@ == (Code::Internal, message@),
    {
        Status::new(Code::Internal, message)
    }

    /// What was asked for does not exist.
    pub fn not_found(message: String) -> (r: Status)
        ensures
            r@ == (Code::NotFound, message@),
    {
        Status::new(Code::NotFound, message)
    }

    /// A model folder or its configuration is not usable.
    pub fn failed_precondition(message: String) -> (r: Status)
        ensures
            r@ == (Code::FailedPrecondition, message@),
    {
        Status::new(Code::FailedPrecondition, message)
    }

    /// The model takes no further request now.
    pub fn resource_exhausted(message: String) -> (r: Status)
        ensures
            r@ == (Code::ResourceExhausted, message@),
    {
        Status::new(Code::ResourceExhausted, message)
    }

    /// The client went away.
    pub fn cancelled(message: String) -> (r: Status)
        ensures
            r@ == (Code::Cancelled, message@),
    {
        Status::new(Code::Cancelled, message)
    }

    /// The code.
    pub fn code(&self) -> (r: Code)
        ensures
            r == self@.0,
    {
        self.code
    }

    /// The message.
    pub fn message(&self) -> (r: &str)
        ensures
            r@ == self@.1,
    {
        self.message.as_str()
    }
}

/// Whether a checked result is the one expected: both fail with the same status,
/// or both succeed.
pub open spec fn same_outcome(actual: Result<(), Status>, expected: Result<(), StatusView>) -> bool {
    match (actual, expected) {
        (Ok(_), Ok(_)) => true,
        (Err(a), Err(e)) => a@ == e,
        _ => false,
    }
}

} // verus!
