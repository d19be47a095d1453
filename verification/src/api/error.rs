//! What a failed request is answered with.

use vstd::prelude::*;

use crate::error::Error;
use crate::proxy::target::error_body;

verus! {

/// A failed request: an HTTP status, and a message for humans.
#[derive(Debug)]
pub struct ApiError {
    pub status: u16,
    pub message: String,
}

/// The status that a failure is answered with.
pub open spec fn status_of(e: Error) -> u16 {
    match e {
        Error::VmNotFound(_) | Error::WorkloadNotFound(_) | Error::PortNotExposed { .. } => 404,
        Error::PortAlreadyExposed { .. } | Error::InvalidStateTransition { .. } => 409,
        Error::InvalidPort(_) | Error::InvalidImage(_) => 400,
        _ => 500,
    }
}

impl ApiError {
    /// A failure.
    pub fn new(status: u16, message: &str) -> (e: ApiError)
        ensures
            e.status == status,
            e.message@ == message@,
    {
        ApiError { status, message: message.to_owned() }
    }

    /// A failure that is nobody's fault but the host's.
    pub fn internal(message: &str) -> (e: ApiError)
        ensures
            e.status == 500,
            e.message@ == message@,
    {
        ApiError::new(500, message)
    }

    /// What an error is answered with.
    pub fn of(err: Error) -> (e: ApiError)
        ensures
            e.status == status_of(err),
            e.message@ == crate::error::error_text(err),
    {
        let status: u16 = match &err {
            Error::VmNotFound(_) | Error::WorkloadNotFound(_) | Error::PortNotExposed { .. } => 404,
            Error::PortAlreadyExposed { .. } | Error::InvalidStateTransition { .. } => 409,
            Error::InvalidPort(_) | Error::InvalidImage(_) => 400,
            _ => 500,
        };
        ApiError { status, message: err.message() }
    }

    /// The body of the answer.
    pub fn body(&self) -> (body: String)
        ensures
            body@ == crate::proxy::target::error_body_of(self.status, self.message@),
    {
        error_body(self.status, &self.message)
    }
}

} // verus!
