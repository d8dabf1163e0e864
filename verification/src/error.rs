//! Errors of the management server itself.

use vstd::prelude::*;

verus! {

/// Server start up errors
#[derive(Debug, Clone, Copy, PartialEq, Eq, Structural)]
pub enum AppError {
    InitializationError,
    StartUpError,
}

impl AppError {
    /// What went wrong, in words.
    pub fn message(&self) -> (r: &'static str)
        ensures
            r@ == (match *self {
                AppError::InitializationError => "Server initialization failed"@,
                AppError::StartUpError => "Server start up failed"@,
            }),
    {
        match self {
            AppError::InitializationError => "Server initialization failed",
            AppError::StartUpError => "Server start up failed",
        }
    }

    /// The answer to a request that met this error: an internal server
    /// error, whatever went wrong, without saying what.
    pub fn response(&self) -> (r: (u16, &'static str))
        ensures
            r.0 == 500,
            r.1@ == "Something went wrong"@,
    {
        (500, "Something went wrong")
    }
}

} // verus!
