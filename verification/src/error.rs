//! The closed error taxonomy of the platform.
//!
//! Every failure that crosses a component boundary is one of these kinds.
//! Infrastructure failures carry the reporting layer's message as plain text.

use vstd::prelude::*;

verus! {

/// One failure kind of the platform, with its human-readable message.
#[derive(Debug)]
pub enum Error {
    /// Storage layer failure.
    Database(String),
    /// Schema migration failure.
    Migration(String),
    /// Cache layer failure.
    Redis(String),
    /// Configuration loading failure.
    Config(String),
    /// Value encoding or decoding failure.
    Serialization(String),
    /// Outbound HTTP transport failure.
    HttpClient(String),
    /// Authentication or authorization failure.
    Auth(String),
    /// Input failed a precondition check.
    Validation(String),
    /// Entity absent.
    NotFound(String),
    /// Unclassified internal failure.
    Internal(String),
    /// The script sandbox raised or could not be created.
    ScriptExecution(String),
    /// Token handling failure.
    Jwt(String),
    /// Password hashing failure.
    PasswordHash(String),
    /// Cron registration or scheduler lifecycle failure.
    Scheduler(String),
    /// Input/output failure.
    Io(String),
}

impl Error {
    pub fn validation(msg: String) -> (r: Error)
        ensures
            r == Error::Validation(msg),
    {
        Error::Validation(msg)
    }

    pub fn not_found(msg: String) -> (r: Error)
        ensures
            r == Error::NotFound(msg),
    {
        Error::NotFound(msg)
    }

    pub fn internal(msg: String) -> (r: Error)
        ensures
            r == Error::Internal(msg),
    {
        Error::Internal(msg)
    }

    pub fn auth(msg: String) -> (r: Error)
        ensures
            r == Error::Auth(msg),
    {
        Error::Auth(msg)
    }

    pub fn script_execution(msg: String) -> (r: Error)
        ensures
            r == Error::ScriptExecution(msg),
    {
        Error::ScriptExecution(msg)
    }

    pub fn password_hash(msg: String) -> (r: Error)
        ensures
            r == Error::PasswordHash(msg),
    {
        Error::PasswordHash(msg)
    }

    pub fn scheduler(msg: String) -> (r: Error)
        ensures
            r == Error::Scheduler(msg),
    {
        Error::Scheduler(msg)
    }

    /// The HTTP status under which the API boundary reports this error:
    /// validation failures are client errors, absences are not-found,
    /// authentication failures are unauthorized, and everything else is an
    /// internal server error.
    pub fn http_status(&self) -> (r: u16)
        ensures
            self is Validation ==> r == 400,
            self is NotFound ==> r == 404,
            self is Auth ==> r == 401,
            !(self is Validation) && !(self is NotFound) && !(self is Auth) ==> r == 500,
    {
        match self {
            Error::Validation(_) => 400,
            Error::NotFound(_) => 404,
            Error::Auth(_) => 401,
            _ => 500,
        }
    }
}

} // verus!
