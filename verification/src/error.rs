use vstd::prelude::*;

use crate::text::{push_str, string_of};

verus! {

/// Errors that the control-plane services report to their callers.
#[derive(Clone, Debug)]
pub enum ServiceError {
    Unauthorized,
    Forbidden,
    InvalidCredentials,
    BadRequest(String),
    NotFound(String),
    Conflict(String),
    DependencyUnavailable(String),
    Internal(String),
}

pub type ServiceResult<T> = Result<T, ServiceError>;

pub open spec fn is_bad_request(e: ServiceError, msg: Seq<char>) -> bool {
    e matches ServiceError::BadRequest(m) && m@ == msg
}

pub open spec fn is_conflict(e: ServiceError, msg: Seq<char>) -> bool {
    e matches ServiceError::Conflict(m) && m@ == msg
}

pub open spec fn is_internal(e: ServiceError, msg: Seq<char>) -> bool {
    e matches ServiceError::Internal(m) && m@ == msg
}

/// `r` failed with a bad-request error carrying `msg`.
pub open spec fn bad_result<T>(r: ServiceResult<T>, msg: Seq<char>) -> bool {
    r matches Err(e) && is_bad_request(e, msg)
}

/// `r` failed with a conflict error carrying `msg`.
pub open spec fn conflict_result<T>(r: ServiceResult<T>, msg: Seq<char>) -> bool {
    r matches Err(e) && is_conflict(e, msg)
}

/// The text that the service's error type displays.
pub open spec fn spec_error_message(e: ServiceError) -> Seq<char> {
    match e {
        ServiceError::Unauthorized => "authentication required"@,
        ServiceError::Forbidden => "forbidden"@,
        ServiceError::InvalidCredentials => "invalid credentials"@,
        ServiceError::BadRequest(m) => "bad request: "@ + m@,
        ServiceError::NotFound(m) => "not found: "@ + m@,
        ServiceError::Conflict(m) => "conflict: "@ + m@,
        ServiceError::DependencyUnavailable(m) => "dependency unavailable: "@ + m@,
        ServiceError::Internal(m) => "internal error: "@ + m@,
    }
}

impl ServiceError {
    /// The display text of the error.
    pub fn message(&self) -> (r: String)
        ensures
            r@ == spec_error_message(*self),
    {
        let (head, tail): (&str, Option<&String>) = match self {
            ServiceError::Unauthorized => ("authentication required", None),
            ServiceError::Forbidden => ("forbidden", None),
            ServiceError::InvalidCredentials => ("invalid credentials", None),
            ServiceError::BadRequest(m) => ("bad request: ", Some(m)),
            ServiceError::NotFound(m) => ("not found: ", Some(m)),
            ServiceError::Conflict(m) => ("conflict: ", Some(m)),
            ServiceError::DependencyUnavailable(m) => ("dependency unavailable: ", Some(m)),
            ServiceError::Internal(m) => ("internal error: ", Some(m)),
        };
        let mut r = string_of(head);
        match tail {
            Some(m) => push_str(&mut r, m.as_str()),
            None => {},
        }
        r
    }
}

/// A bad-request error carrying a fixed message.
pub fn bad_request(msg: &str) -> (e: ServiceError)
    ensures
        is_bad_request(e, msg@),
{
    ServiceError::BadRequest(string_of(msg))
}

} // verus!
