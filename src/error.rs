use vstd::prelude::*;

verus! {

/// The failures that the engine reports to its callers.
#[derive(Debug, Clone, PartialEq)]
pub enum AppError {
    /// Malformed caller input: an empty query, a non-positive id, an invalid setting.
    BadRequest(String),
    /// The caller is not signed in.
    Unauthorized,
    /// The caller is signed in but lacks the role.
    Forbidden,
    /// The origin confirms that no such pictogram exists.
    NotFound,
    /// The origin throttled the request; the caller may retry later.
    RateLimited,
    /// A transport failure, a malformed origin response, or a store failure
    /// that could not be masked.
    Internal(String),
}

pub fn bad_request(message: &str) -> (r: AppError)
    ensures
        r matches AppError::BadRequest(m) && m@ == message@,
{
    AppError::BadRequest(String::from_str(message))
}

pub fn internal(message: &str) -> (r: AppError)
    ensures
        r matches AppError::Internal(m) && m@ == message@,
{
    AppError::Internal(String::from_str(message))
}

} // verus!
