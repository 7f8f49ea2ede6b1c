use vstd::prelude::*;

verus! {

/// Why the service refuses a request (the request's own fault, as opposed to a failure of
/// the database or of an identity provider).
#[derive(Debug)]
pub enum RequestError {
    /// 400, with the reason.
    BadRequest(String),
    /// 401.
    Unauthorized,
    /// 404.
    NotFound,
    /// 409, with the reason.
    Conflict(String),
}

/// Whether `r` is a refusal as a bad request with message `msg`.
pub open spec fn is_bad_request<T>(r: Result<T, RequestError>, msg: Seq<char>) -> bool {
    r matches Err(RequestError::BadRequest(m)) && m@ == msg
}

/// A bad-request refusal with message `msg`.
pub fn bad_request(msg: &str) -> (e: RequestError)
    ensures
        e matches RequestError::BadRequest(m) && m@ == msg@,
{
    RequestError::BadRequest(String::from_str(msg))
}

} // verus!
