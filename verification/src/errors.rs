use vstd::prelude::*;

verus! {

/// The outcome classes a request can end in, mirroring the HTTP status
/// codes the surrounding web layer would send.
#[derive(Clone, Copy, Debug, PartialEq, Eq, Structural)]
pub enum Status {
    BadRequest,
    NotFound,
    InternalServerError,
    Unauthorized,
    Forbidden,
}

/// An API-facing error: a status class plus a message for the client.
///
/// Every internal failure cause is mapped onto one of these before it
/// leaves the library, so callers never see which query or check failed.
#[derive(Clone, Debug, PartialEq)]
pub struct ApiError {
    pub status: Status,
    pub message: String,
}

impl ApiError {
    /// A user error is one the caller can repair: a malformed request or a
    /// lookup that found nothing.
    pub fn is_user_error(&self) -> (r: bool)
        ensures
            r == (self.status is BadRequest || self.status is NotFound),
    {
        match self.status {
            Status::BadRequest => true,
            Status::NotFound => true,
            _ => false,
        }
    }

    /// Wrap an unexpected failure as an opaque server error; success passes through.
    pub fn server_error<T, E>(e: Result<T, E>) -> (r: Result<T, ApiError>)
        ensures
            match e {
                Ok(v) => r == Ok::<T, ApiError>(v),
                Err(_) => r matches Err(err)
                    && err.status is InternalServerError
                    && err.message@ == "unexpected server error"@,
            },
    {
        match e {
            Ok(v) => Ok(v),
            Err(_) => Err(ApiError {
                status: Status::InternalServerError,
                message: "unexpected server error".to_owned(),
            }),
        }
    }

    /// Reject a request whose input failed validation; success passes through.
    /// The validation token itself becomes the client-visible message.
    pub fn bad_request<T>(e: Result<T, &str>) -> (r: Result<T, ApiError>)
        ensures
            match e {
                Ok(v) => r == Ok::<T, ApiError>(v),
                Err(msg) => r matches Err(err)
                    && err.status is BadRequest
                    && err.message@ == msg@,
            },
    {
        match e {
            Ok(v) => Ok(v),
            Err(msg) => Err(ApiError { status: Status::BadRequest, message: msg.to_owned() }),
        }
    }

    /// Turn an empty lookup into a not-found error carrying `message`.
    pub fn not_found<T>(opt: Option<T>, message: String) -> (r: Result<T, ApiError>)
        ensures
            match opt {
                Some(v) => r == Ok::<T, ApiError>(v),
                None => r matches Err(err)
                    && err.status is NotFound
                    && err.message == message,
            },
    {
        match opt {
            Some(val) => Ok(val),
            None => Err(ApiError { status: Status::NotFound, message }),
        }
    }

    /// The fixed response for a failed login or a missing session.
    pub fn unauthorized() -> (r: ApiError)
        ensures
            r.status is Unauthorized,
            r.message@ == "Username or password is invalid"@,
    {
        ApiError {
            status: Status::Unauthorized,
            message: "Username or password is invalid".to_owned(),
        }
    }
}

} // verus!
