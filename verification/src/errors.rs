use vstd::prelude::*;

verus! {

/// The error taxonomy of the service: every failure of registration, login,
/// poll management or voting is one of these.
#[derive(Clone, Copy, Debug, PartialEq, Eq, Structural)]
pub enum ApiError {
    /// A credential with this username already exists.
    Conflict,
    /// The requested user or poll does not exist.
    NotFound,
    /// The presented credentials do not match the stored ones.
    Unauthorized,
    /// A malformed poll or vote input (too few options, index out of range).
    InvalidArgument,
    /// A stored password hash is not a well-formed hash record.
    CorruptHash,
    /// Token signing failed or the expiry-time arithmetic left the
    /// representable range.
    TokenError,
    /// The store could not complete a read or write.
    StorageError,
}

impl ApiError {
    /// The HTTP status code that each error maps to on the poll surface.
    /// The login route is the one exception: there an unknown user is
    /// reported as 401, not 404, so that flow maps `NotFound` itself
    /// rather than through this function.
    pub fn http_status(&self) -> (r: u16)
        ensures
            r == match *self {
                ApiError::Conflict => 409u16,
                ApiError::NotFound => 404u16,
                ApiError::Unauthorized => 401u16,
                ApiError::InvalidArgument => 400u16,
                ApiError::CorruptHash => 500u16,
                ApiError::TokenError => 500u16,
                ApiError::StorageError => 500u16,
            },
    {
        match *self {
            ApiError::Conflict => 409,
            ApiError::NotFound => 404,
            ApiError::Unauthorized => 401,
            ApiError::InvalidArgument => 400,
            ApiError::CorruptHash => 500,
            ApiError::TokenError => 500,
            ApiError::StorageError => 500,
        }
    }
}

} // verus!
