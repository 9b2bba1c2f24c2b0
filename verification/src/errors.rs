use vstd::prelude::*;

verus! {

/// Outcome of the shape checks that registration input must pass: each flag is
/// `true` when the corresponding field is acceptable (username of 3 to 50
/// characters, well-formed email address, password of at least 8 characters).
#[derive(Clone, Copy, Debug, PartialEq, Eq, Structural)]
pub struct ValidationDetails {
    pub username_ok: bool,
    pub email_ok: bool,
    pub password_ok: bool,
}

impl ValidationDetails {
    /// All three fields passed their checks.
    pub open spec fn all_ok(self) -> bool {
        self.username_ok && self.email_ok && self.password_ok
    }
}

/// Which already-existing resource a write collided with.
#[derive(Clone, Copy, Debug, PartialEq, Eq, Structural)]
pub enum ConflictKind {
    Email,
    Username,
    Follow,
}

/// Why a request failed authentication.  Credential failures share a single
/// variant (and a single message) so that a caller cannot tell a wrong
/// password from an unknown email.
#[derive(Clone, Copy, Debug, PartialEq, Eq, Structural)]
pub enum AuthReason {
    InvalidCredentials,
    InvalidToken,
    TokenExpired,
    Unauthorized,
}

/// The error taxonomy of the whole service: input rejected, duplicate
/// resource, authentication failure, missing resource, or an internal fault
/// whose detail must not reach the client.
#[derive(Clone, Copy, Debug, PartialEq, Eq, Structural)]
pub enum ApiError {
    Validation(ValidationDetails),
    Conflict(ConflictKind),
    Auth(AuthReason),
    NotFound,
    Internal,
}

/// The client-facing message for each error value.
pub open spec fn spec_message(e: ApiError) -> Seq<char> {
    match e {
        ApiError::Validation(_) => "Validation failed"@,
        ApiError::Conflict(ConflictKind::Email) => "Email already registered"@,
        ApiError::Conflict(ConflictKind::Username) => "Username already taken"@,
        ApiError::Conflict(ConflictKind::Follow) => "Already following"@,
        ApiError::Auth(AuthReason::InvalidCredentials) => "Invalid email or password"@,
        ApiError::Auth(AuthReason::InvalidToken) => "Invalid token"@,
        ApiError::Auth(AuthReason::TokenExpired) => "Token expired"@,
        ApiError::Auth(AuthReason::Unauthorized) => "Unauthorized"@,
        ApiError::NotFound => "Not found"@,
        ApiError::Internal => "Internal server error"@,
    }
}

/// The HTTP status that each error value maps to.
pub open spec fn spec_status_code(e: ApiError) -> u16 {
    match e {
        ApiError::Validation(_) => 400,
        ApiError::Conflict(_) => 409,
        ApiError::Auth(_) => 401,
        ApiError::NotFound => 404,
        ApiError::Internal => 500,
    }
}

impl ApiError {
    /// The client-facing message; internal detail never appears here.
    pub fn message(&self) -> (r: &'static str)
        ensures
            r@ == spec_message(*self),
    {
        match *self {
            ApiError::Validation(_) => "Validation failed",
            ApiError::Conflict(ConflictKind::Email) => "Email already registered",
            ApiError::Conflict(ConflictKind::Username) => "Username already taken",
            ApiError::Conflict(ConflictKind::Follow) => "Already following",
            ApiError::Auth(AuthReason::InvalidCredentials) => "Invalid email or password",
            ApiError::Auth(AuthReason::InvalidToken) => "Invalid token",
            ApiError::Auth(AuthReason::TokenExpired) => "Token expired",
            ApiError::Auth(AuthReason::Unauthorized) => "Unauthorized",
            ApiError::NotFound => "Not found",
            ApiError::Internal => "Internal server error",
        }
    }

    /// The HTTP status code for this error.
    pub fn status_code(&self) -> (r: u16)
        ensures
            r == spec_status_code(*self),
    {
        match *self {
            ApiError::Validation(_) => 400,
            ApiError::Conflict(_) => 409,
            ApiError::Auth(_) => 401,
            ApiError::NotFound => 404,
            ApiError::Internal => 500,
        }
    }
}

} // verus!
