use vstd::prelude::*;

verus! {

/// The error kinds the authentication engine reports to callers.
///
/// "Not found" and "wrong password" are deliberately conflated into
/// `InvalidCredentials`, and wrong, expired and already-used single-use
/// tokens all surface as `OtpInvalid`, so a caller cannot enumerate
/// accounts or token states.
#[derive(Debug, Clone, PartialEq, Eq)]
pub enum AuthError {
    InvalidCredentials,
    UserExists,
    UserNotFound,
    TokenExpired,
    InvalidToken,
    Unauthorized,
    Forbidden,
    InvalidInput(String),
    RateLimitExceeded,
    Database,
    Jwt,
    Validation,
    OAuth(String),
    Email(String),
    Sms(String),
    OtpInvalid,
    MfaRequired,
    MfaInvalid,
    SessionNotFound,
    RoleNotFound,
    PermissionDenied,
    ProjectNotFound,
    InvalidApiKey,
    ApiKeyExpired,
    Internal,
}

impl AuthError {
    /// The stable machine-readable code for this error kind.
    pub open spec fn spec_code(&self) -> Seq<char> {
        match self {
            AuthError::InvalidCredentials => "invalid_credentials"@,
            AuthError::UserExists => "user_exists"@,
            AuthError::UserNotFound => "user_not_found"@,
            AuthError::TokenExpired => "token_expired"@,
            AuthError::InvalidToken => "invalid_token"@,
            AuthError::Unauthorized => "unauthorized"@,
            AuthError::Forbidden => "forbidden"@,
            AuthError::InvalidInput(_) => "invalid_input"@,
            AuthError::RateLimitExceeded => "rate_limit_exceeded"@,
            AuthError::Database => "database_error"@,
            AuthError::Jwt => "jwt_error"@,
            AuthError::Validation => "validation_error"@,
            AuthError::OAuth(_) => "oauth_error"@,
            AuthError::Email(_) => "email_error"@,
            AuthError::Sms(_) => "sms_error"@,
            AuthError::OtpInvalid => "otp_invalid"@,
            AuthError::MfaRequired => "mfa_required"@,
            AuthError::MfaInvalid => "mfa_invalid"@,
            AuthError::SessionNotFound => "session_not_found"@,
            AuthError::RoleNotFound => "role_not_found"@,
            AuthError::PermissionDenied => "permission_denied"@,
            AuthError::ProjectNotFound => "project_not_found"@,
            AuthError::InvalidApiKey => "invalid_api_key"@,
            AuthError::ApiKeyExpired => "api_key_expired"@,
            AuthError::Internal => "internal_error"@,
        }
    }

    /// Returns the stable error code clients branch on.
    pub fn code(&self) -> (s: String)
        ensures
            s@ == self.spec_code(),
    {
        match self {
            AuthError::InvalidCredentials => String::from_str("invalid_credentials"),
            AuthError::UserExists => String::from_str("user_exists"),
            AuthError::UserNotFound => String::from_str("user_not_found"),
            AuthError::TokenExpired => String::from_str("token_expired"),
            AuthError::InvalidToken => String::from_str("invalid_token"),
            AuthError::Unauthorized => String::from_str("unauthorized"),
            AuthError::Forbidden => String::from_str("forbidden"),
            AuthError::InvalidInput(_) => String::from_str("invalid_input"),
            AuthError::RateLimitExceeded => String::from_str("rate_limit_exceeded"),
            AuthError::Database => String::from_str("database_error"),
            AuthError::Jwt => String::from_str("jwt_error"),
            AuthError::Validation => String::from_str("validation_error"),
            AuthError::OAuth(_) => String::from_str("oauth_error"),
            AuthError::Email(_) => String::from_str("email_error"),
            AuthError::Sms(_) => String::from_str("sms_error"),
            AuthError::OtpInvalid => String::from_str("otp_invalid"),
            AuthError::MfaRequired => String::from_str("mfa_required"),
            AuthError::MfaInvalid => String::from_str("mfa_invalid"),
            AuthError::SessionNotFound => String::from_str("session_not_found"),
            AuthError::RoleNotFound => String::from_str("role_not_found"),
            AuthError::PermissionDenied => String::from_str("permission_denied"),
            AuthError::ProjectNotFound => String::from_str("project_not_found"),
            AuthError::InvalidApiKey => String::from_str("invalid_api_key"),
            AuthError::ApiKeyExpired => String::from_str("api_key_expired"),
            AuthError::Internal => String::from_str("internal_error"),
        }
    }
}

/// Wire shape for reporting an error: a stable code plus a free-form message.
#[derive(Debug, Clone)]
pub struct ErrorResponse {
    pub error: String,
    pub message: String,
}

impl ErrorResponse {
    /// Builds the response body for an error, carrying its stable code.
    pub fn new(error: String, message: String) -> (r: ErrorResponse)
        ensures
            r.error@ == error@,
            r.message@ == message@,
    {
        ErrorResponse { error, message }
    }
}

} // verus!
