use vstd::prelude::*;

use crate::session::{view_opt_string, Session};
use crate::user::User;

verus! {

/// Sign-up request body.
#[derive(Debug, Clone)]
pub struct SignupRequest {
    pub email: String,
    pub password: String,
    pub metadata: Option<String>,
}

/// Sign-in request body.
#[derive(Debug, Clone)]
pub struct SigninRequest {
    pub email: String,
    pub password: String,
}

/// Refresh request body.
#[derive(Debug, Clone)]
pub struct RefreshTokenRequest {
    pub refresh_token: String,
}

/// One-time-code delivery request.
#[derive(Debug, Clone)]
pub struct SendOtpRequest {
    pub email: Option<String>,
    pub phone: Option<String>,
    pub channel: String,
}

/// One-time-code verification request.
#[derive(Debug, Clone)]
pub struct VerifyOtpRequest {
    pub email: Option<String>,
    pub phone: Option<String>,
    pub code: String,
}

/// Magic-link delivery request.
#[derive(Debug, Clone)]
pub struct SendMagicLinkRequest {
    pub email: String,
}

/// Password change request.
#[derive(Debug, Clone)]
pub struct ChangePasswordRequest {
    pub current_password: String,
    pub new_password: String,
}

/// Password recovery request.
#[derive(Debug, Clone)]
pub struct ForgotPasswordRequest {
    pub email: String,
}

/// Password reset request.
#[derive(Debug, Clone)]
pub struct ResetPasswordRequest {
    pub token: String,
    pub new_password: String,
}

/// Profile update request.
#[derive(Debug, Clone)]
pub struct UpdateUserRequest {
    pub metadata: Option<String>,
    pub phone: Option<String>,
}

/// Email change request.
#[derive(Debug, Clone)]
pub struct ChangeEmailRequest {
    pub new_email: String,
}

/// MFA enrolment request.
#[derive(Debug, Clone)]
pub struct EnrollMfaRequest {
    pub code: Option<String>,
}

/// MFA verification request.
#[derive(Debug, Clone)]
pub struct VerifyMfaRequest {
    pub code: String,
}

/// MFA sign-in challenge request.
#[derive(Debug, Clone)]
pub struct MfaChallengeRequest {
    pub code: String,
}

/// Role creation request.
#[derive(Debug, Clone)]
pub struct CreateRoleRequest {
    pub name: String,
    pub description: Option<String>,
    pub permissions: Vec<String>,
}

/// Role assignment request.
#[derive(Debug, Clone)]
pub struct AssignRoleRequest {
    pub role_id: u128,
}

/// API key creation request.
#[derive(Debug, Clone)]
pub struct CreateApiKeyRequest {
    pub name: String,
    pub project_id: u128,
}

/// The principal as reported to clients: no credentials, no MFA secret.
#[derive(Debug, Clone)]
pub struct UserResponse {
    pub id: u128,
    pub email: String,
    pub email_verified: bool,
    pub phone: Option<String>,
    pub phone_verified: bool,
    pub metadata: String,
    pub mfa_enabled: bool,
    pub created_at: i64,
    pub updated_at: i64,
}

impl UserResponse {
    /// The client-facing projection of a principal.
    pub fn from(user: User) -> (r: UserResponse)
        ensures
            r.id == user@.id,
            r.email@ == user@.email,
            r.email_verified == user@.email_verified,
            view_opt_string(r.phone) == user@.phone,
            r.phone_verified == user@.phone_verified,
            r.metadata@ == user@.metadata,
            r.mfa_enabled == user@.mfa_enabled,
            r.created_at == user@.created_at,
            r.updated_at == user@.updated_at,
    {
        UserResponse {
            id: user.id,
            email: user.email,
            email_verified: user.email_verified,
            phone: user.phone,
            phone_verified: user.phone_verified,
            metadata: user.metadata,
            mfa_enabled: user.mfa_enabled,
            created_at: user.created_at,
            updated_at: user.updated_at,
        }
    }
}

/// What a completed authentication hands back: the principal and the
/// session's token pair.
#[derive(Debug, Clone)]
pub struct AuthResponse {
    pub user: UserResponse,
    pub access_token: String,
    pub refresh_token: String,
    pub expires_in: u64,
}

impl AuthResponse {
    /// Combines a principal and a fresh session into the wire response.
    pub fn from(user: User, session: Session, expires_in: u64) -> (r: AuthResponse)
        ensures
            r.user.id == user@.id,
            r.user.email@ == user@.email,
            r.access_token@ == session@.access_token,
            r.refresh_token@ == session@.refresh_token,
            r.expires_in == expires_in,
    {
        AuthResponse {
            user: UserResponse::from(user),
            access_token: session.access_token,
            refresh_token: session.refresh_token,
            expires_in,
        }
    }
}

/// One session of the principal, as listed to clients.
#[derive(Debug, Clone)]
pub struct SessionResponse {
    pub id: String,
    pub created_at: i64,
    pub last_active: i64,
    pub ip: Option<String>,
    pub user_agent: Option<String>,
    pub current: bool,
}

impl SessionResponse {
    /// The client-facing projection of a session, flagged when it is the
    /// caller's own.
    pub fn from(session: Session, current: bool) -> (r: SessionResponse)
        ensures
            r.id@ == session@.id,
            r.created_at == session@.created_at,
            r.last_active == session@.last_active_at,
            view_opt_string(r.ip) == session@.ip_address,
            view_opt_string(r.user_agent) == session@.user_agent,
            r.current == current,
    {
        SessionResponse {
            id: session.id,
            created_at: session.created_at,
            last_active: session.last_active_at,
            ip: session.ip_address,
            user_agent: session.user_agent,
            current,
        }
    }
}

/// The sessions listing response.
#[derive(Debug, Clone)]
pub struct SessionsResponse {
    pub sessions: Vec<SessionResponse>,
}

/// Acknowledgement of a one-time-code delivery.
#[derive(Debug, Clone)]
pub struct OtpSentResponse {
    pub message: String,
}

/// Acknowledgement of a magic-link delivery.
#[derive(Debug, Clone)]
pub struct MagicLinkSentResponse {
    pub message: String,
}

/// What MFA enrolment hands back: the shared secret, the provisioning
/// URL for the QR code, and the backup codes, shown this once.
#[derive(Debug, Clone)]
pub struct MfaEnrollResponse {
    pub secret: String,
    pub qr_url: String,
    pub backup_codes: Vec<String>,
}

/// One role, as listed to clients.
#[derive(Debug, Clone)]
pub struct RoleResponse {
    pub id: u128,
    pub name: String,
    pub description: Option<String>,
    pub permissions: Vec<String>,
}

/// The roles listing response.
#[derive(Debug, Clone)]
pub struct RolesResponse {
    pub roles: Vec<RoleResponse>,
}

/// The effective permissions of a principal.
#[derive(Debug, Clone)]
pub struct PermissionsResponse {
    pub permissions: Vec<String>,
}

/// One configured identity provider.
#[derive(Debug, Clone)]
pub struct OAuthProviderInfo {
    pub id: String,
    pub name: String,
    pub enabled: bool,
}

/// The provider listing response.
#[derive(Debug, Clone)]
pub struct OAuthProvidersResponse {
    pub providers: Vec<OAuthProviderInfo>,
}

/// What API key creation hands back; the only time the raw key is shown.
#[derive(Debug, Clone)]
pub struct CreateApiKeyResponse {
    pub id: u128,
    pub key: String,
    pub name: String,
    pub key_prefix: String,
    pub created_at: i64,
}

/// One API key row, as listed to clients: never the hash or raw key.
#[derive(Debug, Clone)]
pub struct ApiKeyListItem {
    pub id: u128,
    pub name: String,
    pub key_prefix: String,
    pub project_id: u128,
    pub created_at: i64,
    pub expires_at: Option<i64>,
    pub is_active: bool,
}

} // verus!
