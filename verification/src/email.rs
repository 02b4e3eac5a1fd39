use vstd::prelude::*;

verus! {

/// Builds outbound email subjects and bodies for the delivery
/// collaborator; SMTP transport itself is the embedding layer's concern,
/// is never retried here, and a delivery failure does not roll back
/// already-persisted token state.
pub struct EmailService;

impl EmailService {
    /// The sign-in email for a magic-link token: subject and body.
    pub fn magic_link_email(token: &str) -> (r: (String, String))
        ensures
            r.0@ == "Sign in to your account"@,
            r.1@ == "Click the link below to sign in:\n\n"@
                + "https://auth.merco.dev/magic-link/verify?token="@ + token@
                + "\n\nThis link will expire in 10 minutes.\n"@,
    {
        let subject = String::from_str("Sign in to your account");
        let mut body = String::from_str("Click the link below to sign in:\n\n");
        body.append("https://auth.merco.dev/magic-link/verify?token=");
        body.append(token);
        body.append("\n\nThis link will expire in 10 minutes.\n");
        (subject, body)
    }

    /// The verification email for a one-time code: subject and body.
    pub fn otp_email(code: &str) -> (r: (String, String))
        ensures
            r.0@ == "Your verification code"@,
            r.1@ == "Your verification code is: "@ + code@
                + "\n\nThis code will expire in 10 minutes.\n"@,
    {
        let subject = String::from_str("Your verification code");
        let mut body = String::from_str("Your verification code is: ");
        body.append(code);
        body.append("\n\nThis code will expire in 10 minutes.\n");
        (subject, body)
    }

    /// The recovery email for a password-reset token: subject and body.
    pub fn password_reset_email(token: &str) -> (r: (String, String))
        ensures
            r.0@ == "Reset your password"@,
            r.1@ == "Click the link below to reset your password:\n\n"@
                + "https://auth.merco.dev/password/reset?token="@ + token@
                + "\n\nThis link will expire in 1 hour.\n"@,
    {
        let subject = String::from_str("Reset your password");
        let mut body = String::from_str("Click the link below to reset your password:\n\n");
        body.append("https://auth.merco.dev/password/reset?token=");
        body.append(token);
        body.append("\n\nThis link will expire in 1 hour.\n");
        (subject, body)
    }
}

} // verus!
