use vstd::prelude::*;

use crate::error::AuthError;

verus! {

/// A federated identity provider. Network federation itself is outside
/// this engine; only the provider endpoint table lives here.
#[derive(Debug, Clone)]
pub enum OAuthProvider {
    Google,
    GitHub,
    Apple,
    Facebook,
    Twitter,
    Discord,
    Microsoft,
    LinkedIn,
    CustomOidc(String),
}

/// What a provider's userinfo lookup reports about the signed-in party.
#[derive(Debug, Clone)]
pub struct OAuthUserInfo {
    pub provider_id: String,
    pub email: Option<String>,
    pub name: Option<String>,
}

/// The authorization and token endpoints of each provider.
pub open spec fn spec_provider_urls(p: OAuthProvider) -> (Seq<char>, Seq<char>) {
    match p {
        OAuthProvider::Google => (
            "https://accounts.google.com/o/oauth2/v2/auth"@,
            "https://oauth2.googleapis.com/token"@,
        ),
        OAuthProvider::GitHub => (
            "https://github.com/login/oauth/authorize"@,
            "https://github.com/login/oauth/access_token"@,
        ),
        OAuthProvider::Apple => (
            "https://appleid.apple.com/auth/authorize"@,
            "https://appleid.apple.com/auth/token"@,
        ),
        OAuthProvider::Facebook => (
            "https://www.facebook.com/v18.0/dialog/oauth"@,
            "https://graph.facebook.com/v18.0/oauth/access_token"@,
        ),
        OAuthProvider::Twitter => (
            "https://twitter.com/i/oauth2/authorize"@,
            "https://api.twitter.com/2/oauth2/token"@,
        ),
        OAuthProvider::Discord => (
            "https://discord.com/api/oauth2/authorize"@,
            "https://discord.com/api/oauth2/token"@,
        ),
        OAuthProvider::Microsoft => (
            "https://login.microsoftonline.com/common/oauth2/v2.0/authorize"@,
            "https://login.microsoftonline.com/common/oauth2/v2.0/token"@,
        ),
        OAuthProvider::LinkedIn => (
            "https://www.linkedin.com/oauth/v2/authorization"@,
            "https://www.linkedin.com/oauth/v2/accessToken"@,
        ),
        OAuthProvider::CustomOidc(base) => (base@ + "/authorize"@, base@ + "/token"@),
    }
}

/// The provider endpoint table.
pub struct OAuthService;

impl OAuthService {
    /// The authorization and token URLs for a provider; for a custom
    /// OIDC issuer they hang off its base URL.
    pub fn get_provider_urls(provider: &OAuthProvider) -> (r: Result<(String, String), AuthError>)
        ensures
            r matches Ok(u) && (u.0@, u.1@) == spec_provider_urls(*provider),
    {
        match provider {
            OAuthProvider::Google => Ok((
                String::from_str("https://accounts.google.com/o/oauth2/v2/auth"),
                String::from_str("https://oauth2.googleapis.com/token"),
            )),
            OAuthProvider::GitHub => Ok((
                String::from_str("https://github.com/login/oauth/authorize"),
                String::from_str("https://github.com/login/oauth/access_token"),
            )),
            OAuthProvider::Apple => Ok((
                String::from_str("https://appleid.apple.com/auth/authorize"),
                String::from_str("https://appleid.apple.com/auth/token"),
            )),
            OAuthProvider::Facebook => Ok((
                String::from_str("https://www.facebook.com/v18.0/dialog/oauth"),
                String::from_str("https://graph.facebook.com/v18.0/oauth/access_token"),
            )),
            OAuthProvider::Twitter => Ok((
                String::from_str("https://twitter.com/i/oauth2/authorize"),
                String::from_str("https://api.twitter.com/2/oauth2/token"),
            )),
            OAuthProvider::Discord => Ok((
                String::from_str("https://discord.com/api/oauth2/authorize"),
                String::from_str("https://discord.com/api/oauth2/token"),
            )),
            OAuthProvider::Microsoft => Ok((
                String::from_str("https://login.microsoftonline.com/common/oauth2/v2.0/authorize"),
                String::from_str("https://login.microsoftonline.com/common/oauth2/v2.0/token"),
            )),
            OAuthProvider::LinkedIn => Ok((
                String::from_str("https://www.linkedin.com/oauth/v2/authorization"),
                String::from_str("https://www.linkedin.com/oauth/v2/accessToken"),
            )),
            OAuthProvider::CustomOidc(base) => {
                let auth = base.clone().concat("/authorize");
                let token = base.clone().concat("/token");
                Ok((auth, token))
            },
        }
    }
}

} // verus!
