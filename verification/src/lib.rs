//! Multi-tenant identity engine: credential verification, session lifecycle,
//! and role/permission based authorization.
//!
//! The crate verifies the core logic: password sign-up/sign-in, refresh-token
//! rotation, single-use token consumption, wildcard permission matching and
//! request rate limiting. Outside cryptography (argon2, HMAC-signed tokens,
//! SHA-256, TOTP) is reached through small trusted wrappers whose contracts
//! state what the underlying crates document.

pub mod api_key;
pub mod auth_service;
pub mod config;
pub mod crypto;
pub mod dto;
pub mod email;
pub mod error;
pub mod mfa;
pub mod oauth;
pub mod password;
pub mod permission;
pub mod rate_limit;
pub mod role;
pub mod session;
pub mod single_use;
pub mod sms;
pub mod store;
pub mod strutil;
pub mod token;
pub mod user;
pub mod validation;

pub use error::AuthError;
