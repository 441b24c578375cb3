//! An in-memory OAuth 2.1 authorization server for a Model Context Protocol
//! addition service: client registration, authorization codes with PKCE,
//! token issue and rotation, revocation, and bearer-token checks.

pub mod clock;
pub mod config;
pub mod crypto;
pub mod history;
pub mod http;
pub mod laws;
pub mod oauth;
pub mod text;
