//! Session-authenticated access control: credential verification, permission
//! resolution, and session lifecycle management for a single-tenant site.
//!
//! The crate models the persistent state (users, group memberships, sessions)
//! as in-memory stores with explicit invariants, and verifies the rules that
//! gate every authenticated request: how credentials are checked, how the
//! effective permission set of a user is computed, and when a session token
//! resolves to an identity. Password hashing and session-token generation are
//! delegated to outside crates through a small trusted boundary.

pub mod auth;
pub mod base_template;
pub mod credential_store;
pub mod error;
pub mod laws;
pub mod password;
pub mod session_store;
pub mod user;
