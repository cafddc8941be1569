//! Stateless HTTP request authentication with self-verifying session tokens.
//!
//! A client first exchanges a shared secret for a signed, expiring token;
//! every later request presents that token and is verified without any
//! server-side session state.

pub mod auth;
pub mod crypto;
pub mod token;
pub mod wire;
