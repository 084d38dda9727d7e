//! Core of a user-registration and authentication service: one-time-passcode
//! (OTP) issuance and verification, password hashing and verification with
//! Argon2, and issuance of signed session tokens. The HTTP transport and the
//! durable stores are external collaborators; this crate holds the rules they
//! are driven by, each with a verified contract.

pub mod api;
pub mod errors;
pub mod hashing;
pub mod otp;
pub mod store;
mod text;
pub mod token;
