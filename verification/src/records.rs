//! The request and response records of the identity service. Each is a
//! flat record of strings; field names are the wire contract.

use vstd::prelude::*;

verus! {

/// Input to `login`.
#[derive(Debug, Clone, PartialEq, Eq)]
pub struct LoginRequest {
    pub username: String,
    pub password: String,
}

/// Input to `signup`.
#[derive(Debug, Clone, PartialEq, Eq)]
pub struct SignupRequest {
    pub username: String,
    pub email: String,
    pub password: String,
}

/// Input to `auth` (token validation).
#[derive(Debug, Clone, PartialEq, Eq)]
pub struct AuthRequest {
    pub token: String,
}

/// Decoded result of `login`, when the caller elects to decode.
#[derive(Debug, Clone, PartialEq, Eq)]
pub struct LoginResponse {
    pub token: String,
}

/// Decoded result of `signup`, when the caller elects to decode.
#[derive(Debug, Clone, PartialEq, Eq)]
pub struct SignupResponse {
    pub token: String,
}

} // verus!
