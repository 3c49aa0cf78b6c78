//! Request and response payload shapes of the service's public boundary.
//! The transport layer serializes mirror copies of these; the core works on
//! the plain values.

use vstd::prelude::*;

verus! {

/// Payload for creating a brand-new delegated subdomain.
#[derive(Debug)]
pub struct SignupRequest {
    pub subdomain: String,
    pub password: String,
}

/// Credentials used to authenticate an existing subdomain owner.
#[derive(Debug)]
pub struct SigninRequest {
    pub subdomain: String,
    pub password: String,
}

/// Response indicating whether a requested label may be registered.
#[derive(Debug, PartialEq, Eq, Structural)]
pub struct CheckSubdomainResponse {
    pub available: bool,
}

/// Public description of the base domain the service manages.
#[derive(Debug)]
pub struct AboutResponse {
    pub base_domain: String,
}

/// SOA response for the parent zone shown to unauthenticated users.
#[derive(Debug)]
pub struct ParentSoaResponse {
    pub soa: String,
}

/// Payload describing the external NS list the user wants to delegate to.
#[derive(Debug)]
pub struct SetExternalNsRequest {
    pub ns: Vec<String>,
}

/// Request body for updating the user's password.
#[derive(Debug)]
pub struct ChangePasswordRequest {
    pub current_password: String,
    pub new_password: String,
}

} // verus!
