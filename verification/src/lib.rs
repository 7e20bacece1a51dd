//! Verified core of the Iceblink sync server: session tokens, the
//! authentication guard, ownership-scoped code storage and the drift
//! fingerprint that clients compare against their cache.

use vstd::prelude::*;

pub mod auth;
pub mod checksum;
pub mod models;
pub mod text;

verus! {

/// Process-wide settings, fixed at startup and never changed afterwards.
#[derive(Clone, Debug)]
pub struct ServerOptions {
    pub port: u32,
    pub jwt_secret: String,
    pub client_id: String,
    pub client_secret: String,
    pub oauth_server: String,
    pub redirect_uri: String,
    pub frontfacing: String,
}

} // verus!
