//! Who is calling: session tokens, the guard in front of the protected
//! operations, and the checks on what the identity provider returns.

pub mod guard;
pub mod json;
pub mod openid;
pub mod session;
