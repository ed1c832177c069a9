//! Bearer-token request authentication.
//!
//! `token` recognises a bearer credential in an authorization header value,
//! and `interceptor` holds the decision procedure that either forwards a
//! request to the protected service or rejects it.

pub mod interceptor;
pub mod token;
