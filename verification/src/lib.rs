//! Issues and validates signed bearer credentials for a fixed directory of
//! identities, and gates protected resources by role.
//!
//! The library is the verified core of the service: the identity directory,
//! the token codec (issue / verify), the digest-and-sign seal pipeline, the
//! role-based authorization filter, and the error mapper. All values cross
//! the boundary as plain bytes; HTTP plumbing lives outside.

pub mod base64url;
pub mod bytes;
pub mod claims;
pub mod crypto;
pub mod directory;
pub mod errors;
pub mod filter;
pub mod role;
pub mod seal;
pub mod service;
pub mod token;
