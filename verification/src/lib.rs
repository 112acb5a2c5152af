//! Client-side Kerberos ticket machinery: request building for the AS and
//! TGS exchanges (including the S4U2Self impersonation variant), cipher
//! selection keyed by encryption-type identifier, an in-memory credential
//! model with a persisted credential-cache codec, and ticket forging
//! primitives.

pub mod constants;
pub mod errors;
pub mod model;
pub mod crypto;
pub mod strutil;
pub mod dertime;
pub mod codec;
pub mod asn1;
pub mod builder;
pub mod requester;
pub mod vault;
pub mod forge;
