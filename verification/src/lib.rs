//! A local encrypted store of named credentials under one master secret:
//! the store itself, its versioned on-disk encoding, the bounded-retry
//! authentication that opens it, and the consent-gated migration of an
//! old format.

pub mod bootstrap;
pub mod commands;
pub mod location;
pub mod password;
pub mod secret;
pub mod text;
