//! Secrets management and signing: content keys and signing key pairs are
//! kept at rest under keys derived from an identifier and a passphrase.

pub mod api;
pub mod crypto;
pub mod db;
