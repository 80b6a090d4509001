//! What the service offers to its callers, on values that are already
//! parsed.

pub mod handlers;
pub mod interfaces;
