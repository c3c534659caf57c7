//! VM configuration and shared errors.
pub mod error;
pub mod laws;
pub mod vm;
