//! A versioned HKDF-SHA256 key-derivation engine.
//!
//! The engine compresses input key material and a salt into a pseudorandom
//! key and stretches that key into an output stream bound to a label. The
//! only configuration is the protocol message version, which fixes the value
//! the block counter starts from.

pub mod error;
pub mod mac;
pub mod model;
pub mod kdf;
pub mod laws;

pub use crate::error::HKDFError;
pub use crate::kdf::{block_count, block_message, HKDF};
