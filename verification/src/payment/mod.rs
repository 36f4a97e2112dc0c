//! The metadata that travels with a payment, and its layout in bytes.

pub mod fields;
pub mod laws;
pub mod metadata;
pub mod tlv;
