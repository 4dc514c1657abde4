//! Decoding of Intel HEX text lines into typed, validated records.
pub mod hex;
pub mod record;
pub mod document;
pub mod laws;
