//! Verified solver for a storage-packed linked list behind an EVM contract.
//!
//! The library interprets a contract account's key-value storage: it derives
//! mapping slots, decodes packed 256-bit records, walks the linked list they
//! encode through a write-buffering overlay, flips each visited node's status
//! bit, and prepares/classifies the final read-only contract call.

pub mod call;
pub mod codec;
pub mod errors;
pub mod hashing;
pub mod overlay;
pub mod provider;
pub mod slot;
pub mod solve;
pub mod walker;
pub mod word;
