//! A block cache kept in a shared object store: deterministic object keys,
//! offset checks, and reassembly of streamed blocks.
pub mod cache;
pub mod checksums;
pub mod error;
pub mod keys;
pub mod object;
pub mod reader;
