//! A content-addressed registry of file metadata, kept in a NEAR storage map.
//!
//! Each file is stored under a key derived from its name alone (the base64 text of
//! the SHA-256 digest of the name's UTF-8 bytes). Records carry the name, a URL,
//! the creation time and the owning account; only the owner may delete a record.
pub mod hasher;
pub mod laws;
pub mod registry;
pub mod store;
