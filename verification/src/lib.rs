//! An encrypted note store.
//!
//! Short text documents are persisted on disk, each encrypted under a key
//! derived from a six-digit PIN. The crate covers the storage engine:
//! PIN-based authentication and key derivation, the authenticated-encryption
//! envelope applied to note content, the on-disk note/metadata pairing and
//! discovery pass, and the migration scanner that reconciles a directory of
//! mixed encrypted, unencrypted and mislabeled files.

pub mod args;
pub mod auth;
pub mod cipher;
pub mod config;
pub mod database;
pub mod envelope;
pub mod errors;
pub mod files;
pub mod kdf;
pub mod metadata;
pub mod migrate;
pub mod pin;
pub mod store;
