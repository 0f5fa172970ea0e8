//! An encrypted, file-backed secrets vault: the container format, the key
//! derivation and AEAD pipeline, the derived-key session cache, backup
//! rotation and the decisions of the vault service, with their contracts.
pub mod primitives;

pub mod crypto;
pub mod error;
pub mod header;
pub mod session;
pub mod resolver;
pub mod vault;
pub mod generator;
pub mod store;
pub mod tui;
pub mod config;
