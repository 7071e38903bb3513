//! Password-protected note storage: key derivation, a versioned
//! authenticated-encryption codec, secret-store bookkeeping, session key
//! caching and the reconciliation rules between a local and a remote store.

pub mod crypto;
pub mod models;
pub mod sync;
pub mod keychain;
pub mod session;
pub mod projects;
pub mod encoding;
pub mod settings;
pub mod storage;
pub mod auth;
pub mod remote;
