//! Verified core of an encrypted journal: key derivation, authenticated
//! encryption of the journal's entries, the vault file format, entry
//! management and search, theme settings and media-player helpers.

pub mod crypto;
pub mod mpris;
pub mod session;
pub mod settings;
pub mod text;
pub mod types;
pub mod ui;
pub mod vault;
