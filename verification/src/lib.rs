//! Protection of a flat `key=value` secrets file at rest.
//!
//! The plaintext is sealed into a password-encrypted envelope that comes
//! with a metadata record, and a plaintext working copy can be reconciled
//! against what an envelope holds.
//!
//! - [`crypto`] seals and opens the envelope: a key is derived from the
//!   password and a fresh salt by Argon2id, and the plaintext is encrypted
//!   and authenticated by ChaCha20-Poly1305 under a fresh nonce.
//! - [`meta`] is the metadata that makes an envelope openable again, and
//!   the checks that metadata has to pass.
//! - [`parse`] reads the `key=value` text into a mapping.
//! - [`kv`] holds the mapping and reconciles two mappings into additions,
//!   removals and changes, and [`report`] puts a reconciliation into lines
//!   of text.
//! - [`commands`] holds what the commands lock, unlock, diff and sync
//!   decide, and [`config`] where the artifacts live.
//! - [`primitives`] are the outside functions that everything rests on,
//!   each with the contract that is assumed of it.
//!
//! The library touches neither files nor the terminal: it is handed plain
//! values and hands plain values back.

pub mod commands;
pub mod config;
pub mod crypto;
pub mod error;
pub mod keyorder;
pub mod kv;
pub mod meta;
pub mod parse;
pub mod primitives;
pub mod report;
pub mod text;
