//! Core of an offline-first mail client: per-account, per-protocol connection
//! state machines, the hand-rolled line-oriented retrieval protocol, and the
//! merge discipline between live fetches and the local message cache.
//!
//! Network transports, terminal rendering and MIME parsing are external
//! collaborators; this crate holds the logic that decides what to send, how to
//! frame and parse protocol data, and how cache and connection state change.

pub mod email;
pub mod email_manager;
pub mod errors;
pub mod health;
pub mod imap;
pub mod smtp;
pub mod account;
pub mod account_manager;
pub mod codec;
pub mod config;
pub mod pop3;
pub mod storage;
pub mod text;
pub mod ui_state;
