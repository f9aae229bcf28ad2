//! Error taxonomy for protocol sessions and the message cache.

use vstd::prelude::*;

verus! {

/// Errors arising from a protocol session or from driving a protocol client.
///
/// `ConfigMissing`: the protocol is not configured, so it was not attempted.
/// `BadGreeting`: the server greeting did not begin with the positive-status
/// token. `AuthFailed`: an identity or secret exchange was rejected.
/// `Rejected`: the server answered a command with a negative status line.
/// `Io`: a transport-level failure. `ParseError`: malformed message or
/// response bytes. `NotConnected`: an operation needing a live session was
/// attempted without one.
#[derive(Debug)]
pub enum ProtocolError {
    ConfigMissing,
    BadGreeting(Vec<u8>),
    AuthFailed(Vec<u8>),
    Rejected(Vec<u8>),
    Io(String),
    ParseError,
    NotConnected,
}

/// Errors arising from account CRUD on the configuration.
#[derive(Debug)]
pub enum ConfigError {
    /// An account with the given id already exists.
    DuplicateId,
    /// No account with the given id exists.
    UnknownId,
}

/// Errors arising from the embedded key-value cache.
#[derive(Debug)]
pub enum StorageError {
    /// The backing store reported a failure; the text is its message.
    Backend(String),
    /// A stored record did not decode as a message.
    Corrupt,
}

} // verus!
