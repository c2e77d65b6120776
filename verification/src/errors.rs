//! The error kinds of a mail session. Every kind is fatal for the
//! account's session: there is no retry layer, and the offending
//! server reply travels with the error so the operator can read it.

use vstd::prelude::*;

verus! {

/// Why a session was abandoned.
#[derive(Debug, PartialEq, Eq)]
pub enum MailError {
    /// DNS or TCP failure while opening the transport.
    Connection { detail: Vec<u8> },
    /// The security upgrade handshake failed.
    Handshake { detail: Vec<u8> },
    /// A server reply did not match the expected success marker or
    /// shape; carries the literal offending line.
    Protocol { reply: Vec<u8> },
    /// A credential was rejected; carries the literal reply.
    Auth { reply: Vec<u8> },
    /// A local filesystem failure.
    Io { detail: Vec<u8> },
    /// The local high-water mark exceeds the remote message count:
    /// messages vanished server-side, which must not be resolved by
    /// guessing.
    Consistency { local: u32, remote: u32 },
}

} // verus!
