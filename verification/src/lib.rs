//! A verified core for a personal mail-synchronization client.
//!
//! The library contains the protocol session engine: the byte-stream
//! framer that turns raw reads into response lines, the POP3 and SMTP
//! session state machines, and the reconciliation and atomic-commit
//! logic for a maildir-style local mailbox. All I/O (sockets, TLS,
//! files, credential resolution) lives outside the library and hands
//! plain byte values in and out.

pub mod config;
pub mod errors;
pub mod framer;
pub mod lines;
pub mod maildir;
pub mod pop;
mod secret;
pub mod smtp;
