//! The TLS side of a QUIC endpoint: wire registries, handshake record
//! framing, a cursor over chunked handshake bytes, ClientHello field
//! extraction, and the contract between a QUIC engine and a TLS engine.
//!
//! Beside it stand the rules by which the crates of the endpoint are
//! released: versions and their bumps, the reading of what `cargo tree`
//! and `git` print, and the plan of the bumps that a set of changes asks
//! for.

pub mod buffer;
pub mod cipher_suite;
pub mod client_hello;
pub mod cursor;
pub mod error;
pub mod event;
pub mod extension;
pub mod handshake;
pub mod keys;
pub mod listing;
pub mod plan;
pub mod release;
pub mod session;
pub mod socket;
pub mod text;
