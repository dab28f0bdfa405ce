//! Errors of the wire parsers and of the handshake.

use vstd::prelude::*;

verus! {

/// The input ended before a field did: a read asked for `requested` bytes
/// where only `available` were left.
#[derive(Clone, Copy, Debug, PartialEq, Eq, Structural)]
pub struct Truncated {
    pub requested: usize,
    pub available: usize,
}

/// The encryption levels of a connection, in the order in which their keys
/// become available.
#[derive(Clone, Copy, Debug, PartialEq, Eq, Structural)]
pub enum Level {
    Initial,
    Handshake,
    ZeroRtt,
    OneRtt,
}

/// Why a handshake has failed. A failure is final: the connection is torn
/// down and the session is not driven again.
#[derive(Clone, Copy, Debug, PartialEq, Eq, Structural)]
pub enum HandshakeError {
    /// Keys of the level were offered before the keys that they follow.
    KeysOutOfOrder(Level),
    /// Keys of the level were offered a second time.
    KeysRepeated(Level),
    /// Completion was reported before the one-rtt keys were installed.
    CompletionOutOfOrder,
    /// Completion was reported a second time.
    CompletionRepeated,
    /// The TLS engine reported that it was done before the handshake was
    /// complete.
    Incomplete,
    /// Bytes of the level were handed over for sending where the transport
    /// had no room for them.
    SendWithoutRoom(Level),
    /// The context was called after the handshake had failed.
    AfterFailure,
    /// The transport or the TLS engine gave up, with its error code.
    Transport { code: u64 },
}

} // verus!
