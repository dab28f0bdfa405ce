//! What the socket layer below the endpoint shares with it: the mode of a
//! socket, and the events that a socket reports while packets are sent or
//! received.

use core::ops::ControlFlow;
use std::io;
use vstd::prelude::*;

verus! {

/// `std::io::Error`, the error of a socket call. Nothing is claimed of
/// it: it is only handed through.
#[verifier::external_type_specification]
#[verifier::external_body]
pub struct ExIoError(std::io::Error);

/// Whether calls on a socket wait for the socket to be ready.
#[derive(Clone, Copy, Debug, PartialEq, Eq, Structural)]
pub enum SocketType {
    Blocking,
    NonBlocking,
}

/// Is told what happens on a socket, and says after each event whether the
/// socket goes on (`Continue`) or stops (`Break`).
pub trait SocketEvents {
    /// Called when `count` packets are completed
    fn on_complete(&mut self, count: usize) -> ControlFlow<(), ()>;

    /// Called when an error occurs on a socket
    fn on_error(&mut self, error: io::Error) -> ControlFlow<(), ()>;
}

} // verus!
