//! The outcomes of operations that do not wait.
use vstd::prelude::*;

verus! {

/// Whether a value is there yet.
#[derive(Debug, PartialEq, Eq)]
pub enum Async<T> {
    /// The value is there.
    Ready(T),
    /// It is not; the task that asked is notified when it may be.
    NotReady,
}

/// Whether a sink has taken an item.
#[derive(Debug, PartialEq, Eq)]
pub enum AsyncSink<T> {
    /// The item was taken.
    Ready,
    /// The item was not taken, and is handed back.
    NotReady(T),
}

/// Why an operation on a `UdpStream` did not succeed.
#[derive(Debug, PartialEq, Eq)]
pub enum StreamError {
    /// The operation would have to wait.
    WouldBlock,
    /// The payload is longer than the buffer that it was to be read into.
    BufferOverrun,
    /// The server does not communicate with the peer any more.
    Closed,
}

/// Why an operation on a connected socket did not succeed.
#[derive(Debug, PartialEq, Eq)]
pub enum SocketError<E> {
    /// The operation would have to wait.
    WouldBlock,
    /// The socket's own reason.
    Io(E),
}

/// Why a datagram was not written.
#[derive(Debug, PartialEq, Eq)]
pub enum WriteError<E> {
    /// Only part of the datagram could be written.
    BufferOverrun,
    /// The writer's own reason.
    Io(E),
}

} // verus!
