//! The transport that carries the protocol's bytes.

use vstd::prelude::*;

verus! {

/// A byte-oriented duplex channel between the engine and the debugger.
///
/// The engine knows nothing of a connection but these operations: whatever an
/// implementation returns, the engine's own guarantees hold.
pub trait Connection {
    /// Why an operation on the transport failed.
    type Error;

    /// Waits until one byte is available and returns it.
    fn read(&mut self) -> Result<u8, Self::Error>;

    /// Returns the next byte if one is pending, `None` at once if none is.
    fn read_nonblocking(&mut self) -> Result<Option<u8>, Self::Error>;

    /// Sends one byte.
    fn write(&mut self, byte: u8) -> Result<(), Self::Error>;

    /// Pushes out what `write` may have buffered.
    fn flush(&mut self) -> Result<(), Self::Error>;
}

/// How the engine waits for the debugger.
#[derive(Debug, Clone, Copy, PartialEq, Eq, Structural)]
pub enum ReceiveMode {
    /// Wait for the first byte of a packet.
    Blocking,
    /// Take a packet only if its first byte is already pending.
    Polling,
}

} // verus!
