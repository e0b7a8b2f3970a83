//! The failures of a debugging session.

use vstd::prelude::*;

verus! {

/// What ends a session, by where it arose: in the target (`T`), in the
/// transport (`C`), or in the decoding of a packet.
#[derive(Debug)]
pub enum Error<T, C> {
    /// An operation on the transport failed.
    Connection(C),
    /// The target failed to execute.
    Target(T),
    /// Received bytes are no packet; the text says why.
    PacketParse(String),
}

impl<T, C> Error<T, C> {
    /// Whether the session cannot go on after this failure. A broken
    /// transport or target ends it; bytes that are no packet do not: they are
    /// answered with a negative acknowledgment.
    pub fn ends_session(&self) -> (fatal: bool)
        ensures
            fatal <==> !(self is PacketParse),
    {
        match self {
            Error::Connection(_) => true,
            Error::Target(_) => true,
            Error::PacketParse(_) => false,
        }
    }
}

} // verus!
