//! The response writer: gathers a reply's payload and sends it as one frame.

use vstd::prelude::*;
use vstd::string::StringSliceAdditionalSpecFns;

use crate::connection::Connection;
use crate::protocol::packet::frame;
use crate::protocol::wire::{cut_short, flushes_owed, Wire};

verus! {

/// An accumulator for the payload of one reply, bound to the wire that the
/// reply goes to for as long as it lives.
pub struct ResponseWriter<'a, C: Connection> {
    /// The wire that the reply goes to.
    pub wire: &'a mut Wire<C>,
    /// The payload gathered and not yet sent.
    pub payload: Vec<u8>,
}

impl<'a, C: Connection> ResponseWriter<'a, C> {
    /// A writer with nothing gathered. The wire is the writer's until the
    /// writer is let go of, and is then as the writer left it.
    pub fn new(wire: &'a mut Wire<C>) -> (writer: Self)
        ensures
            *writer.wire == *old(wire),
            *final(wire) == *final(writer.wire),
            writer.payload@ == Seq::<u8>::empty(),
    {
        ResponseWriter { wire, payload: Vec::new() }
    }

    /// Appends bytes to the payload. Nothing is sent.
    pub fn write_bytes(&mut self, bytes: &[u8])
        ensures
            final(self).payload@ == old(self).payload@ + bytes@,
            *final(self).wire == *old(self).wire,
            *final(final(self).wire) == *final(old(self).wire),
    {
        let mut i: usize = 0;
        proof {
            assert(old(self).payload@ + bytes@.take(0) =~= old(self).payload@);
        }
        while i < bytes.len()
            invariant
                i <= bytes.len(),
                self.payload@ == old(self).payload@ + bytes@.take(i as int),
                *self.wire == *old(self).wire,
                *final(self.wire) == *final(old(self).wire),
            decreases bytes.len() - i,
        {
            self.payload.push(bytes[i]);
            proof {
                assert(old(self).payload@ + bytes@.take(i + 1) =~= (old(self).payload@
                    + bytes@.take(i as int)).push(bytes@[i as int]));
            }
            i += 1;
        }
        proof {
            assert(bytes@.take(i as int) =~= bytes@);
        }
    }

    /// Appends the bytes of a text to the payload. Nothing is sent.
    pub fn write_str(&mut self, text: &str)
        ensures
            final(self).payload@ == old(self).payload@ + text.spec_bytes(),
            *final(self).wire == *old(self).wire,
            *final(final(self).wire) == *final(old(self).wire),
    {
        self.write_bytes(text.as_bytes());
    }

    /// Sends the payload gathered so far as one frame, flushes the transport,
    /// and lets go of the payload: the next flush starts from nothing. With
    /// nothing gathered the frame is the empty reply. Where the transport
    /// fails, its failure is returned and the sending was cut short.
    pub fn flush(&mut self) -> (r: Result<(), C::Error>)
        ensures
            final(self).payload@ == Seq::<u8>::empty(),
            final(self).wire.read_nothing_since(old(self).wire),
            final(self).wire.answered(old(self).wire, r),
            final(self).wire.flushes() == old(self).wire.flushes() + flushes_owed(
                final(self).wire.sent(),
                old(self).wire.sent(),
                frame(old(self).payload@),
            ),
            match r {
                Ok(_) => final(self).wire.sent() == old(self).wire.sent() + frame(
                    old(self).payload@,
                ) && final(self).wire.offered() == old(self).wire.offered() + frame(
                    old(self).payload@,
                ),
                Err(_) => cut_short(
                    final(self).wire.offered(),
                    final(self).wire.sent(),
                    old(self).wire.offered(),
                    old(self).wire.sent(),
                    frame(old(self).payload@),
                ),
            },
            *final(final(self).wire) == *final(old(self).wire),
    {
        let r = self.wire.write_response(self.payload.as_slice());
        self.payload.clear();
        r
    }
}

} // verus!
