//! Moving packets over a [`Connection`], with a record of what went over it.

use vstd::prelude::*;

use crate::connection::{Connection, ReceiveMode};
use crate::protocol::ascii::{DOLLAR, HASH};
use crate::protocol::fields::{lemma_absent, lemma_first_at};
use crate::protocol::packet::{
    decode, encode_frame, frame, lemma_frame_not_empty, Packet, PacketError, PacketView,
};

verus! {

/// A transport together with the record of what was asked of it and of what
/// it answered.
///
/// The record is kept by the methods of this type and by nothing else. Every
/// byte handed to the transport's `write` is entered as offered, and as sent
/// when the transport has accepted it; a byte is entered as received when one
/// of the transport's reads has delivered it. Each call of the transport's
/// blocking `read` is counted as a wait, each call of `read_nonblocking` as a
/// poll, and each call of `flush` as a flush; and every failure that the
/// transport answers with is entered, in order. The record says what the
/// engine did with the transport, whatever the transport is.
pub struct Wire<C: Connection> {
    conn: C,
    offered: Ghost<Seq<u8>>,
    sent: Ghost<Seq<u8>>,
    flushes: Ghost<nat>,
    received: Ghost<Seq<u8>>,
    waits: Ghost<nat>,
    polls: Ghost<nat>,
    failures: Ghost<Seq<C::Error>>,
}

/// How far the sending of `bytes` got where the transport failed: the first
/// `n` of them were sent; and either the next one was offered and refused, or
/// all were sent and it was the flush after them that failed. Nothing was
/// offered twice, and nothing after the refusal.
pub open spec fn cut_short(
    offered_after: Seq<u8>,
    sent_after: Seq<u8>,
    offered_before: Seq<u8>,
    sent_before: Seq<u8>,
    bytes: Seq<u8>,
) -> bool {
    exists|n: int|
        0 <= n <= bytes.len() && sent_after == sent_before + #[trigger] bytes.take(n)
            && offered_after == offered_before + bytes.take(
            if n < bytes.len() {
                n + 1
            } else {
                n
            },
        )
}

/// How often the transport is asked to flush when `bytes` are to go out: once
/// if there are any and it accepted them all, otherwise not at all.
pub open spec fn flushes_owed(after: Seq<u8>, before: Seq<u8>, bytes: Seq<u8>) -> nat {
    if bytes.len() > 0 && after == before + bytes {
        1
    } else {
        0
    }
}

/// How often one reception polls the transport: once in polling mode, for
/// the first byte, and never in blocking mode.
pub open spec fn polls_for(mode: ReceiveMode) -> nat {
    match mode {
        ReceiveMode::Polling => 1,
        ReceiveMode::Blocking => 0,
    }
}

/// How often one reception waits on the transport, given how many bytes it
/// took and whether it failed: once for each byte it took that it did not
/// poll for, and once more for the read that failed, unless that was the
/// poll.
pub open spec fn waits_for(mode: ReceiveMode, taken: nat, failed: bool) -> nat {
    let last: nat = if failed {
        1
    } else {
        0
    };
    match mode {
        ReceiveMode::Blocking => taken + last,
        ReceiveMode::Polling => if taken == 0 {
            0
        } else {
            (taken - 1 + last) as nat
        },
    }
}

/// The shape of what one reception stores: a single byte that opens no frame,
/// or a frame from its `$` to the second byte after its first `#`, or, where
/// memory cannot hold more, the start of a frame.
pub open spec fn is_unit(buf: Seq<u8>) -> bool {
    &&& buf.len() >= 1
    &&& buf[0] != DOLLAR ==> buf.len() == 1
    &&& buf[0] == DOLLAR ==> buf.index_of_first(HASH) == Some(buf.len() - 3) || (buf.len()
        >= usize::MAX - 2 && buf.index_of_first(HASH) is None)
}

/// The refusal of the first of `bytes` cuts their sending short before any
/// of them was sent.
pub proof fn lemma_cut_short_at_once(offered: Seq<u8>, sent: Seq<u8>, bytes: Seq<u8>)
    requires
        bytes.len() > 0,
    ensures
        cut_short(offered.push(bytes[0]), sent, offered, sent, bytes),
{
    assert(sent == sent + bytes.take(0));
    assert(offered.push(bytes[0]) == offered + bytes.take(1));
}

/// A failure of the flush cuts the sending of `bytes` short after all of
/// them were sent.
pub proof fn lemma_cut_short_at_flush(offered: Seq<u8>, sent: Seq<u8>, bytes: Seq<u8>)
    ensures
        cut_short(offered + bytes, sent + bytes, offered, sent, bytes),
{
    assert(bytes.take(bytes.len() as int) == bytes);
}

/// Where `b` was sent and the sending of `bytes` after it was cut short, the
/// sending of `b` followed by `bytes` was cut short.
pub proof fn lemma_cut_short_after_byte(
    offered_after: Seq<u8>,
    sent_after: Seq<u8>,
    offered: Seq<u8>,
    sent: Seq<u8>,
    b: u8,
    bytes: Seq<u8>,
)
    requires
        cut_short(offered_after, sent_after, offered.push(b), sent.push(b), bytes),
    ensures
        cut_short(offered_after, sent_after, offered, sent, seq![b] + bytes),
{
    let n = choose|n: int|
        0 <= n <= bytes.len() && sent_after == sent.push(b) + #[trigger] bytes.take(n)
            && offered_after == offered.push(b) + bytes.take(
            if n < bytes.len() {
                n + 1
            } else {
                n
            },
        );
    let all = seq![b] + bytes;
    let m = if n < bytes.len() {
        n + 1
    } else {
        n
    };
    assert(all.take(n + 1) == seq![b] + bytes.take(n));
    assert(all.take(m + 1) == seq![b] + bytes.take(m));
    assert(sent.push(b) + bytes.take(n) == sent + all.take(n + 1));
    assert(offered.push(b) + bytes.take(m) == offered + all.take(m + 1));
}

/// Sending that was cut short sent fewer bytes than all, unless it was the
/// flush that failed.
pub proof fn lemma_cut_short_sent(
    offered_after: Seq<u8>,
    sent_after: Seq<u8>,
    offered_before: Seq<u8>,
    sent_before: Seq<u8>,
    bytes: Seq<u8>,
)
    requires
        cut_short(offered_after, sent_after, offered_before, sent_before, bytes),
    ensures
        sent_before.is_prefix_of(sent_after),
        sent_after.len() <= sent_before.len() + bytes.len(),
        sent_after == sent_before + bytes <==> sent_after.len() == sent_before.len() + bytes.len(),
{
    let n = choose|n: int|
        0 <= n <= bytes.len() && sent_after == sent_before + #[trigger] bytes.take(n)
            && offered_after == offered_before + bytes.take(
            if n < bytes.len() {
                n + 1
            } else {
                n
            },
        );
    if n == bytes.len() {
        assert(bytes.take(n) == bytes);
    }
    assert((sent_before + bytes).len() == sent_before.len() + bytes.len());
}

impl<C: Connection> Wire<C> {
    /// The transport.
    pub closed spec fn connection(&self) -> C {
        self.conn
    }

    /// The bytes that were handed to the transport's `write`, oldest first,
    /// whether it accepted them or not.
    pub closed spec fn offered(&self) -> Seq<u8> {
        self.offered@
    }

    /// The bytes that the transport accepted, oldest first.
    pub closed spec fn sent(&self) -> Seq<u8> {
        self.sent@
    }

    /// How many times the transport was asked to flush.
    pub closed spec fn flushes(&self) -> nat {
        self.flushes@
    }

    /// The bytes that the transport delivered, oldest first.
    pub closed spec fn received(&self) -> Seq<u8> {
        self.received@
    }

    /// How many times the transport was waited on for a byte.
    pub closed spec fn waits(&self) -> nat {
        self.waits@
    }

    /// How many times the transport was polled for a pending byte.
    pub closed spec fn polls(&self) -> nat {
        self.polls@
    }

    /// The failures that the transport answered with, oldest first.
    pub closed spec fn failures(&self) -> Seq<C::Error> {
        self.failures@
    }

    /// The transport answered `r` to the one thing asked of it since the wire
    /// was as `before`: a failure is entered, and nothing else is.
    pub open spec fn answered<V>(&self, before: &Self, r: Result<V, C::Error>) -> bool {
        self.failures() == match r {
            Ok(_) => before.failures(),
            Err(e) => before.failures().push(e),
        }
    }

    /// The bytes received since the wire was as `before`.
    pub open spec fn taken_since(&self, before: &Self) -> Seq<u8> {
        self.received().skip(before.received().len() as int)
    }

    /// One sending of `bytes`, with a flush after the last of them, was made
    /// since the wire was as `before`, and nothing else: where it did not
    /// fail, all of them were offered and sent, each once; where it failed,
    /// it was cut short. The transport was asked to flush, once, exactly if
    /// there were bytes and it accepted them all.
    pub open spec fn sent_once(&self, before: &Self, bytes: Seq<u8>, failed: bool) -> bool {
        &&& self.read_nothing_since(before)
        &&& self.flushes() == before.flushes() + flushes_owed(self.sent(), before.sent(), bytes)
        &&& if failed {
            cut_short(self.offered(), self.sent(), before.offered(), before.sent(), bytes)
        } else {
            self.sent() == before.sent() + bytes && self.offered() == before.offered() + bytes
        }
    }

    /// One reception in `mode` was made since the wire was as `before`. It
    /// polled and waited as the mode has it; where it failed it stopped at
    /// the failure, short of a whole unit; and where it did not, it took one
    /// unit and no byte more, or found nothing pending, which only polling
    /// can.
    pub open spec fn received_once(&self, before: &Self, mode: ReceiveMode, failed: bool) -> bool {
        let taken = self.taken_since(before);
        &&& self.received() == before.received() + taken
        &&& self.polls() == before.polls() + polls_for(mode)
        &&& self.waits() == before.waits() + waits_for(mode, taken.len(), failed)
        &&& failed ==> !is_unit(taken)
        &&& !failed && taken.len() > 0 ==> is_unit(taken)
        &&& !failed && mode == ReceiveMode::Blocking ==> taken.len() > 0
    }

    /// Nothing was asked of the transport's writing side since the wire was
    /// as `before`.
    pub open spec fn wrote_nothing_since(&self, before: &Self) -> bool {
        &&& self.offered() == before.offered()
        &&& self.sent() == before.sent()
        &&& self.flushes() == before.flushes()
    }

    /// Nothing was asked of the transport's reading side since the wire was
    /// as `before`.
    pub open spec fn read_nothing_since(&self, before: &Self) -> bool {
        &&& self.received() == before.received()
        &&& self.waits() == before.waits()
        &&& self.polls() == before.polls()
    }

    /// A wire over `conn`, of which nothing was asked yet.
    pub fn new(conn: C) -> (wire: Self)
        ensures
            wire.connection() == conn,
            wire.offered() == Seq::<u8>::empty(),
            wire.sent() == Seq::<u8>::empty(),
            wire.flushes() == 0,
            wire.received() == Seq::<u8>::empty(),
            wire.waits() == 0,
            wire.polls() == 0,
            wire.failures() == Seq::<C::Error>::empty(),
    {
        Wire {
            conn,
            offered: Ghost(Seq::empty()),
            sent: Ghost(Seq::empty()),
            flushes: Ghost(0),
            received: Ghost(Seq::empty()),
            waits: Ghost(0),
            polls: Ghost(0),
            failures: Ghost(Seq::empty()),
        }
    }

    /// Looks at the transport.
    pub fn inner(&self) -> (conn: &C)
        ensures
            *conn == self.connection(),
    {
        &self.conn
    }

    /// Hands the transport back.
    pub fn into_inner(self) -> (conn: C)
        ensures
            conn == self.connection(),
    {
        self.conn
    }

    /// Waits on the transport for one byte, and hands on what the transport
    /// answers: a byte, which is then received, or its failure.
    pub fn read(&mut self) -> (r: Result<u8, C::Error>)
        ensures
            final(self).wrote_nothing_since(old(self)),
            final(self).answered(old(self), r),
            final(self).waits() == old(self).waits() + 1,
            final(self).polls() == old(self).polls(),
            final(self).received() == match r {
                Ok(byte) => old(self).received().push(byte),
                Err(_) => old(self).received(),
            },
    {
        self.waits = Ghost(self.waits@ + 1);
        let r = self.conn.read();
        match r {
            Ok(byte) => {
                self.received = Ghost(self.received@.push(byte));
                Ok(byte)
            },
            Err(e) => {
                self.failures = Ghost(self.failures@.push(e));
                Err(e)
            },
        }
    }

    /// Polls the transport once for a pending byte, without waiting, and
    /// hands on what the transport answers: a byte, which is then received,
    /// or that none is pending, or its failure.
    pub fn read_nonblocking(&mut self) -> (r: Result<Option<u8>, C::Error>)
        ensures
            final(self).wrote_nothing_since(old(self)),
            final(self).answered(old(self), r),
            final(self).waits() == old(self).waits(),
            final(self).polls() == old(self).polls() + 1,
            final(self).received() == match r {
                Ok(Some(byte)) => old(self).received().push(byte),
                _ => old(self).received(),
            },
    {
        self.polls = Ghost(self.polls@ + 1);
        let r = self.conn.read_nonblocking();
        match r {
            Ok(Some(byte)) => {
                self.received = Ghost(self.received@.push(byte));
                Ok(Some(byte))
            },
            Ok(None) => Ok(None),
            Err(e) => {
                self.failures = Ghost(self.failures@.push(e));
                Err(e)
            },
        }
    }

    /// Offers `byte` to the transport, once, and hands on what the transport
    /// answers: that it accepted the byte, which is then sent, or its
    /// failure.
    pub fn write(&mut self, byte: u8) -> (r: Result<(), C::Error>)
        ensures
            final(self).read_nothing_since(old(self)),
            final(self).answered(old(self), r),
            final(self).flushes() == old(self).flushes(),
            final(self).offered() == old(self).offered().push(byte),
            final(self).sent() == match r {
                Ok(_) => old(self).sent().push(byte),
                Err(_) => old(self).sent(),
            },
    {
        self.offered = Ghost(self.offered@.push(byte));
        let r = self.conn.write(byte);
        match r {
            Ok(()) => {
                self.sent = Ghost(self.sent@.push(byte));
                Ok(())
            },
            Err(e) => {
                self.failures = Ghost(self.failures@.push(e));
                Err(e)
            },
        }
    }

    /// Asks the transport, once, to push out what it may have buffered, and
    /// hands on what the transport answers. No byte is offered or read.
    pub fn flush(&mut self) -> (r: Result<(), C::Error>)
        ensures
            final(self).read_nothing_since(old(self)),
            final(self).answered(old(self), r),
            final(self).offered() == old(self).offered(),
            final(self).sent() == old(self).sent(),
            final(self).flushes() == old(self).flushes() + 1,
    {
        self.flushes = Ghost(self.flushes@ + 1);
        let r = self.conn.flush();
        match r {
            Ok(()) => Ok(()),
            Err(e) => {
                self.failures = Ghost(self.failures@.push(e));
                Err(e)
            },
        }
    }

    /// Sends the bytes of `bytes` in order, each offered once, and stops at
    /// the first that the transport refuses: then the bytes before it were
    /// sent, it was offered and refused, and none after it was offered. There
    /// is no retry.
    pub fn write_all(&mut self, bytes: &[u8]) -> (r: Result<(), C::Error>)
        ensures
            final(self).read_nothing_since(old(self)),
            final(self).answered(old(self), r),
            final(self).flushes() == old(self).flushes(),
            match r {
                Ok(_) => final(self).sent() == old(self).sent() + bytes@ && final(self).offered()
                    == old(self).offered() + bytes@,
                Err(_) => exists|n: int|
                    0 <= n < bytes@.len() && final(self).sent() == old(self).sent()
                        + #[trigger] bytes@.take(n) && final(self).offered() == old(self).offered()
                        + bytes@.take(n + 1),
            },
            bytes@.len() == 0 ==> r is Ok,
    {
        let mut i: usize = 0;
        proof {
            assert(old(self).sent() + bytes@.take(0) =~= old(self).sent());
            assert(old(self).offered() + bytes@.take(0) =~= old(self).offered());
        }
        while i < bytes.len()
            invariant
                i <= bytes.len(),
                self.read_nothing_since(old(self)),
                self.failures() == old(self).failures(),
                self.flushes() == old(self).flushes(),
                self.sent() == old(self).sent() + bytes@.take(i as int),
                self.offered() == old(self).offered() + bytes@.take(i as int),
            decreases bytes.len() - i,
        {
            let outcome = self.write(bytes[i]);
            proof {
                assert(bytes@.take(i + 1) =~= bytes@.take(i as int).push(bytes@[i as int]));
                assert(old(self).sent() + bytes@.take(i + 1) =~= (old(self).sent() + bytes@.take(
                    i as int,
                )).push(bytes@[i as int]));
                assert(old(self).offered() + bytes@.take(i + 1) =~= (old(self).offered()
                    + bytes@.take(i as int)).push(bytes@[i as int]));
            }
            match outcome {
                Ok(()) => {},
                Err(e) => {
                    return Err(e);
                },
            }
            i += 1;
        }
        proof {
            assert(bytes@.take(i as int) =~= bytes@);
        }
        Ok(())
    }

    /// Sends `payload` as one frame and then flushes the transport. A
    /// failure of the transport is returned as it is, without a retry: then
    /// the sending was cut short. The transport is asked to flush, once,
    /// exactly if it accepted the whole frame.
    pub fn write_response(&mut self, payload: &[u8]) -> (r: Result<(), C::Error>)
        ensures
            final(self).read_nothing_since(old(self)),
            final(self).answered(old(self), r),
            final(self).flushes() == old(self).flushes() + flushes_owed(
                final(self).sent(),
                old(self).sent(),
                frame(payload@),
            ),
            match r {
                Ok(_) => final(self).sent() == old(self).sent() + frame(payload@)
                    && final(self).offered() == old(self).offered() + frame(payload@),
                Err(_) => cut_short(
                    final(self).offered(),
                    final(self).sent(),
                    old(self).offered(),
                    old(self).sent(),
                    frame(payload@),
                ),
            },
    {
        let wire: Vec<u8> = encode_frame(payload);
        proof {
            lemma_frame_not_empty(payload@);
        }
        match self.write_all(wire.as_slice()) {
            Ok(()) => {
                let r = self.flush();
                proof {
                    lemma_cut_short_at_flush(old(self).offered(), old(self).sent(), wire@);
                }
                r
            },
            Err(e) => {
                proof {
                    let whole = frame(payload@);
                    let n = choose|n: int|
                        0 <= n < whole.len() && self.sent() == old(self).sent()
                            + #[trigger] whole.take(n) && self.offered() == old(self).offered()
                            + whole.take(n + 1);
                    assert((old(self).sent() + whole.take(n)).len() < (old(self).sent()
                        + whole).len());
                }
                Err(e)
            },
        }
    }

    /// Reads the bytes of one packet into `buf` and returns whether there was
    /// a packet to read.
    ///
    /// In blocking mode it waits for the first byte; in polling mode it polls
    /// for it, once, and returns `false` at once where none is pending. Until
    /// a first byte has arrived `buf` is left as it is; then it is emptied
    /// and holds exactly the bytes that were read. After a `+` or `-`, or any
    /// other byte that opens no frame, nothing more is read. After a `$` the
    /// bytes up to the first `#` and two more are read, each waited for. A
    /// failure of the transport is returned as it is, and nothing is read
    /// after it.
    pub fn receive_bytes(&mut self, mode: ReceiveMode, buf: &mut Vec<u8>) -> (r: Result<
        bool,
        C::Error,
    >)
        ensures
            final(self).wrote_nothing_since(old(self)),
            final(self).answered(old(self), r),
            final(self).received_once(old(self), mode, r is Err),
            final(buf)@ == if final(self).taken_since(old(self)).len() == 0 {
                old(buf)@
            } else {
                final(self).taken_since(old(self))
            },
            r matches Ok(found) ==> found == (final(self).taken_since(old(self)).len() > 0),
    {
        let ghost start = self.received();
        proof {
            assert(start.skip(start.len() as int) =~= Seq::<u8>::empty());
            assert(start + Seq::<u8>::empty() =~= start);
        }
        let header: u8 = match mode {
            ReceiveMode::Blocking => match self.read() {
                Ok(b) => b,
                Err(e) => {
                    return Err(e);
                },
            },
            ReceiveMode::Polling => match self.read_nonblocking() {
                Ok(Some(b)) => b,
                Ok(None) => {
                    return Ok(false);
                },
                Err(e) => {
                    return Err(e);
                },
            },
        };
        buf.clear();
        buf.push(header);
        proof {
            assert(start + buf@ =~= start.push(header));
            assert((start + buf@).skip(start.len() as int) =~= buf@);
        }
        if header != DOLLAR {
            return Ok(true);
        }
        while buf.len() < usize::MAX - 2
            invariant
                buf@.len() >= 1,
                buf@[0] == DOLLAR,
                forall|j: int| 0 <= j < buf@.len() ==> buf@[j] != HASH,
                start == old(self).received(),
                self.wrote_nothing_since(old(self)),
                self.failures() == old(self).failures(),
                self.polls() == old(self).polls() + polls_for(mode),
                self.waits() == old(self).waits() + buf@.len() - polls_for(mode),
                self.received() == start + buf@,
            decreases usize::MAX - buf.len(),
        {
            let ghost so_far = buf@;
            proof {
                assert((start + so_far).skip(start.len() as int) =~= so_far);
                lemma_absent(so_far, HASH);
            }
            let b: u8 = match self.read() {
                Ok(b) => b,
                Err(e) => {
                    return Err(e);
                },
            };
            buf.push(b);
            proof {
                assert(start + buf@ =~= (start + so_far).push(b));
                assert((start + buf@).skip(start.len() as int) =~= buf@);
            }
            if b == HASH {
                let ghost end = so_far.len() as int;
                let ghost with_hash = buf@;
                proof {
                    lemma_first_at(with_hash, HASH, end);
                }
                let high: u8 = match self.read() {
                    Ok(b) => b,
                    Err(e) => {
                        return Err(e);
                    },
                };
                buf.push(high);
                let ghost with_high = buf@;
                proof {
                    assert(start + with_high =~= (start + with_hash).push(high));
                    assert((start + with_high).skip(start.len() as int) =~= with_high);
                    lemma_first_at(with_high, HASH, end);
                }
                let low: u8 = match self.read() {
                    Ok(b) => b,
                    Err(e) => {
                        return Err(e);
                    },
                };
                buf.push(low);
                proof {
                    assert(start + buf@ =~= (start + with_high).push(low));
                    assert((start + buf@).skip(start.len() as int) =~= buf@);
                    lemma_first_at(buf@, HASH, end);
                }
                return Ok(true);
            }
        }
        proof {
            lemma_absent(buf@, HASH);
            assert((start + buf@).skip(start.len() as int) =~= buf@);
        }
        Ok(true)
    }

    /// Receives one packet: consumes exactly one logical unit from the
    /// transport and decodes it. `Ok(None)` says that nothing was pending,
    /// which only polling can find; `buf` is then left as it is. A unit that
    /// is no packet is returned as the inner error: the transport is intact,
    /// and the caller owes the peer a negative acknowledgment.
    pub fn receive_packet(&mut self, mode: ReceiveMode, buf: &mut Vec<u8>) -> (r: Result<
        Option<Result<Packet, PacketError>>,
        C::Error,
    >)
        ensures
            final(self).wrote_nothing_since(old(self)),
            final(self).answered(old(self), r),
            final(self).received_once(old(self), mode, r is Err),
            final(buf)@ == if final(self).taken_since(old(self)).len() == 0 {
                old(buf)@
            } else {
                final(self).taken_since(old(self))
            },
            match r {
                Ok(None) => final(self).taken_since(old(self)).len() == 0,
                Ok(Some(Ok(packet))) => final(self).taken_since(old(self)).len() > 0 && decode(
                    final(self).taken_since(old(self)),
                ) == Ok::<PacketView, PacketError>(packet@),
                Ok(Some(Err(e))) => final(self).taken_since(old(self)).len() > 0 && decode(
                    final(self).taken_since(old(self)),
                ) == Err::<PacketView, PacketError>(e),
                Err(_) => true,
            },
    {
        match self.receive_bytes(mode, buf) {
            Ok(true) => Ok(Some(Packet::from_buf(buf.as_slice()))),
            Ok(false) => Ok(None),
            Err(e) => Err(e),
        }
    }
}

} // verus!
