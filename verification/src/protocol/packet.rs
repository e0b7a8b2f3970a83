//! The packet codec: checksums, escaping, and the framing of packets.
//!
//! On the wire a packet is a bare `+` or `-`, or a frame `$<body>#<xx>`: the
//! body is the payload with its reserved bytes escaped, and `xx` writes the
//! checksum of the body as two hexadecimal digits.

use vstd::prelude::*;

use crate::protocol::ascii::{BRACE, DOLLAR, HASH, MINUS, PLUS, STAR};
use crate::protocol::fields::{lemma_first_at, position};
use crate::protocol::hex::{digit, digit_char, digit_value, lemma_digit_round_trip, to_digits};

verus! {

/// One logical unit of wire communication.
#[derive(Debug, Clone, PartialEq, Eq)]
pub enum Packet {
    /// The peer received the last frame intact.
    Ack,
    /// The peer asks for the last frame again.
    Nack,
    /// A framed command, holding its payload with escapes undone.
    Command(Vec<u8>),
}

/// The mathematical value of a [`Packet`].
pub enum PacketView {
    Ack,
    Nack,
    Command(Seq<u8>),
}

impl View for Packet {
    type V = PacketView;

    open spec fn view(&self) -> PacketView {
        match self {
            Packet::Ack => PacketView::Ack,
            Packet::Nack => PacketView::Nack,
            Packet::Command(payload) => PacketView::Command(payload@),
        }
    }
}

/// Why a run of bytes is no packet.
#[derive(Debug, Clone, Copy, PartialEq, Eq, Structural)]
pub enum PacketError {
    /// There are no bytes at all.
    Empty,
    /// The first byte is none of `+`, `-` and `$`.
    BadHeader,
    /// The frame ends before its two checksum digits.
    Truncated,
    /// Bytes follow the end of the packet.
    TrailingBytes,
    /// A checksum byte is no hexadecimal digit.
    BadChecksumDigits,
    /// The transmitted checksum is not the checksum of the body.
    ChecksumMismatch,
    /// The body ends in the middle of an escape.
    BadEscape,
}

/// The 8-bit sum of the bytes of `s`.
pub open spec fn checksum(s: Seq<u8>) -> nat
    decreases s.len(),
{
    if s.len() == 0 {
        0
    } else {
        ((checksum(s.drop_last()) + s.last()) % 256) as nat
    }
}

/// A byte that may not stand for itself in a frame's body.
pub open spec fn is_reserved(b: u8) -> bool {
    b == DOLLAR || b == HASH || b == STAR || b == BRACE
}

/// How one payload byte is written in a body: a reserved byte as `}` and the
/// byte with bit five flipped, any other as itself.
pub open spec fn escape_byte(b: u8) -> Seq<u8> {
    if is_reserved(b) {
        seq![BRACE, b ^ 0x20]
    } else {
        seq![b]
    }
}

/// The body that transmits the payload `s`.
pub open spec fn escape(s: Seq<u8>) -> Seq<u8>
    decreases s.len(),
{
    if s.len() == 0 {
        Seq::empty()
    } else {
        escape_byte(s.first()) + escape(s.drop_first())
    }
}

/// The payload that the body `s` transmits, or nothing where `s` ends right
/// after a `}`.
pub open spec fn unescape(s: Seq<u8>) -> Option<Seq<u8>>
    decreases s.len(),
{
    if s.len() == 0 {
        Some(Seq::empty())
    } else if s[0] != BRACE {
        match unescape(s.skip(1)) {
            Some(rest) => Some(seq![s[0]] + rest),
            None => None,
        }
    } else if s.len() == 1 {
        None
    } else {
        match unescape(s.skip(2)) {
            Some(rest) => Some(seq![s[1] ^ 0x20] + rest),
            None => None,
        }
    }
}

/// The frame that transmits `payload`.
pub open spec fn frame(payload: Seq<u8>) -> Seq<u8> {
    let body = escape(payload);
    let sum = checksum(body);
    seq![DOLLAR] + body + seq![HASH, digit_char(sum / 16), digit_char(sum % 16)]
}

/// What a run of received bytes decodes to.
pub open spec fn decode(buf: Seq<u8>) -> Result<PacketView, PacketError> {
    if buf.len() == 0 {
        Err(PacketError::Empty)
    } else if buf[0] == PLUS {
        if buf.len() == 1 {
            Ok(PacketView::Ack)
        } else {
            Err(PacketError::TrailingBytes)
        }
    } else if buf[0] == MINUS {
        if buf.len() == 1 {
            Ok(PacketView::Nack)
        } else {
            Err(PacketError::TrailingBytes)
        }
    } else if buf[0] == DOLLAR {
        match buf.index_of_first(HASH) {
            None => Err(PacketError::Truncated),
            Some(end) => {
                if buf.len() < end + 3 {
                    Err(PacketError::Truncated)
                } else if buf.len() > end + 3 {
                    Err(PacketError::TrailingBytes)
                } else {
                    decode_body(buf.subrange(1, end), buf[end + 1], buf[end + 2])
                }
            },
        }
    } else {
        Err(PacketError::BadHeader)
    }
}

/// What a frame's body decodes to, given the two checksum bytes that follow it.
pub open spec fn decode_body(body: Seq<u8>, high: u8, low: u8) -> Result<
    PacketView,
    PacketError,
> {
    match (digit_value(high), digit_value(low)) {
        (Some(h), Some(l)) => {
            if 16 * h + l != checksum(body) {
                Err(PacketError::ChecksumMismatch)
            } else {
                match unescape(body) {
                    Some(payload) => Ok(PacketView::Command(payload)),
                    None => Err(PacketError::BadEscape),
                }
            }
        },
        _ => Err(PacketError::BadChecksumDigits),
    }
}

/// Flipping bit five of a reserved byte gives a byte that is not reserved, and
/// flipping it again gives the byte back.
pub proof fn lemma_escape_code(b: u8)
    ensures
        (b ^ 0x20) ^ 0x20 == b,
        is_reserved(b) ==> !is_reserved(b ^ 0x20),
{
    assert((b ^ 0x20) ^ 0x20 == b) by (bit_vector);
    assert((b == 0x24 || b == 0x23 || b == 0x2a || b == 0x7d) ==> !((b ^ 0x20) == 0x24 || (b
        ^ 0x20) == 0x23 || (b ^ 0x20) == 0x2a || (b ^ 0x20) == 0x7d)) by (bit_vector);
}

/// A body never holds a bare `#` or `$`.
pub proof fn lemma_escape_clean(s: Seq<u8>)
    ensures
        forall|j: int| 0 <= j < escape(s).len() ==> escape(s)[j] != HASH && escape(s)[j] != DOLLAR,
    decreases s.len(),
{
    if s.len() > 0 {
        lemma_escape_clean(s.drop_first());
        lemma_escape_code(s.first());
        let head = escape_byte(s.first());
        let tail = escape(s.drop_first());
        assert forall|j: int| 0 <= j < escape(s).len() implies escape(s)[j] != HASH && escape(
            s,
        )[j] != DOLLAR by {
            if j >= head.len() {
                assert(escape(s)[j] == tail[j - head.len()]);
            }
        }
    }
}

/// Undoing the escapes of a body gives the payload it was made from.
pub proof fn lemma_unescape_escape(s: Seq<u8>)
    ensures
        unescape(escape(s)) == Some(s),
    decreases s.len(),
{
    if s.len() > 0 {
        lemma_unescape_escape(s.drop_first());
        lemma_escape_code(s.first());
        let body = escape(s);
        let tail = escape(s.drop_first());
        if is_reserved(s.first()) {
            assert(body.skip(2) =~= tail);
        } else {
            assert(body.skip(1) =~= tail);
        }
        assert(seq![s.first()] + s.drop_first() =~= s);
    }
}

/// The checksum fits in a byte.
pub proof fn lemma_checksum_bound(s: Seq<u8>)
    ensures
        checksum(s) < 256,
{
}

/// A frame is never empty: it holds at least its `$`, its `#` and its two
/// checksum digits.
pub proof fn lemma_frame_not_empty(payload: Seq<u8>)
    ensures
        frame(payload).len() >= 4,
{
}

/// Framing any payload and decoding the frame gives the payload back.
pub proof fn lemma_frame_round_trip(payload: Seq<u8>)
    ensures
        decode(frame(payload)) == Ok::<PacketView, PacketError>(PacketView::Command(payload)),
{
    let body = escape(payload);
    let sum = checksum(body);
    let wire = frame(payload);
    let end: int = body.len() as int + 1;
    lemma_escape_clean(payload);
    lemma_unescape_escape(payload);
    lemma_checksum_bound(body);
    lemma_digit_round_trip(sum / 16);
    lemma_digit_round_trip(sum % 16);
    assert forall|j: int| 0 <= j < end implies wire[j] != HASH by {
        if j > 0 {
            assert(wire[j] == body[j - 1]);
        }
    }
    lemma_first_at(wire, HASH, end);
    assert(wire.subrange(1, end) =~= body);
}

/// A frame whose checksum was damaged is rejected: replacing one of the two
/// checksum digits by a byte that does not write the same digit makes the
/// frame fail to decode. (A digit replaced by the same digit in the other
/// case still writes the same checksum.)
pub proof fn lemma_damaged_checksum_rejected(payload: Seq<u8>, k: int, b: u8)
    requires
        frame(payload).len() - 2 <= k < frame(payload).len(),
        digit_value(b) != digit_value(frame(payload)[k]),
    ensures
        decode(frame(payload).update(k, b)) is Err,
        decode(frame(payload).update(k, b)) == Err::<PacketView, PacketError>(
            PacketError::BadChecksumDigits,
        ) || decode(frame(payload).update(k, b)) == Err::<PacketView, PacketError>(
            PacketError::ChecksumMismatch,
        ),
{
    let body = escape(payload);
    let sum = checksum(body);
    let wire = frame(payload);
    let damaged = wire.update(k, b);
    let end: int = body.len() as int + 1;
    lemma_escape_clean(payload);
    lemma_checksum_bound(body);
    lemma_digit_round_trip(sum / 16);
    lemma_digit_round_trip(sum % 16);
    assert forall|j: int| 0 <= j < end implies damaged[j] != HASH by {
        if j > 0 {
            assert(damaged[j] == body[j - 1]);
        }
    }
    lemma_first_at(damaged, HASH, end);
    assert(damaged.subrange(1, end) =~= body);
}

/// Computes the checksum of a body.
pub fn compute_checksum(bytes: &[u8]) -> (sum: u8)
    ensures
        sum == checksum(bytes@),
{
    let mut sum: u8 = 0;
    let mut i: usize = 0;
    while i < bytes.len()
        invariant
            i <= bytes.len(),
            sum == checksum(bytes@.take(i as int)),
        decreases bytes.len() - i,
    {
        proof {
            assert(bytes@.take(i + 1).drop_last() =~= bytes@.take(i as int));
        }
        sum = ((sum as u16 + bytes[i] as u16) % 256) as u8;
        i += 1;
    }
    proof {
        assert(bytes@.take(i as int) =~= bytes@);
    }
    sum
}

/// Appends to `out` the body that transmits `payload`.
pub fn escape_into(payload: &[u8], out: &mut Vec<u8>)
    ensures
        final(out)@ == old(out)@ + escape(payload@),
{
    let mut i: usize = 0;
    proof {
        assert(payload@.skip(0) =~= payload@);
    }
    while i < payload.len()
        invariant
            i <= payload.len(),
            out@ + escape(payload@.skip(i as int)) == old(out)@ + escape(payload@),
        decreases payload.len() - i,
    {
        let b: u8 = payload[i];
        let ghost before = out@;
        let ghost rest = escape(payload@.skip(i + 1));
        proof {
            assert(payload@.skip(i as int).drop_first() =~= payload@.skip(i + 1));
            assert(payload@.skip(i as int).first() == b);
        }
        if b == DOLLAR || b == HASH || b == STAR || b == BRACE {
            out.push(BRACE);
            out.push(b ^ 0x20);
        } else {
            out.push(b);
        }
        proof {
            assert(out@ + rest =~= before + (escape_byte(b) + rest));
        }
        i += 1;
    }
    proof {
        assert(payload@.skip(i as int) =~= Seq::<u8>::empty());
        assert(out@ + Seq::<u8>::empty() =~= out@);
    }
}

/// Undoes the escapes of a body.
pub fn unescape_bytes(body: &[u8]) -> (r: Option<Vec<u8>>)
    ensures
        match r {
            Some(payload) => unescape(body@) == Some(payload@),
            None => unescape(body@) is None,
        },
{
    let mut out: Vec<u8> = Vec::new();
    let mut i: usize = 0;
    proof {
        assert(body@.skip(0) =~= body@);
        if unescape(body@) is Some {
            assert(out@ + unescape(body@).unwrap() =~= unescape(body@).unwrap());
        }
    }
    while i < body.len()
        invariant
            i <= body.len(),
            unescape(body@) == match unescape(body@.skip(i as int)) {
                Some(rest) => Some(out@ + rest),
                None => None,
            },
        decreases body.len() - i,
    {
        let b: u8 = body[i];
        let ghost before = out@;
        let ghost here = body@.skip(i as int);
        if b != BRACE {
            out.push(b);
            proof {
                assert(here.skip(1) =~= body@.skip(i + 1));
                if unescape(here.skip(1)) is Some {
                    let rest = unescape(here.skip(1)).unwrap();
                    assert(out@ + rest =~= before + (seq![b] + rest));
                }
            }
            i += 1;
        } else if body.len() - i == 1 {
            return None;
        } else {
            let code: u8 = body[i + 1];
            out.push(code ^ 0x20);
            proof {
                assert(here.skip(2) =~= body@.skip(i + 2));
                if unescape(here.skip(2)) is Some {
                    let rest = unescape(here.skip(2)).unwrap();
                    assert(out@ + rest =~= before + (seq![code ^ 0x20] + rest));
                }
            }
            i += 2;
        }
    }
    proof {
        assert(body@.skip(i as int) =~= Seq::<u8>::empty());
        assert(out@ + Seq::<u8>::empty() =~= out@);
    }
    Some(out)
}

/// Builds the frame that transmits `payload`.
pub fn encode_frame(payload: &[u8]) -> (out: Vec<u8>)
    ensures
        out@ == frame(payload@),
{
    let mut out: Vec<u8> = Vec::new();
    out.push(DOLLAR);
    escape_into(payload, &mut out);
    let sum: u8 = compute_checksum(vstd::slice::slice_subrange(out.as_slice(), 1, out.len()));
    proof {
        assert(out@.subrange(1, out@.len() as int) =~= escape(payload@));
    }
    let (high, low) = to_digits(sum);
    out.push(HASH);
    out.push(high);
    out.push(low);
    proof {
        assert(out@ =~= frame(payload@));
    }
    out
}

impl Packet {
    /// Decodes the bytes of one packet: a lone `+` or `-`, or a whole frame
    /// from its `$` to its second checksum digit.
    pub fn from_buf(buf: &[u8]) -> (r: Result<Packet, PacketError>)
        ensures
            match r {
                Ok(packet) => decode(buf@) == Ok::<PacketView, PacketError>(packet@),
                Err(e) => decode(buf@) == Err::<PacketView, PacketError>(e),
            },
    {
        if buf.len() == 0 {
            return Err(PacketError::Empty);
        }
        let header: u8 = buf[0];
        if header == PLUS {
            if buf.len() == 1 {
                Ok(Packet::Ack)
            } else {
                Err(PacketError::TrailingBytes)
            }
        } else if header == MINUS {
            if buf.len() == 1 {
                Ok(Packet::Nack)
            } else {
                Err(PacketError::TrailingBytes)
            }
        } else if header == DOLLAR {
            let end: usize = match position(buf, HASH) {
                Some(end) => end,
                None => {
                    return Err(PacketError::Truncated);
                },
            };
            proof {
                buf@.index_of_first_ensures(HASH);
            }
            if buf.len() - end < 3 {
                return Err(PacketError::Truncated);
            }
            if buf.len() - end > 3 {
                return Err(PacketError::TrailingBytes);
            }
            let body = vstd::slice::slice_subrange(buf, 1, end);
            let (high, low) = match (digit(buf[end + 1]), digit(buf[end + 2])) {
                (Some(h), Some(l)) => (h, l),
                _ => {
                    return Err(PacketError::BadChecksumDigits);
                },
            };
            if high * 16 + low != compute_checksum(body) {
                return Err(PacketError::ChecksumMismatch);
            }
            match unescape_bytes(body) {
                Some(payload) => Ok(Packet::Command(payload)),
                None => Err(PacketError::BadEscape),
            }
        } else {
            Err(PacketError::BadHeader)
        }
    }
}

impl PacketError {
    /// The diagnostic that names this error.
    pub open spec fn message(self) -> Seq<char> {
        match self {
            PacketError::Empty => "no bytes to decode"@,
            PacketError::BadHeader => "packet starts with none of '+', '-' and '$'"@,
            PacketError::Truncated => "frame ends before its checksum"@,
            PacketError::TrailingBytes => "bytes follow the end of the packet"@,
            PacketError::BadChecksumDigits => "checksum is not two hexadecimal digits"@,
            PacketError::ChecksumMismatch => "checksum does not match the frame's body"@,
            PacketError::BadEscape => "frame's body ends inside an escape"@,
        }
    }

    /// Writes the diagnostic that names this error.
    pub fn describe(&self) -> (text: String)
        ensures
            text@ == self.message(),
    {
        match self {
            PacketError::Empty => "no bytes to decode".to_owned(),
            PacketError::BadHeader => "packet starts with none of '+', '-' and '$'".to_owned(),
            PacketError::Truncated => "frame ends before its checksum".to_owned(),
            PacketError::TrailingBytes => "bytes follow the end of the packet".to_owned(),
            PacketError::BadChecksumDigits => "checksum is not two hexadecimal digits".to_owned(),
            PacketError::ChecksumMismatch => "checksum does not match the frame's body".to_owned(),
            PacketError::BadEscape => "frame's body ends inside an escape".to_owned(),
        }
    }
}

} // verus!
