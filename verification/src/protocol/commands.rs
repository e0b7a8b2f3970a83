//! The command set, and the parser that maps a packet's payload to it.

use vstd::prelude::*;
use vstd::slice::slice_subrange;
use vstd::string::StringSliceAdditionalSpecFns;

use crate::protocol::ascii::{
    COLON, COMMA, LOWER_C, LOWER_G, LOWER_K, LOWER_M, LOWER_Q, LOWER_S, MINUS, SEMICOLON, UPPER_D,
    UPPER_H, UPPER_M,
};
use crate::protocol::fields::{lemma_absent, lemma_first_at};
use crate::protocol::hex::digit_value;

pub mod _c;
pub mod _d_upcase;
pub mod _h_upcase;
pub mod _m;
pub mod _m_upcase;
pub mod _q_supported;
pub mod _s;

pub use _c::c;
pub use _d_upcase::D;
pub use _h_upcase::{ThreadId, ThreadOp, H};
pub use _m::m;
pub use _m_upcase::{MView, M};
pub use _q_supported::QSupported;
pub use _s::s;

verus! {

/// A request of the debugger, parsed.
#[allow(non_camel_case_types)]
#[derive(PartialEq, Eq, Debug, Clone)]
pub enum Command {
    /// Read memory.
    m(m),
    /// Write memory.
    M(M),
    /// Select a thread.
    H(H),
    /// Negotiate features.
    QSupported(QSupported),
    /// Continue.
    c(c),
    /// Single-step.
    s(s),
    /// Detach.
    D(D),
    /// Kill the target.
    k,
    /// A request that this engine does not know.
    Unknown,
}

/// The mathematical value of a [`Command`].
#[allow(non_camel_case_types)]
pub enum CommandView {
    m(m),
    M(MView),
    H(H),
    QSupported(Seq<u8>),
    c(c),
    s(s),
    D(D),
    k,
    Unknown,
}

impl View for Command {
    type V = CommandView;

    open spec fn view(&self) -> CommandView {
        match self {
            Command::m(command) => CommandView::m(*command),
            Command::M(command) => CommandView::M(command@),
            Command::H(command) => CommandView::H(*command),
            Command::QSupported(query) => CommandView::QSupported(query@),
            Command::c(command) => CommandView::c(*command),
            Command::s(command) => CommandView::s(*command),
            Command::D(command) => CommandView::D(*command),
            Command::k => CommandView::k,
            Command::Unknown => CommandView::Unknown,
        }
    }
}

/// The body of a known command is malformed: a field is missing, is not
/// hexadecimal, is out of range, or something follows the last field.
#[derive(PartialEq, Eq, Debug, Clone, Copy, Structural)]
pub struct ParseError {
    /// The letter of the command whose body it is.
    pub letter: u8,
}

/// The letters whose commands have a grammar that a body can break.
pub open spec fn has_grammar(letter: u8) -> bool {
    letter == LOWER_M || letter == UPPER_M || letter == UPPER_H || letter == LOWER_C || letter
        == LOWER_S || letter == UPPER_D || letter == LOWER_K
}

/// The bytes that a body of the command `letter` may hold: hexadecimal digits
/// and the command's own delimiters. The kill command takes no body at all.
pub open spec fn in_alphabet(letter: u8, b: u8) -> bool {
    if letter == LOWER_K {
        false
    } else {
        ||| digit_value(b) is Some
        ||| letter == LOWER_M && b == COMMA
        ||| letter == UPPER_M && (b == COMMA || b == COLON)
        ||| letter == UPPER_H && (b == LOWER_G || b == MINUS)
        ||| letter == UPPER_D && b == SEMICOLON
    }
}

impl Command {
    /// What the body of the command `letter` parses to. A known letter with a
    /// body that its grammar refuses is an error; a `q` that is not
    /// `qSupported`, like any other letter, is [`Command::Unknown`].
    pub open spec fn parsed(letter: u8, body: Seq<u8>) -> Result<CommandView, ParseError> {
        if letter == LOWER_M {
            match m::parsed(body) {
                Some(command) => Ok(CommandView::m(command)),
                None => Err(ParseError { letter }),
            }
        } else if letter == UPPER_M {
            match M::parsed(body) {
                Some(command) => Ok(CommandView::M(command)),
                None => Err(ParseError { letter }),
            }
        } else if letter == UPPER_H {
            match H::parsed(body) {
                Some(command) => Ok(CommandView::H(command)),
                None => Err(ParseError { letter }),
            }
        } else if letter == LOWER_C {
            match c::parsed(body) {
                Some(command) => Ok(CommandView::c(command)),
                None => Err(ParseError { letter }),
            }
        } else if letter == LOWER_S {
            match s::parsed(body) {
                Some(command) => Ok(CommandView::s(command)),
                None => Err(ParseError { letter }),
            }
        } else if letter == UPPER_D {
            match D::parsed(body) {
                Some(command) => Ok(CommandView::D(command)),
                None => Err(ParseError { letter }),
            }
        } else if letter == LOWER_K {
            if body.len() == 0 {
                Ok(CommandView::k)
            } else {
                Err(ParseError { letter })
            }
        } else if letter == LOWER_Q {
            match QSupported::parsed(body) {
                Some(features) => Ok(CommandView::QSupported(features)),
                None => Ok(CommandView::Unknown),
            }
        } else {
            Ok(CommandView::Unknown)
        }
    }

    /// What a packet's payload parses to: its first byte is the command's
    /// letter, the rest the body. An empty payload is no known command.
    pub open spec fn of_payload(payload: Seq<u8>) -> Result<CommandView, ParseError> {
        if payload.len() == 0 {
            Ok(CommandView::Unknown)
        } else {
            Command::parsed(payload[0], payload.subrange(1, payload.len() as int))
        }
    }

    /// Parses the bytes of the body of the command `letter`.
    pub fn parse_bytes(letter: u8, body: &[u8]) -> (r: Result<Command, ParseError>)
        ensures
            match r {
                Ok(command) => Command::parsed(letter, body@) == Ok::<CommandView, ParseError>(
                    command@,
                ),
                Err(e) => Command::parsed(letter, body@) == Err::<CommandView, ParseError>(e),
            },
    {
        if letter == LOWER_M {
            match m::parse_bytes(body) {
                Ok(command) => Ok(Command::m(command)),
                Err(_) => Err(ParseError { letter }),
            }
        } else if letter == UPPER_M {
            match M::parse_bytes(body) {
                Ok(command) => Ok(Command::M(command)),
                Err(_) => Err(ParseError { letter }),
            }
        } else if letter == UPPER_H {
            match H::parse_bytes(body) {
                Ok(command) => Ok(Command::H(command)),
                Err(_) => Err(ParseError { letter }),
            }
        } else if letter == LOWER_C {
            match c::parse_bytes(body) {
                Ok(command) => Ok(Command::c(command)),
                Err(_) => Err(ParseError { letter }),
            }
        } else if letter == LOWER_S {
            match s::parse_bytes(body) {
                Ok(command) => Ok(Command::s(command)),
                Err(_) => Err(ParseError { letter }),
            }
        } else if letter == UPPER_D {
            match D::parse_bytes(body) {
                Ok(command) => Ok(Command::D(command)),
                Err(_) => Err(ParseError { letter }),
            }
        } else if letter == LOWER_K {
            if body.len() == 0 {
                Ok(Command::k)
            } else {
                Err(ParseError { letter })
            }
        } else if letter == LOWER_Q {
            match QSupported::parse_bytes(body) {
                Some(query) => Ok(Command::QSupported(query)),
                None => Ok(Command::Unknown),
            }
        } else {
            Ok(Command::Unknown)
        }
    }

    /// Parses the body of the command `letter`, given as text.
    pub fn parse(letter: u8, body: &str) -> (r: Result<Command, ParseError>)
        ensures
            match r {
                Ok(command) => Command::parsed(letter, body.spec_bytes()) == Ok::<
                    CommandView,
                    ParseError,
                >(command@),
                Err(e) => Command::parsed(letter, body.spec_bytes()) == Err::<
                    CommandView,
                    ParseError,
                >(e),
            },
    {
        Command::parse_bytes(letter, body.as_bytes())
    }

    /// Parses a packet's payload.
    pub fn from_payload(payload: &[u8]) -> (r: Result<Command, ParseError>)
        ensures
            match r {
                Ok(command) => Command::of_payload(payload@) == Ok::<CommandView, ParseError>(
                    command@,
                ),
                Err(e) => Command::of_payload(payload@) == Err::<CommandView, ParseError>(e),
            },
    {
        if payload.len() == 0 {
            Ok(Command::Unknown)
        } else {
            Command::parse_bytes(payload[0], slice_subrange(payload, 1, payload.len()))
        }
    }
}

/// Parsing is total: every letter and body has an outcome. A failure names
/// the letter, which is then one that has a grammar; and a letter that is not
/// recognized parses to [`Command::Unknown`], whatever the body.
pub proof fn lemma_parse_total(letter: u8, body: Seq<u8>)
    ensures
        Command::parsed(letter, body) matches Err(e) ==> e.letter == letter && has_grammar(letter),
        !has_grammar(letter) && letter != LOWER_Q ==> Command::parsed(letter, body) == Ok::<
            CommandView,
            ParseError,
        >(CommandView::Unknown),
{
}

/// A missing field is a parse error: the commands that take mandatory fields
/// refuse the empty body, and a body without the delimiter that parts them.
pub proof fn lemma_missing_field_fails(letter: u8, body: Seq<u8>)
    requires
        letter == LOWER_M || letter == UPPER_M || letter == UPPER_H,
        body.len() == 0 || (letter == LOWER_M && !body.contains(COMMA)) || (letter == UPPER_M && (
        !body.contains(COMMA) || !body.contains(COLON))),
    ensures
        Command::parsed(letter, body) == Err::<CommandView, ParseError>(ParseError { letter }),
{
    body.index_of_first_ensures(COMMA);
    if letter == UPPER_M && body.index_of_first(COMMA) is Some {
        let comma = body.index_of_first(COMMA).unwrap();
        let rest = body.subrange(comma + 1, body.len() as int);
        rest.index_of_first_ensures(COLON);
        if rest.index_of_first(COLON) is Some {
            let colon = rest.index_of_first(COLON).unwrap();
            assert(body[comma + 1 + colon] == rest[colon]);
        }
    }
}

/// A byte that is neither a hexadecimal digit nor one of the command's
/// delimiters is a parse error, wherever in the body it stands.
pub proof fn lemma_stray_byte_fails(letter: u8, body: Seq<u8>, i: int)
    requires
        has_grammar(letter),
        0 <= i < body.len(),
        !in_alphabet(letter, body[i]),
    ensures
        Command::parsed(letter, body) == Err::<CommandView, ParseError>(ParseError { letter }),
{
    if letter == LOWER_M && m::parsed(body) is Some {
        body.index_of_first_ensures(COMMA);
        let comma = body.index_of_first(COMMA).unwrap();
        if i < comma {
            assert(body.subrange(0, comma)[i] == body[i]);
        } else if i > comma {
            assert(body.subrange(comma + 1, body.len() as int)[i - comma - 1] == body[i]);
        }
    } else if letter == UPPER_M && M::parsed(body) is Some {
        body.index_of_first_ensures(COMMA);
        let comma = body.index_of_first(COMMA).unwrap();
        let rest = body.subrange(comma + 1, body.len() as int);
        rest.index_of_first_ensures(COLON);
        let colon = rest.index_of_first(COLON).unwrap();
        if i < comma {
            assert(body.subrange(0, comma)[i] == body[i]);
        } else if i > comma {
            let j = i - comma - 1;
            assert(rest[j] == body[i]);
            if j < colon {
                assert(rest.subrange(0, colon)[j] == rest[j]);
            } else if j > colon {
                assert(rest.subrange(colon + 1, rest.len() as int)[j - colon - 1] == rest[j]);
            }
        }
    } else if letter == UPPER_H && H::parsed(body) is Some {
        if i > 0 {
            let field = body.subrange(1, body.len() as int);
            assert(field[i - 1] == body[i]);
        }
    } else if letter == UPPER_D && D::parsed(body) is Some {
        if i > 0 {
            assert(body.subrange(1, body.len() as int)[i - 1] == body[i]);
        }
    }
}

/// Truncated input is a parse error: of a body that writes memory, no proper
/// prefix is a body.
pub proof fn lemma_truncated_write_fails(body: Seq<u8>, n: int)
    requires
        M::parsed(body) is Some,
        0 <= n < body.len(),
    ensures
        Command::parsed(UPPER_M, body.take(n)) == Err::<CommandView, ParseError>(
            ParseError { letter: UPPER_M },
        ),
{
    body.index_of_first_ensures(COMMA);
    let comma = body.index_of_first(COMMA).unwrap();
    let rest = body.subrange(comma + 1, body.len() as int);
    rest.index_of_first_ensures(COLON);
    let colon = rest.index_of_first(COLON).unwrap();
    let cut = body.take(n);
    if n <= comma {
        lemma_absent(cut, COMMA);
    } else {
        lemma_first_at(cut, COMMA, comma);
        let cut_rest = cut.subrange(comma + 1, cut.len() as int);
        assert(cut_rest =~= rest.take(n - comma - 1));
        if n - comma - 1 <= colon {
            lemma_absent(cut_rest, COLON);
        } else {
            lemma_first_at(cut_rest, COLON, colon);
            assert(cut.subrange(0, comma) =~= body.subrange(0, comma));
            assert(cut_rest.subrange(0, colon) =~= rest.subrange(0, colon));
        }
    }
}

/// Truncated input is a parse error: a body that reads memory, cut off before
/// the first digit of its length, is no body.
pub proof fn lemma_truncated_read_fails(body: Seq<u8>, n: int)
    requires
        m::parsed(body) is Some,
        0 <= n <= body.index_of_first(COMMA).unwrap() + 1,
    ensures
        Command::parsed(LOWER_M, body.take(n)) == Err::<CommandView, ParseError>(
            ParseError { letter: LOWER_M },
        ),
{
    body.index_of_first_ensures(COMMA);
    let comma = body.index_of_first(COMMA).unwrap();
    let cut = body.take(n);
    if n <= comma {
        lemma_absent(cut, COMMA);
    } else {
        lemma_first_at(cut, COMMA, comma);
    }
}

} // verus!
