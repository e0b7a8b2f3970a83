//! `m addr,length`: read `length` bytes of memory starting at `addr`.

use vstd::prelude::*;
use vstd::slice::slice_subrange;
use vstd::string::StringSliceAdditionalSpecFns;

use crate::protocol::ascii::COMMA;
use crate::protocol::fields::position;
use crate::protocol::hex::{decode_u64, decode_usize, parse_u64, parse_usize};

verus! {

/// The command that reads memory.
#[allow(non_camel_case_types)]
#[derive(PartialEq, Eq, Debug, Clone, Copy, Structural)]
pub struct m {
    /// The address of the first byte to read, wide enough for any target.
    pub addr: u64,
    /// The number of bytes to read.
    pub len: usize,
}

impl m {
    /// What a body parses to: `ADDR,LEN`, both hexadecimal and both
    /// mandatory, with nothing before, between or after them.
    pub open spec fn parsed(body: Seq<u8>) -> Option<m> {
        match body.index_of_first(COMMA) {
            None => None,
            Some(comma) => match (
                parse_u64(body.subrange(0, comma)),
                parse_usize(body.subrange(comma + 1, body.len() as int)),
            ) {
                (Some(addr), Some(len)) => Some(m { addr, len }),
                _ => None,
            },
        }
    }

    /// Parses the bytes of a body.
    pub fn parse_bytes(body: &[u8]) -> (r: Result<m, ()>)
        ensures
            match r {
                Ok(command) => m::parsed(body@) == Some(command),
                Err(_) => m::parsed(body@) is None,
            },
    {
        let end: usize = body.len();
        let comma: usize = match position(body, COMMA) {
            Some(i) => i,
            None => {
                return Err(());
            },
        };
        proof {
            body@.index_of_first_ensures(COMMA);
        }
        let addr: u64 = match decode_u64(slice_subrange(body, 0, comma)) {
            Some(addr) => addr,
            None => {
                return Err(());
            },
        };
        let len: usize = match decode_usize(slice_subrange(body, comma + 1, end)) {
            Some(len) => len,
            None => {
                return Err(());
            },
        };
        Ok(m { addr, len })
    }

    /// Parses a body given as text.
    pub fn parse(body: &str) -> (r: Result<m, ()>)
        ensures
            match r {
                Ok(command) => m::parsed(body.spec_bytes()) == Some(command),
                Err(_) => m::parsed(body.spec_bytes()) is None,
            },
    {
        m::parse_bytes(body.as_bytes())
    }
}

} // verus!
