//! `M addr,length:XX...`: write `length` bytes of memory starting at `addr`.

use vstd::prelude::*;
use vstd::slice::slice_subrange;

use crate::protocol::ascii::{COLON, COMMA};
use crate::protocol::fields::position;
use crate::protocol::hex::{
    decode_bytes, decode_u64, decode_usize, parse_bytes, parse_u64, parse_usize,
};

verus! {

/// The command that writes memory.
#[derive(PartialEq, Eq, Debug, Clone)]
pub struct M {
    /// The address of the first byte to write.
    pub addr: u64,
    /// The number of bytes to write.
    pub len: usize,
    /// The bytes to write, `len` of them.
    pub val: Vec<u8>,
}

/// The mathematical value of an [`M`].
pub struct MView {
    pub addr: u64,
    pub len: usize,
    pub val: Seq<u8>,
}

impl View for M {
    type V = MView;

    open spec fn view(&self) -> MView {
        MView { addr: self.addr, len: self.len, val: self.val@ }
    }
}

impl M {
    /// What a body parses to: `ADDR,LEN:DATA`, where `DATA` writes exactly
    /// `LEN` bytes as pairs of hexadecimal digits.
    pub open spec fn parsed(body: Seq<u8>) -> Option<MView> {
        match body.index_of_first(COMMA) {
            None => None,
            Some(comma) => {
                let rest = body.subrange(comma + 1, body.len() as int);
                match rest.index_of_first(COLON) {
                    None => None,
                    Some(colon) => match (
                        parse_u64(body.subrange(0, comma)),
                        parse_usize(rest.subrange(0, colon)),
                        parse_bytes(rest.subrange(colon + 1, rest.len() as int)),
                    ) {
                        (Some(addr), Some(len), Some(val)) => if val.len() == len {
                            Some(MView { addr, len, val })
                        } else {
                            None
                        },
                        _ => None,
                    },
                }
            },
        }
    }

    /// Parses the bytes of a body.
    pub fn parse_bytes(body: &[u8]) -> (r: Result<M, ()>)
        ensures
            match r {
                Ok(command) => M::parsed(body@) == Some(command@),
                Err(_) => M::parsed(body@) is None,
            },
    {
        let end: usize = body.len();
        let comma: usize = match position(body, COMMA) {
            Some(i) => i,
            None => {
                return Err(());
            },
        };
        proof {
            body@.index_of_first_ensures(COMMA);
        }
        let rest = slice_subrange(body, comma + 1, end);
        let colon: usize = match position(rest, COLON) {
            Some(i) => i,
            None => {
                return Err(());
            },
        };
        proof {
            rest@.index_of_first_ensures(COLON);
        }
        let addr: u64 = match decode_u64(slice_subrange(body, 0, comma)) {
            Some(addr) => addr,
            None => {
                return Err(());
            },
        };
        let len: usize = match decode_usize(slice_subrange(rest, 0, colon)) {
            Some(len) => len,
            None => {
                return Err(());
            },
        };
        let val: Vec<u8> = match decode_bytes(slice_subrange(rest, colon + 1, rest.len())) {
            Some(val) => val,
            None => {
                return Err(());
            },
        };
        if val.len() != len {
            return Err(());
        }
        Ok(M { addr, len, val })
    }
}

} // verus!
