//! `s [addr]`: execute one step, at `addr` where one is given.

use vstd::prelude::*;

use crate::protocol::hex::{decode_u64, parse_u64};

verus! {

/// The single-step command.
#[allow(non_camel_case_types)]
#[derive(PartialEq, Eq, Debug, Clone, Copy, Structural)]
pub struct s {
    /// The address to resume at; the current one where none is given.
    pub addr: Option<u64>,
}

impl s {
    /// What a body parses to: nothing, or one hexadecimal address.
    pub open spec fn parsed(body: Seq<u8>) -> Option<s> {
        if body.len() == 0 {
            Some(s { addr: None })
        } else {
            match parse_u64(body) {
                Some(addr) => Some(s { addr: Some(addr) }),
                None => None,
            }
        }
    }

    /// Parses the bytes of a body.
    pub fn parse_bytes(body: &[u8]) -> (r: Result<s, ()>)
        ensures
            match r {
                Ok(command) => s::parsed(body@) == Some(command),
                Err(_) => s::parsed(body@) is None,
            },
    {
        if body.len() == 0 {
            return Ok(s { addr: None });
        }
        match decode_u64(body) {
            Some(addr) => Ok(s { addr: Some(addr) }),
            None => Err(()),
        }
    }
}

} // verus!
