//! `c [addr]`: resume execution, at `addr` where one is given.

use vstd::prelude::*;

use crate::protocol::hex::{decode_u64, parse_u64};

verus! {

/// The continue command.
#[allow(non_camel_case_types)]
#[derive(PartialEq, Eq, Debug, Clone, Copy, Structural)]
pub struct c {
    /// The address to resume at; the current one where none is given.
    pub addr: Option<u64>,
}

impl c {
    /// What a body parses to: nothing, or one hexadecimal address.
    pub open spec fn parsed(body: Seq<u8>) -> Option<c> {
        if body.len() == 0 {
            Some(c { addr: None })
        } else {
            match parse_u64(body) {
                Some(addr) => Some(c { addr: Some(addr) }),
                None => None,
            }
        }
    }

    /// Parses the bytes of a body.
    pub fn parse_bytes(body: &[u8]) -> (r: Result<c, ()>)
        ensures
            match r {
                Ok(command) => c::parsed(body@) == Some(command),
                Err(_) => c::parsed(body@) is None,
            },
    {
        if body.len() == 0 {
            return Ok(c { addr: None });
        }
        match decode_u64(body) {
            Some(addr) => Ok(c { addr: Some(addr) }),
            None => Err(()),
        }
    }
}

} // verus!
