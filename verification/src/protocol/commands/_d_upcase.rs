//! `D[;pid]`: detach the debugger from the target.

use vstd::prelude::*;
use vstd::slice::slice_subrange;

use crate::protocol::ascii::SEMICOLON;
use crate::protocol::hex::{decode_u64, parse_u64};

verus! {

/// The detach command.
#[derive(PartialEq, Eq, Debug, Clone, Copy, Structural)]
pub struct D {
    /// The process to detach from; the only one where none is given.
    pub pid: Option<u64>,
}

impl D {
    /// What a body parses to: nothing, or `;` and a hexadecimal process id.
    pub open spec fn parsed(body: Seq<u8>) -> Option<D> {
        if body.len() == 0 {
            Some(D { pid: None })
        } else if body[0] != SEMICOLON {
            None
        } else {
            match parse_u64(body.subrange(1, body.len() as int)) {
                Some(pid) => Some(D { pid: Some(pid) }),
                None => None,
            }
        }
    }

    /// Parses the bytes of a body.
    pub fn parse_bytes(body: &[u8]) -> (r: Result<D, ()>)
        ensures
            match r {
                Ok(command) => D::parsed(body@) == Some(command),
                Err(_) => D::parsed(body@) is None,
            },
    {
        if body.len() == 0 {
            return Ok(D { pid: None });
        }
        if body[0] != SEMICOLON {
            return Err(());
        }
        match decode_u64(slice_subrange(body, 1, body.len())) {
            Some(pid) => Ok(D { pid: Some(pid) }),
            None => Err(()),
        }
    }
}

} // verus!
