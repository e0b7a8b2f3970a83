//! `H op thread-id`: select the thread that later commands apply to.

use vstd::prelude::*;
use vstd::slice::slice_subrange;

use crate::protocol::ascii::{DIGIT_1, LOWER_C, LOWER_G, MINUS};
use crate::protocol::hex::{decode_u64, parse_u64};

verus! {

/// The operations that a thread is selected for.
#[derive(PartialEq, Eq, Debug, Clone, Copy, Structural)]
pub enum ThreadOp {
    /// `c`: the step and continue operations.
    Resume,
    /// `g`: every other operation.
    General,
}

/// The thread that is selected.
#[derive(PartialEq, Eq, Debug, Clone, Copy, Structural)]
pub enum ThreadId {
    /// `-1`: all threads.
    All,
    /// `0`: any thread.
    Any,
    /// The thread with this identifier, which is not zero.
    Id(u64),
}

/// The command that selects a thread.
#[derive(PartialEq, Eq, Debug, Clone, Copy, Structural)]
pub struct H {
    /// The operations the selection is for.
    pub kind: ThreadOp,
    /// The thread selected.
    pub id: ThreadId,
}

impl ThreadId {
    /// What a thread-id field parses to: `-1`, or a hexadecimal number.
    pub open spec fn parsed(field: Seq<u8>) -> Option<ThreadId> {
        if field =~= seq![MINUS, DIGIT_1] {
            Some(ThreadId::All)
        } else {
            match parse_u64(field) {
                Some(id) => if id == 0 {
                    Some(ThreadId::Any)
                } else {
                    Some(ThreadId::Id(id))
                },
                None => None,
            }
        }
    }

    /// Parses a thread-id field.
    pub fn parse_bytes(field: &[u8]) -> (r: Result<ThreadId, ()>)
        ensures
            match r {
                Ok(id) => ThreadId::parsed(field@) == Some(id),
                Err(_) => ThreadId::parsed(field@) is None,
            },
    {
        if field.len() == 2 && field[0] == MINUS && field[1] == DIGIT_1 {
            return Ok(ThreadId::All);
        }
        match decode_u64(field) {
            Some(id) => if id == 0 {
                Ok(ThreadId::Any)
            } else {
                Ok(ThreadId::Id(id))
            },
            None => Err(()),
        }
    }
}

impl H {
    /// What a body parses to: one operation letter, `c` or `g`, and a
    /// thread-id right after it.
    pub open spec fn parsed(body: Seq<u8>) -> Option<H> {
        if body.len() == 0 {
            None
        } else if body[0] != LOWER_C && body[0] != LOWER_G {
            None
        } else {
            match ThreadId::parsed(body.subrange(1, body.len() as int)) {
                Some(id) => Some(
                    H { kind: if body[0] == LOWER_C {
                        ThreadOp::Resume
                    } else {
                        ThreadOp::General
                    }, id },
                ),
                None => None,
            }
        }
    }

    /// Parses the bytes of a body.
    pub fn parse_bytes(body: &[u8]) -> (r: Result<H, ()>)
        ensures
            match r {
                Ok(command) => H::parsed(body@) == Some(command),
                Err(_) => H::parsed(body@) is None,
            },
    {
        if body.len() == 0 {
            return Err(());
        }
        let kind: ThreadOp = if body[0] == LOWER_C {
            ThreadOp::Resume
        } else if body[0] == LOWER_G {
            ThreadOp::General
        } else {
            return Err(());
        };
        match ThreadId::parse_bytes(slice_subrange(body, 1, body.len())) {
            Ok(id) => Ok(H { kind, id }),
            Err(_) => Err(()),
        }
    }
}

} // verus!
