//! `qSupported[:feature[;feature]...]`: feature negotiation.

use vstd::prelude::*;
use vstd::slice::{slice_subrange, slice_to_vec};

use crate::protocol::ascii::COLON;

verus! {

/// The query that opens feature negotiation.
#[derive(PartialEq, Eq, Debug, Clone)]
pub struct QSupported {
    /// The debugger's features as transmitted, separated by `;`; empty where
    /// it names none.
    pub features: Vec<u8>,
}

impl View for QSupported {
    type V = Seq<u8>;

    open spec fn view(&self) -> Seq<u8> {
        self.features@
    }
}

impl QSupported {
    /// The query's name after its letter `q`: the bytes of `Supported`.
    pub open spec fn name() -> Seq<u8> {
        seq![0x53u8, 0x75u8, 0x70u8, 0x70u8, 0x6fu8, 0x72u8, 0x74u8, 0x65u8, 0x64u8]
    }

    /// The features that a body names, where the body is this query's:
    /// `Supported` alone, or `Supported:` and the features.
    pub open spec fn parsed(body: Seq<u8>) -> Option<Seq<u8>> {
        if body =~= Self::name() {
            Some(Seq::empty())
        } else if body.len() > 9 && body.subrange(0, 9) =~= Self::name() && body[9] == COLON {
            Some(body.subrange(10, body.len() as int))
        } else {
            None
        }
    }

    /// Parses the bytes of a body; `None` where the body is some other query.
    pub fn parse_bytes(body: &[u8]) -> (r: Option<QSupported>)
        ensures
            match r {
                Some(query) => QSupported::parsed(body@) == Some(query@),
                None => QSupported::parsed(body@) is None,
            },
    {
        if body.len() < 9 || body[0] != 0x53 || body[1] != 0x75 || body[2] != 0x70 || body[3]
            != 0x70 || body[4] != 0x6f || body[5] != 0x72 || body[6] != 0x74 || body[7] != 0x65
            || body[8] != 0x64 {
            proof {
                if body@.len() >= 9 {
                    let head = body@.subrange(0, 9);
                    assert(head[0] == body@[0] && head[1] == body@[1] && head[2] == body@[2]
                        && head[3] == body@[3] && head[4] == body@[4] && head[5] == body@[5]
                        && head[6] == body@[6] && head[7] == body@[7] && head[8] == body@[8]);
                }
            }
            return None;
        }
        proof {
            assert(body@.subrange(0, 9) =~= Self::name());
        }
        if body.len() == 9 {
            proof {
                assert(body@ =~= Self::name());
            }
            let features: Vec<u8> = Vec::new();
            proof {
                assert(features@ =~= Seq::<u8>::empty());
            }
            Some(QSupported { features })
        } else if body[9] == COLON {
            Some(QSupported { features: slice_to_vec(slice_subrange(body, 10, body.len())) })
        } else {
            None
        }
    }
}

} // verus!
