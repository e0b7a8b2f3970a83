//! Splitting a command body at its delimiters.

use vstd::prelude::*;

verus! {

/// The first occurrence of `b` in `s` is at `i`, once `b` stands there and
/// nowhere before.
pub proof fn lemma_first_at(s: Seq<u8>, b: u8, i: int)
    requires
        0 <= i < s.len(),
        s[i] == b,
        forall|j: int| 0 <= j < i ==> s[j] != b,
    ensures
        s.index_of_first(b) == Some(i),
{
    assert(s.contains(b));
    s.index_of_first_ensures(b);
    let found = s.index_of_first(b).unwrap();
    if found < i {
        assert(s[found] != b);
    } else if i < found {
        assert(s[i] != b);
    }
}

/// A byte that occurs nowhere in `s` has no first occurrence.
pub proof fn lemma_absent(s: Seq<u8>, b: u8)
    requires
        forall|j: int| 0 <= j < s.len() ==> s[j] != b,
    ensures
        s.index_of_first(b) is None,
{
    s.index_of_first_ensures(b);
    if s.index_of_first(b) is Some {
        let found = s.index_of_first(b).unwrap();
        assert(s[found] != b);
    }
}

/// Where `b` first occurs in `s`, if it does.
pub fn position(s: &[u8], b: u8) -> (r: Option<usize>)
    ensures
        match r {
            Some(i) => s@.index_of_first(b) == Some(i as int),
            None => s@.index_of_first(b) is None,
        },
{
    let mut i: usize = 0;
    while i < s.len()
        invariant
            i <= s.len(),
            forall|j: int| 0 <= j < i ==> s@[j] != b,
        decreases s.len() - i,
    {
        if s[i] == b {
            proof {
                lemma_first_at(s@, b, i as int);
            }
            return Some(i);
        }
        i += 1;
    }
    proof {
        lemma_absent(s@, b);
    }
    None
}

} // verus!
