//! Hexadecimal fields, as the protocol writes numbers and binary data.

use vstd::prelude::*;

use crate::protocol::ascii::{DIGIT_0, DIGIT_9, LOWER_A, LOWER_F, UPPER_A, UPPER_F};

verus! {

/// The value of one hexadecimal digit given as an ASCII byte, in either case.
pub open spec fn digit_value(c: u8) -> Option<nat> {
    if DIGIT_0 <= c <= DIGIT_9 {
        Some((c - DIGIT_0) as nat)
    } else if LOWER_A <= c <= LOWER_F {
        Some((c - LOWER_A + 10) as nat)
    } else if UPPER_A <= c <= UPPER_F {
        Some((c - UPPER_A + 10) as nat)
    } else {
        None
    }
}

/// The lower-case ASCII digit that writes `n`, for `n` below sixteen.
pub open spec fn digit_char(n: nat) -> u8
    recommends
        n < 16,
{
    if n < 10 {
        (DIGIT_0 + n) as u8
    } else {
        (LOWER_A + n - 10) as u8
    }
}

/// `s` is a non-empty run of hexadecimal digits.
pub open spec fn is_hex(s: Seq<u8>) -> bool {
    s.len() > 0 && forall|i: int| 0 <= i < s.len() ==> digit_value(#[trigger] s[i]) is Some
}

/// The number that the digits of `s` write in base sixteen, most significant
/// digit first. A byte that is no digit counts as zero.
pub open spec fn number(s: Seq<u8>) -> nat
    decreases s.len(),
{
    if s.len() == 0 {
        0
    } else {
        16 * number(s.drop_last()) + match digit_value(s.last()) {
            Some(d) => d,
            None => 0,
        }
    }
}

/// What a field holding a 64-bit number parses to: its value where the field
/// is a run of digits whose number fits, nothing otherwise.
pub open spec fn parse_u64(s: Seq<u8>) -> Option<u64> {
    if is_hex(s) && number(s) <= u64::MAX {
        Some(number(s) as u64)
    } else {
        None
    }
}

/// What a field holding a machine-word-sized number parses to.
pub open spec fn parse_usize(s: Seq<u8>) -> Option<usize> {
    if is_hex(s) && number(s) <= usize::MAX {
        Some(number(s) as usize)
    } else {
        None
    }
}

/// `s` is a run of digit pairs, possibly empty.
pub open spec fn is_hex_pairs(s: Seq<u8>) -> bool {
    s.len() % 2 == 0 && forall|i: int| 0 <= i < s.len() ==> digit_value(#[trigger] s[i]) is Some
}

/// The byte that the `k`-th digit pair of `s` writes.
pub open spec fn pair_value(s: Seq<u8>, k: int) -> u8 {
    (16 * digit_value(s[2 * k]).unwrap() + digit_value(s[2 * k + 1]).unwrap()) as u8
}

/// What a field of hex-encoded binary data parses to: one byte for each digit
/// pair, in order.
pub open spec fn parse_bytes(s: Seq<u8>) -> Option<Seq<u8>> {
    if is_hex_pairs(s) {
        Some(Seq::new(s.len() / 2, |k: int| pair_value(s, k)))
    } else {
        None
    }
}

/// Reading back a digit that `digit_char` wrote gives the number written.
pub proof fn lemma_digit_round_trip(n: nat)
    requires
        n < 16,
    ensures
        digit_value(digit_char(n)) == Some(n),
{
}

/// A prefix of a digit string writes a number no larger than the whole.
pub proof fn lemma_number_prefix(s: Seq<u8>, k: int)
    requires
        0 <= k <= s.len(),
    ensures
        number(s.take(k)) <= number(s),
    decreases s.len(),
{
    if k == s.len() {
        assert(s.take(k) =~= s);
    } else {
        assert(s.drop_last().take(k) =~= s.take(k));
        lemma_number_prefix(s.drop_last(), k);
    }
}

/// Reads one hexadecimal digit.
pub fn digit(c: u8) -> (r: Option<u8>)
    ensures
        match r {
            Some(d) => digit_value(c) == Some(d as nat),
            None => digit_value(c) is None,
        },
{
    if DIGIT_0 <= c && c <= DIGIT_9 {
        Some(c - DIGIT_0)
    } else if LOWER_A <= c && c <= LOWER_F {
        Some(c - LOWER_A + 10)
    } else if UPPER_A <= c && c <= UPPER_F {
        Some(c - UPPER_A + 10)
    } else {
        None
    }
}

/// Writes `n` as one lower-case hexadecimal digit.
fn to_digit(n: u8) -> (c: u8)
    requires
        n < 16,
    ensures
        c == digit_char(n as nat),
{
    if n < 10 {
        DIGIT_0 + n
    } else {
        LOWER_A + (n - 10)
    }
}

/// Writes a byte as two lower-case hexadecimal digits, the high one first.
pub fn to_digits(byte: u8) -> (pair: (u8, u8))
    ensures
        pair.0 == digit_char((byte / 16) as nat),
        pair.1 == digit_char((byte % 16) as nat),
{
    (to_digit(byte / 16), to_digit(byte % 16))
}

/// Parses a field that holds a 64-bit number.
pub fn decode_u64(s: &[u8]) -> (r: Option<u64>)
    ensures
        r == parse_u64(s@),
{
    if s.len() == 0 {
        return None;
    }
    let mut acc: u64 = 0;
    let mut i: usize = 0;
    while i < s.len()
        invariant
            i <= s.len(),
            s.len() > 0,
            forall|j: int| 0 <= j < i ==> digit_value(#[trigger] s@[j]) is Some,
            acc == number(s@.take(i as int)),
        decreases s.len() - i,
    {
        let d: u8 = match digit(s[i]) {
            Some(d) => d,
            None => {
                return None;
            },
        };
        proof {
            assert(s@.take(i + 1).drop_last() =~= s@.take(i as int));
            lemma_number_prefix(s@, i + 1);
        }
        if acc > 0x0fff_ffff_ffff_ffff {
            return None;
        }
        acc = acc * 16 + d as u64;
        i += 1;
    }
    proof {
        assert(s@.take(i as int) =~= s@);
    }
    Some(acc)
}

/// Parses a field that holds a machine-word-sized number.
pub fn decode_usize(s: &[u8]) -> (r: Option<usize>)
    ensures
        r == parse_usize(s@),
{
    match decode_u64(s) {
        Some(v) => {
            if v <= usize::MAX as u64 {
                Some(v as usize)
            } else {
                None
            }
        },
        None => None,
    }
}

/// Parses a field of hex-encoded binary data.
pub fn decode_bytes(s: &[u8]) -> (r: Option<Vec<u8>>)
    ensures
        match r {
            Some(v) => parse_bytes(s@) == Some(v@),
            None => parse_bytes(s@) is None,
        },
{
    if s.len() % 2 != 0 {
        return None;
    }
    let count: usize = s.len() / 2;
    let mut out: Vec<u8> = Vec::new();
    let mut k: usize = 0;
    while k < count
        invariant
            k <= count,
            s.len() == 2 * count,
            out@.len() == k,
            forall|i: int| 0 <= i < 2 * k ==> digit_value(#[trigger] s@[i]) is Some,
            forall|j: int| 0 <= j < k ==> out@[j] == pair_value(s@, j),
        decreases count - k,
    {
        let hi: u8 = match digit(s[2 * k]) {
            Some(d) => d,
            None => {
                return None;
            },
        };
        let lo: u8 = match digit(s[2 * k + 1]) {
            Some(d) => d,
            None => {
                return None;
            },
        };
        out.push(hi * 16 + lo);
        k += 1;
    }
    proof {
        assert(out@ =~= Seq::new(s@.len() / 2, |j: int| pair_value(s@, j)));
    }
    Some(out)
}

} // verus!
