//! The ASCII bytes that the protocol gives a meaning to.

use vstd::prelude::*;

verus! {

/// `$`, which opens a frame.
pub const DOLLAR: u8 = 0x24;

/// `#`, which closes a frame's body.
pub const HASH: u8 = 0x23;

/// `*`, which the protocol reserves for run lengths.
pub const STAR: u8 = 0x2a;

/// `}`, which announces an escaped byte.
pub const BRACE: u8 = 0x7d;

/// `+`, the positive acknowledgment.
pub const PLUS: u8 = 0x2b;

/// `-`, the negative acknowledgment.
pub const MINUS: u8 = 0x2d;

/// `,`, which separates numeric fields.
pub const COMMA: u8 = 0x2c;

/// `:`, which separates a header from its data.
pub const COLON: u8 = 0x3a;

/// `;`, which separates the items of a list.
pub const SEMICOLON: u8 = 0x3b;

/// `0`, the first decimal digit.
pub const DIGIT_0: u8 = 0x30;

/// `1`.
pub const DIGIT_1: u8 = 0x31;

/// `9`, the last decimal digit.
pub const DIGIT_9: u8 = 0x39;

/// `a`, the first lower-case hexadecimal letter.
pub const LOWER_A: u8 = 0x61;

/// `f`, the last lower-case hexadecimal letter.
pub const LOWER_F: u8 = 0x66;

/// `A`, the first upper-case hexadecimal letter.
pub const UPPER_A: u8 = 0x41;

/// `F`, the last upper-case hexadecimal letter.
pub const UPPER_F: u8 = 0x46;

/// `c`, the letter of the continue command.
pub const LOWER_C: u8 = 0x63;

/// `g`, which selects the thread of the other operations.
pub const LOWER_G: u8 = 0x67;

/// `k`, the letter of the kill command.
pub const LOWER_K: u8 = 0x6b;

/// `m`, the letter of the command that reads memory.
pub const LOWER_M: u8 = 0x6d;

/// `q`, the letter of the queries.
pub const LOWER_Q: u8 = 0x71;

/// `s`, the letter of the single-step command.
pub const LOWER_S: u8 = 0x73;

/// `D`, the letter of the detach command.
pub const UPPER_D: u8 = 0x44;

/// `E`, which opens an error reply.
pub const UPPER_E: u8 = 0x45;

/// `H`, the letter of the command that selects a thread.
pub const UPPER_H: u8 = 0x48;

/// `K`, the second letter of the reply `OK`.
pub const UPPER_K: u8 = 0x4b;

/// `M`, the letter of the command that writes memory.
pub const UPPER_M: u8 = 0x4d;

/// `O`, the first letter of the reply `OK`.
pub const UPPER_O: u8 = 0x4f;

} // verus!
