//! The instruction decoder: a pure function from a 4-byte window of program
//! memory to a structured instruction, or to a decode failure.
//!
//! Instructions are 16-bit words, little-endian (the first byte is the low
//! byte); the remaining two bytes of the window are reserved for a future
//! 32-bit instruction class. Decoding tries three opcode families in a fixed
//! order and returns on the first match: the literal zero pattern, then the
//! single-register family, then the two-register family. The order is part of
//! the contract: the zero pattern is checked before any masked pattern, so a
//! degenerate single-register encoding can never shadow it.

use vstd::prelude::*;

verus! {

/// Destination register index carried by an instruction word.
pub type Rd = u8;
/// Source register index carried by an instruction word.
pub type Rr = u8;

/// A decoded instruction. Operands are register indices or immediate values;
/// a value is immutable once decoded.
#[derive(Clone, Copy, Debug, PartialEq, Eq)]
pub enum Instruction {
    /// Increment register `Rd` by one, wrapping modulo 256.
    Inc(Rd),
    /// Decrement register `Rd` by one, wrapping modulo 256.
    Dec(Rd),
    /// Add register `Rr` to register `Rd`, wrapping modulo 256; the result
    /// goes to `Rd`.
    Add(Rd, Rr),
    /// Load the immediate into the upper register window at `Rd + 16`.
    /// No opcode family produces this variant: it is execute-only, reachable
    /// by direct construction but not through the fetch-decode path.
    Ldi(Rd, u8),
    /// No state change.
    Nop,
}

/// The 16-bit word assembled from the first two bytes of a window,
/// little-endian.
pub open spec fn word_from_bytes(lo: u8, hi: u8) -> u16 {
    ((hi as u16) << 8) | (lo as u16)
}

/// Single-register family, layout `<|opcode|fffd|dddd|ffff|>`: the register
/// field sits in bits 4 to 8, the opcode in the remaining bits.
pub open spec fn spec_parse_rd(bits: u16) -> Option<Instruction> {
    let opcode = bits & 0b1111_1110_0000_1111;
    let rd = ((bits & 0b0000_0001_1111_0000) >> 4) as u8;
    if opcode == 0b1001_0100_0000_0011 {
        Some(Instruction::Inc(rd))
    } else if opcode == 0b1001_0100_0000_1010 {
        Some(Instruction::Dec(rd))
    } else {
        None
    }
}

/// Two-register family, layout `<|opcode|ffrd|dddd|rrrr|>`: the opcode is the
/// high six bits, the destination sits in bits 4 to 9, the source in the low
/// five bits.
pub open spec fn spec_parse_rdrr(bits: u16) -> Option<Instruction> {
    let opcode = bits & 0b1111_1100_0000_0000;
    let rd = ((bits & 0b0000_0011_1111_0000) >> 4) as u8;
    let rr = (bits & 0b0000_0000_0001_1111) as u8;
    if opcode == 0b0000_1100_0000_0000 {
        Some(Instruction::Add(rd, rr))
    } else {
        None
    }
}

/// What a 16-bit word decodes to: the zero pattern first, then the
/// single-register family, then the two-register family; `None` when no
/// family matches.
pub open spec fn spec_parse_16(bits: u16) -> Option<Instruction> {
    if bits == 0 {
        Some(Instruction::Nop)
    } else if spec_parse_rd(bits) is Some {
        spec_parse_rd(bits)
    } else {
        spec_parse_rdrr(bits)
    }
}

/// Decode a 4-byte window of program memory. Only the first two bytes are
/// read today; the other two are reserved for the 32-bit instruction class.
pub fn parse_binary(bytes: [u8; 4]) -> (instruction: Option<Instruction>)
    ensures
        instruction == spec_parse_16(word_from_bytes(bytes@[0], bytes@[1])),
{
    let b1 = bytes[0];
    let b2 = bytes[1];

    let bits16 = ((b2 as u16) << 8) | (b1 as u16);

    parse_16(bits16)
}

fn parse_16(bits: u16) -> (instruction: Option<Instruction>)
    ensures
        instruction == spec_parse_16(bits),
{
    if bits == 0 {
        return Some(Instruction::Nop);
    }
    if let Some(i) = parse_rd(bits) {
        return Some(i);
    }
    if let Some(i) = parse_rdrr(bits) {
        return Some(i);
    }
    None
}

fn parse_rd(bits: u16) -> (instruction: Option<Instruction>)
    ensures
        instruction == spec_parse_rd(bits),
{
    let opcode = bits & 0b1111_1110_0000_1111;
    let rd = ((bits & 0b0000_0001_1111_0000) >> 4) as u8;
    match opcode {
        0b1001_0100_0000_0011 => Some(Instruction::Inc(rd)),
        0b1001_0100_0000_1010 => Some(Instruction::Dec(rd)),
        _ => None,
    }
}

fn parse_rdrr(bits: u16) -> (instruction: Option<Instruction>)
    ensures
        instruction == spec_parse_rdrr(bits),
{
    let opcode = bits & 0b1111_1100_0000_0000;
    let rd = ((bits & 0b0000_0011_1111_0000) >> 4) as u8;
    let rr = (bits & 0b0000_0000_0001_1111) as u8;
    match opcode {
        0b0000_1100_0000_0000 => Some(Instruction::Add(rd, rr)),
        _ => None,
    }
}

/// Law: the all-zero word always decodes to `Nop`, ahead of every masked
/// family — and neither masked family would claim it anyway.
pub proof fn lemma_zero_word_is_nop()
    ensures
        spec_parse_16(0) == Some(Instruction::Nop),
        spec_parse_rd(0) is None,
        spec_parse_rdrr(0) is None,
{
    assert(0u16 & 0b1111_1110_0000_1111u16 == 0u16) by (bit_vector);
    assert(0u16 & 0b1111_1100_0000_0000u16 == 0u16) by (bit_vector);
}

/// Law: the two masked families are disjoint. Their fixed high bits differ,
/// so no word matches both and the committed dispatch order is defensive
/// only; decoding is deterministic whatever order a correct implementation
/// commits to.
pub proof fn lemma_families_disjoint(bits: u16)
    ensures
        spec_parse_rd(bits) is Some ==> spec_parse_rdrr(bits) is None,
{
    assert((bits & 0b1111_1110_0000_1111u16 == 0b1001_0100_0000_0011u16 || bits
        & 0b1111_1110_0000_1111u16 == 0b1001_0100_0000_1010u16) ==> bits
        & 0b1111_1100_0000_0000u16 != 0b0000_1100_0000_0000u16) by (bit_vector);
}

/// Law: a word whose opcode bits match none of the three families is refused
/// by the decoder.
pub proof fn lemma_unrecognized_word_fails(bits: u16)
    requires
        bits != 0,
        bits & 0b1111_1110_0000_1111 != 0b1001_0100_0000_0011,
        bits & 0b1111_1110_0000_1111 != 0b1001_0100_0000_1010,
        bits & 0b1111_1100_0000_0000 != 0b0000_1100_0000_0000,
    ensures
        spec_parse_16(bits) == None::<Instruction>,
{
}

} // verus!
