//! The instruction word: its two layouts, and how it is decoded.

use vstd::prelude::*;
use crate::um::UmOperations;

verus! {

/// The largest value that a load-value instruction can carry: 25 bits.
pub const VALUE_MASK: u32 = 0x1FF_FFFF;

/// The word that holds `opcode` in bits 28..31 and the three register
/// numbers, each cut to its three low bits, in bits 6..8, 3..5 and 0..2.
/// Bits 9..27 are zero.
pub open spec fn three_reg_word(opcode: u32, a: u32, b: u32, c: u32) -> u32 {
    (opcode << 28) | ((a & 7) << 6) | ((b & 7) << 3) | (c & 7)
}

/// The word that holds `opcode` in bits 28..31, the register number, cut to
/// its three low bits, in bits 25..27, and the low 25 bits of `value` in
/// bits 0..24.
pub open spec fn load_value_word(opcode: u32, a: u32, value: u32) -> u32 {
    (opcode << 28) | ((a & 7) << 25) | (value & VALUE_MASK)
}

/// What an instruction word asks for.
#[derive(Clone, Copy, PartialEq, Eq, Debug, Structural)]
pub enum Instruction {
    /// One of the operations 0..12 on the registers A, B and C.
    Standard { op: UmOperations, a: usize, b: usize, c: usize },
    /// Operation 13: register A takes the 25-bit `value`.
    LoadValue { a: usize, value: u32 },
}

impl Instruction {
    /// Register numbers are below 8, a standard instruction is not a load
    /// of a value, and a loaded value fits in 25 bits.
    pub open spec fn wf(self) -> bool {
        match self {
            Instruction::Standard { op, a, b, c } => op != UmOperations::LV && a < 8 && b < 8 && c < 8,
            Instruction::LoadValue { a, value } => a < 8 && value <= VALUE_MASK,
        }
    }
}

/// The instruction in a word: the opcode is taken from bits 28..31; opcode 13
/// has its register in bits 25..27 and its value in bits 0..24; every other
/// opcode has its registers in bits 6..8, 3..5 and 0..2, and bits 9..27 are
/// not looked at. The opcode numbers 14 and 15 name no instruction.
pub open spec fn decode_word(word: u32) -> Option<Instruction> {
    match UmOperations::spec_from_code(word >> 28) {
        None => None,
        Some(UmOperations::LV) => Some(
            Instruction::LoadValue { a: ((word >> 25) & 7) as usize, value: word & VALUE_MASK },
        ),
        Some(op) => Some(
            Instruction::Standard {
                op,
                a: ((word >> 6) & 7) as usize,
                b: ((word >> 3) & 7) as usize,
                c: (word & 7) as usize,
            },
        ),
    }
}

/// Decodes an instruction word, or gives `None` for the opcodes 14 and 15.
pub fn decode(word: u32) -> (instruction: Option<Instruction>)
    ensures
        instruction == decode_word(word),
        instruction matches Some(i) ==> i.wf(),
{
    assert((word >> 25) & 7 < 8 && (word >> 6) & 7 < 8 && (word >> 3) & 7 < 8 && word & 7 < 8
        && word & 0x1FF_FFFF <= 0x1FF_FFFF) by (bit_vector);
    match UmOperations::from_code(word >> 28) {
        None => None,
        Some(UmOperations::LV) => Some(
            Instruction::LoadValue { a: ((word >> 25) & 7) as usize, value: word & VALUE_MASK },
        ),
        Some(op) => Some(
            Instruction::Standard {
                op,
                a: ((word >> 6) & 7) as usize,
                b: ((word >> 3) & 7) as usize,
                c: (word & 7) as usize,
            },
        ),
    }
}

/// A standard instruction that was built from an operation and three register
/// numbers below 8 decodes to that operation and those registers.
pub proof fn lemma_decode_three_reg(op: UmOperations, a: u32, b: u32, c: u32)
    requires
        op != UmOperations::LV,
        a < 8,
        b < 8,
        c < 8,
    ensures
        decode_word(three_reg_word(op.spec_code(), a, b, c)) == Some(
            Instruction::Standard { op, a: a as usize, b: b as usize, c: c as usize },
        ),
{
    let k = op.spec_code();
    let word = three_reg_word(k, a, b, c);
    op.lemma_code_round_trip();
    assert(word >> 28 == k && (word >> 6) & 7 == a && (word >> 3) & 7 == b && word & 7 == c)
        by (bit_vector)
        requires
            k <= 13,
            a < 8,
            b < 8,
            c < 8,
            word == (k << 28) | ((a & 7) << 6) | ((b & 7) << 3) | (c & 7),
    ;
}

/// A load-value instruction that was built from a register number below 8 and
/// a value of at most 25 bits decodes to operation 13, that register and that
/// value.
pub proof fn lemma_decode_load_value(a: u32, value: u32)
    requires
        a < 8,
        value <= VALUE_MASK,
    ensures
        decode_word(load_value_word(UmOperations::LV.spec_code(), a, value)) == Some(
            Instruction::LoadValue { a: a as usize, value },
        ),
{
    let word = load_value_word(13, a, value);
    assert(word >> 28 == 13 && (word >> 25) & 7 == a && word & 0x1FF_FFFF == value)
        by (bit_vector)
        requires
            a < 8,
            value <= 0x1FF_FFFF,
            word == (13u32 << 28) | ((a & 7) << 25) | (value & 0x1FF_FFFF),
    ;
}

/// A standard instruction that was built from any three register numbers
/// decodes to the operation and the three low bits of each number.
pub proof fn lemma_decode_three_reg_cut(op: UmOperations, a: u32, b: u32, c: u32)
    requires
        op != UmOperations::LV,
    ensures
        decode_word(three_reg_word(op.spec_code(), a, b, c)) == Some(
            Instruction::Standard {
                op,
                a: (a & 7) as usize,
                b: (b & 7) as usize,
                c: (c & 7) as usize,
            },
        ),
        a & 7 < 8,
        b & 7 < 8,
        c & 7 < 8,
        a < 8 ==> a & 7 == a,
        b < 8 ==> b & 7 == b,
        c < 8 ==> c & 7 == c,
{
    let k = op.spec_code();
    let word = three_reg_word(k, a, b, c);
    op.lemma_code_round_trip();
    assert(word >> 28 == k && (word >> 6) & 7 == a & 7 && (word >> 3) & 7 == b & 7 && word & 7 == c
        & 7) by (bit_vector)
        requires
            k <= 13,
            word == (k << 28) | ((a & 7) << 6) | ((b & 7) << 3) | (c & 7),
    ;
    assert(a & 7 < 8 && b & 7 < 8 && c & 7 < 8 && (a < 8 ==> a & 7 == a) && (b < 8 ==> b & 7 == b)
        && (c < 8 ==> c & 7 == c)) by (bit_vector);
}

/// A load-value instruction that was built from any register number and any
/// value decodes to operation 13, the three low bits of the number and the
/// 25 low bits of the value.
pub proof fn lemma_decode_load_value_cut(a: u32, value: u32)
    ensures
        decode_word(load_value_word(UmOperations::LV.spec_code(), a, value)) == Some(
            Instruction::LoadValue { a: (a & 7) as usize, value: value & VALUE_MASK },
        ),
        a & 7 < 8,
        a < 8 ==> a & 7 == a,
        value <= VALUE_MASK ==> value & VALUE_MASK == value,
{
    let word = load_value_word(13, a, value);
    assert(word >> 28 == 13 && (word >> 25) & 7 == a & 7 && word & 0x1FF_FFFF == value & 0x1FF_FFFF)
        by (bit_vector)
        requires
            word == (13u32 << 28) | ((a & 7) << 25) | (value & 0x1FF_FFFF),
    ;
    assert(a & 7 < 8 && (a < 8 ==> a & 7 == a) && (value <= 0x1FF_FFFF ==> value & 0x1FF_FFFF
        == value)) by (bit_vector);
}

/// The value field of a load-value instruction is the value's low 25 bits,
/// whatever the opcode, the register and the value are.
pub proof fn lemma_load_value_masks(opcode: u32, a: u32, value: u32)
    ensures
        load_value_word(opcode, a, value) & VALUE_MASK == value & VALUE_MASK,
{
    let word = load_value_word(opcode, a, value);
    assert(word & 0x1FF_FFFF == value & 0x1FF_FFFF) by (bit_vector)
        requires
            word == (opcode << 28) | ((a & 7) << 25) | (value & 0x1FF_FFFF),
    ;
}

} // verus!
