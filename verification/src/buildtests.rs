//! A self-test of the instruction layouts.

use vstd::prelude::*;
use crate::instruction::{load_value_word, three_reg_word};
use crate::um::UmWord;

verus! {

/// A self-test of the two instruction layouts on eight known words.
#[derive(Clone, Copy)]
pub struct TestBuilder {}

impl TestBuilder {
    /// The standard instruction word: the opcode in bits 28..31 and the
    /// three low bits of each register number in bits 6..8, 3..5 and 0..2.
    pub fn build_three_reg_instruction(self, opcode: u32, reg_a: u32, reg_b: u32, reg_c: u32) -> (word:
        UmWord)
        ensures
            word == three_reg_word(opcode, reg_a, reg_b, reg_c),
    {
        (opcode << 28) | ((reg_a & 7) << 6) | ((reg_b & 7) << 3) | (reg_c & 7)
    }

    /// The load-value instruction word: the opcode in bits 28..31, the three
    /// low bits of the register number in bits 25..27 and the low 25 bits of
    /// the value in bits 0..24.
    pub fn build_load_value_instruction(self, opcode: u32, reg_a: u32, value: u32) -> (word: UmWord)
        ensures
            word == load_value_word(opcode, reg_a, value),
    {
        (opcode << 28) | ((reg_a & 7) << 25) | (value & 0x1FF_FFFF)
    }

    /// Builds eight instructions and says whether each is the word that it
    /// has to be. All eight are.
    pub fn writetests(&mut self) -> (passed: bool)
        ensures
            passed == known_words_agree(),
            passed,
    {
        proof {
            lemma_known_words();
        }
        self.build_three_reg_instruction(0, 0, 0, 0) == 0x00000000u32
            && self.build_three_reg_instruction(1, 0, 0, 0) == 0x10000000u32
            && self.build_three_reg_instruction(1, 0, 7, 1) == 0b00010000000000000000000000111001
            && self.build_three_reg_instruction(10, 0, 7, 1) == 0b10100000000000000000000000111001
            && self.build_three_reg_instruction(10, 1, 7, 1) == 0b10100000000000000000000001111001
            && self.build_load_value_instruction(13, 2, 5) == 0xD4000005u32
            && self.build_load_value_instruction(13, 3, 5) == 0xD6000005u32
            && self.build_load_value_instruction(13, 3, 0xFFFFFFFFu32) == 0xD7FFFFFFu32
    }
}

/// Each of the eight instructions of the self-test is the word that it has
/// to be.
pub open spec fn known_words_agree() -> bool {
    &&& three_reg_word(0, 0, 0, 0) == 0x00000000u32
    &&& three_reg_word(1, 0, 0, 0) == 0x10000000u32
    &&& three_reg_word(1, 0, 7, 1) == 0b00010000000000000000000000111001u32
    &&& three_reg_word(10, 0, 7, 1) == 0b10100000000000000000000000111001u32
    &&& three_reg_word(10, 1, 7, 1) == 0b10100000000000000000000001111001u32
    &&& load_value_word(13, 2, 5) == 0xD4000005u32
    &&& load_value_word(13, 3, 5) == 0xD6000005u32
    &&& load_value_word(13, 3, 0xFFFFFFFFu32) == 0xD7FFFFFFu32
}

/// The self-test passes: the layouts give the eight known words.
pub proof fn lemma_known_words()
    ensures
        known_words_agree(),
{
    assert(three_reg_word(0, 0, 0, 0) == 0x00000000u32) by (bit_vector);
    assert(three_reg_word(1, 0, 0, 0) == 0x10000000u32) by (bit_vector);
    assert(three_reg_word(1, 0, 7, 1) == 0b00010000000000000000000000111001u32) by (bit_vector);
    assert(three_reg_word(10, 0, 7, 1) == 0b10100000000000000000000000111001u32) by (bit_vector);
    assert(three_reg_word(10, 1, 7, 1) == 0b10100000000000000000000001111001u32) by (bit_vector);
    assert(load_value_word(13, 2, 5) == 0xD4000005u32) by (bit_vector);
    assert(load_value_word(13, 3, 5) == 0xD6000005u32) by (bit_vector);
    assert(load_value_word(13, 3, 0xFFFFFFFFu32) == 0xD7FFFFFFu32) by (bit_vector);
}

} // verus!
