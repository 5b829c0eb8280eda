//! The assembler: one instruction word for each line of assembly.

pub mod lemmas;
pub mod scan;
pub mod syntax;

use vstd::prelude::*;
use crate::image::{image_of, to_image};
use crate::instruction::{load_value_word, three_reg_word};
use crate::um::{UmOp, UmWord};

verus! {

/// The line that stopped an assembly, counted from 0.
#[derive(Clone, Copy, PartialEq, Eq, Debug, Structural)]
pub struct AsmError {
    pub line: usize,
}

/// The assembler: from lines of assembly to instruction words, and from
/// those to the image of a program.
pub struct UMAssembler {}

impl UMAssembler {
    /// The standard instruction word: the opcode in bits 28..31 and the
    /// three low bits of each register number in bits 6..8, 3..5 and 0..2.
    pub fn build_three_reg_instruction(opcode: u32, reg_a: u32, reg_b: u32, reg_c: u32) -> (word:
        UmWord)
        ensures
            word == three_reg_word(opcode, reg_a, reg_b, reg_c),
    {
        (opcode << 28) | ((reg_a & 7) << 6) | ((reg_b & 7) << 3) | (reg_c & 7)
    }

    /// The load-value instruction word: the opcode in bits 28..31, the three
    /// low bits of the register number in bits 25..27 and the low 25 bits of
    /// the value in bits 0..24.
    pub fn build_load_value_instruction(opcode: u32, reg_a: u32, value: u32) -> (word: UmWord)
        ensures
            word == load_value_word(opcode, reg_a, value),
    {
        (opcode << 28) | ((reg_a & 7) << 25) | (value & 0x1FF_FFFF)
    }

    /// The instruction word of a line of assembly, or `None` where the line
    /// is no instruction. Whitespace counts nowhere in the line.
    pub fn parse_instruction(line: &str) -> (word: Option<u32>)
        ensures
            word == syntax::assemble_line(line@),
    {
        let stripped = scan::strip_whitespace(line);
        let text = stripped.as_slice();
        proof {
            assert(['+']@ =~= seq!['+']);
            assert(['*']@ =~= seq!['*']);
            assert(['/']@ =~= seq!['/']);
        }
        if let Some((left, right)) = scan::split_once(text, &[':', '=']) {
            if scan::starts_with(left, &['m', '[']) {
                let (segment_id, offset) = scan::memory_reference(left)?;
                let reg = scan::register(right)?;
                return Some(
                    UMAssembler::build_three_reg_instruction(
                        UmOp::SSTORE.code(),
                        segment_id,
                        offset,
                        reg,
                    ),
                );
            }
            // left must be a register

            let lreg = scan::register(left)?;

            // binop
            if let Some((bin1, bin2)) = scan::split_once(right, &['+']) {
                let (rb, rc) = scan::register_pair(bin1, bin2)?;
                return Some(UMAssembler::build_three_reg_instruction(UmOp::ADD.code(), lreg, rb, rc));
            }
            if let Some((bin1, bin2)) = scan::split_once(right, &['*']) {
                let (rb, rc) = scan::register_pair(bin1, bin2)?;
                return Some(UMAssembler::build_three_reg_instruction(UmOp::MUL.code(), lreg, rb, rc));
            }
            if let Some((bin1, bin2)) = scan::split_once(right, &['/']) {
                let (rb, rc) = scan::register_pair(bin1, bin2)?;
                return Some(UMAssembler::build_three_reg_instruction(UmOp::DIV.code(), lreg, rb, rc));
            }
            if let Some((bin1, bin2)) = scan::split_once(right, &['n', 'a', 'n', 'd']) {
                let (rb, rc) = scan::register_pair(bin1, bin2)?;
                return Some(
                    UMAssembler::build_three_reg_instruction(UmOp::NAND.code(), lreg, rb, rc),
                );
            }
            // segmented load

            if let Some((segment_id, offset)) = scan::memory_reference(right) {
                return Some(
                    UMAssembler::build_three_reg_instruction(
                        UmOp::SLOAD.code(),
                        lreg,
                        segment_id,
                        offset,
                    ),
                );
            }
            // cmov

            if let Some((src, test)) = scan::condition(right) {
                return Some(
                    UMAssembler::build_three_reg_instruction(UmOp::CMOV.code(), lreg, src, test),
                );
            }
            // map

            if let Some(size) = scan::size(right) {
                return Some(UMAssembler::build_three_reg_instruction(UmOp::MAP.code(), 0, lreg, size));
            }
            // load value

            if let Some(value) = scan::literal(right) {
                return Some(UMAssembler::build_load_value_instruction(UmOp::LV.code(), lreg, value));
            }
            return None;
        }
        // unop

        if let Some(reg) = scan::strip_prefix(text, &['u', 'n', 'm', 'a', 'p']) {
            let rc = scan::register(reg)?;
            return Some(UMAssembler::build_three_reg_instruction(UmOp::UNMAP.code(), 0, 0, rc));
        }
        if let Some(reg) = scan::strip_prefix(text, &['o', 'u', 't']) {
            let rc = scan::register(reg)?;
            return Some(UMAssembler::build_three_reg_instruction(UmOp::OUT.code(), 0, 0, rc));
        }
        if let Some(reg) = scan::strip_prefix(text, &['i', 'n']) {
            let rc = scan::register(reg)?;
            return Some(UMAssembler::build_three_reg_instruction(UmOp::IN.code(), 0, 0, rc));
        }
        if let Some(inner_expr) = scan::strip_prefix(text, &['g', 'o', 't', 'o']) {
            let (segment_id, offset) = scan::memory_reference(inner_expr)?;
            return Some(
                UMAssembler::build_three_reg_instruction(UmOp::LOADP.code(), 0, segment_id, offset),
            );
        }
        assert(text@.len() == 4 ==> text@.subrange(0, 4) =~= text@);
        if text.len() == 4 && scan::starts_with(text, &['h', 'a', 'l', 't']) {
            return Some(UMAssembler::build_three_reg_instruction(UmOp::HALT.code(), 0, 0, 0));
        }
        None
    }

    /// The value of a literal: hexadecimal after `0x`, binary after `0b`,
    /// decimal otherwise.
    pub fn parse_value(line: &str) -> (value: Option<u32>)
        ensures
            value == syntax::literal(line@),
    {
        let text = scan::chars_of(line);
        scan::literal(text.as_slice())
    }

    /// The register of the size in `map rX`.
    pub fn parse_size(line: &str) -> (index: Option<u32>)
        ensures
            index == syntax::size(line@),
    {
        let text = scan::chars_of(line);
        scan::size(text.as_slice())
    }

    /// The two registers of `rX if rY`.
    pub fn parse_condition(line: &str) -> (pair: Option<(u32, u32)>)
        ensures
            pair == syntax::condition(line@),
    {
        let text = scan::chars_of(line);
        scan::condition(text.as_slice())
    }

    /// The registers of the segment and of the offset in `m[rX][rY]`.
    pub fn parse_memory(line: &str) -> (pair: Option<(u32, u32)>)
        ensures
            pair == syntax::memory_reference(line@),
    {
        let text = scan::chars_of(line);
        scan::memory_reference(text.as_slice())
    }

    /// The index of a register reference: the letter `r` and a decimal index,
    /// with nothing before, between or after them, whitespace neither.
    pub fn parse_reg(line: &str) -> (index: Option<u32>)
        ensures
            index == syntax::register(line@),
    {
        let text = scan::chars_of(line);
        scan::register(text.as_slice())
    }

    /// Assembles the lines of a source text, one instruction to a line, and
    /// stops at the first line that is none, which the error names.
    pub fn read_asm_code(&mut self, lines: &Vec<String>) -> (program: Result<Vec<u32>, AsmError>)
        ensures
            match program {
                Ok(words) => {
                    &&& words@.len() == lines@.len()
                    &&& forall|i: int|
                        0 <= i < lines@.len() ==> syntax::assemble_line((#[trigger] lines@[i])@)
                            == Some(words@[i])
                },
                Err(error) => {
                    &&& error.line < lines@.len()
                    &&& syntax::assemble_line(lines@[error.line as int]@) is None
                    &&& forall|i: int|
                        0 <= i < error.line ==> syntax::assemble_line((#[trigger] lines@[i])@)
                            is Some
                },
            },
    {
        let mut instructions: Vec<u32> = Vec::new();
        let mut i: usize = 0;
        while i < lines.len()
            invariant
                i <= lines@.len(),
                instructions@.len() == i,
                forall|j: int|
                    0 <= j < i ==> syntax::assemble_line((#[trigger] lines@[j])@) == Some(
                        instructions@[j],
                    ),
            decreases lines@.len() - i,
        {
            match UMAssembler::parse_instruction(lines[i].as_str()) {
                Some(instr) => instructions.push(instr),
                None => {
                    return Err(AsmError { line: i });
                },
            }
            i = i + 1;
        }
        Ok(instructions)
    }

    /// The image of a program: each word as four bytes, the most
    /// significant first, in the program's order.
    pub fn write_mach_code(&mut self, program: &Vec<u32>) -> (image: Vec<u8>)
        ensures
            image@ == image_of(program@),
    {
        to_image(program)
    }
}

} // verus!
