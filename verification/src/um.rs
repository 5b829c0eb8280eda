//! The machine: its operations, its state, and the step from one state to
//! the next.

use vstd::prelude::*;
use crate::image::{from_image, program_of};
use crate::instruction::{decode, decode_word, Instruction};
use crate::memory::{Memory, MemoryState};

verus! {

/// A word of the machine: 32 bits, without a sign.
pub type UmWord = u32;

/// Why a machine stopped for good without halting.
#[derive(Clone, Copy, PartialEq, Eq, Debug, Structural)]
pub enum Fault {
    /// The opcode field of the fetched word holds 14 or 15.
    InvalidOpcode,
    /// A division whose divisor register holds zero.
    DivisionByZero,
    /// An identifier that names no live segment was read, written, unmapped
    /// or loaded as the program.
    UnmappedSegment,
    /// An offset at or beyond the length of the segment.
    OutOfBounds,
    /// An unmap of identifier 0, the program.
    UnmapProgram,
    /// A map whose new identifier would not fit in a word.
    AddressSpaceExhausted,
}

/// The fourteen operations, in the order of their opcode numbers.
#[derive(Clone, Copy, PartialEq, Eq, Debug, Structural)]
pub enum UmOperations {
    CMOV,
    SLOAD,
    SSTORE,
    ADD,
    MUL,
    DIV,
    NAND,
    HALT,
    MAP,
    UNMAP,
    OUT,
    IN,
    LOADP,
    LV,
}

/// The short name of `UmOperations`.
pub type UmOp = UmOperations;

impl UmOperations {
    /// The opcode number of an operation: its position in the table, from 0.
    pub open spec fn spec_code(self) -> u32 {
        match self {
            UmOperations::CMOV => 0,
            UmOperations::SLOAD => 1,
            UmOperations::SSTORE => 2,
            UmOperations::ADD => 3,
            UmOperations::MUL => 4,
            UmOperations::DIV => 5,
            UmOperations::NAND => 6,
            UmOperations::HALT => 7,
            UmOperations::MAP => 8,
            UmOperations::UNMAP => 9,
            UmOperations::OUT => 10,
            UmOperations::IN => 11,
            UmOperations::LOADP => 12,
            UmOperations::LV => 13,
        }
    }

    /// The operation that an opcode number names, if it names one.
    pub open spec fn spec_from_code(code: u32) -> Option<UmOperations> {
        match code {
            0 => Some(UmOperations::CMOV),
            1 => Some(UmOperations::SLOAD),
            2 => Some(UmOperations::SSTORE),
            3 => Some(UmOperations::ADD),
            4 => Some(UmOperations::MUL),
            5 => Some(UmOperations::DIV),
            6 => Some(UmOperations::NAND),
            7 => Some(UmOperations::HALT),
            8 => Some(UmOperations::MAP),
            9 => Some(UmOperations::UNMAP),
            10 => Some(UmOperations::OUT),
            11 => Some(UmOperations::IN),
            12 => Some(UmOperations::LOADP),
            13 => Some(UmOperations::LV),
            _ => None,
        }
    }

    /// The opcode number of an operation.
    #[verifier::when_used_as_spec(spec_code)]
    pub fn code(self) -> (n: u32)
        ensures
            n == self.spec_code(),
    {
        match self {
            UmOperations::CMOV => 0,
            UmOperations::SLOAD => 1,
            UmOperations::SSTORE => 2,
            UmOperations::ADD => 3,
            UmOperations::MUL => 4,
            UmOperations::DIV => 5,
            UmOperations::NAND => 6,
            UmOperations::HALT => 7,
            UmOperations::MAP => 8,
            UmOperations::UNMAP => 9,
            UmOperations::OUT => 10,
            UmOperations::IN => 11,
            UmOperations::LOADP => 12,
            UmOperations::LV => 13,
        }
    }

    /// The operation that an opcode number names, or `None` for a number
    /// above 13.
    #[verifier::when_used_as_spec(spec_from_code)]
    pub fn from_code(code: u32) -> (op: Option<UmOperations>)
        ensures
            op == Self::spec_from_code(code),
    {
        match code {
            0 => Some(UmOperations::CMOV),
            1 => Some(UmOperations::SLOAD),
            2 => Some(UmOperations::SSTORE),
            3 => Some(UmOperations::ADD),
            4 => Some(UmOperations::MUL),
            5 => Some(UmOperations::DIV),
            6 => Some(UmOperations::NAND),
            7 => Some(UmOperations::HALT),
            8 => Some(UmOperations::MAP),
            9 => Some(UmOperations::UNMAP),
            10 => Some(UmOperations::OUT),
            11 => Some(UmOperations::IN),
            12 => Some(UmOperations::LOADP),
            13 => Some(UmOperations::LV),
            _ => None,
        }
    }

    /// The two conversions are inverse to each other on the opcode numbers 0..13.
    pub proof fn lemma_code_round_trip(self)
        ensures
            self.spec_code() <= 13,
            Self::spec_from_code(self.spec_code()) == Some(self),
    {
    }
}

/// What a read at the end of the input puts in the register.
pub const END_OF_INPUT: UmWord = 0xFFFF_FFFF;

/// Where a machine stands.
#[derive(Clone, Copy, PartialEq, Eq, Debug, Structural)]
pub enum Status {
    /// It has instructions to execute.
    Running,
    /// It executed a halt, or its program counter left the program.
    Halted,
    /// It met a fault, and executes nothing more.
    Faulted(Fault),
}

/// What a machine tells its caller after a step or a run.
#[derive(Clone, Copy, PartialEq, Eq, Debug, Structural)]
pub enum Event {
    /// Nothing is asked of the caller: the machine can go on.
    Continue,
    /// An output instruction was executed: the caller writes the byte.
    Output(u8),
    /// The next instruction is an input: the caller reads a byte and hands
    /// it over with `input`.
    Input,
    /// The machine is halted.
    Halted,
    /// The machine is faulted.
    Faulted(Fault),
}

/// Why a program was not loaded.
#[derive(Clone, Copy, PartialEq, Eq, Debug, Structural)]
pub enum LoadError {
    /// The length of the image is no multiple of 4.
    PartialWord,
}

/// The sum of two words, modulo 2^32.
pub open spec fn wrapping_sum(x: UmWord, y: UmWord) -> UmWord {
    ((x + y) % 0x1_0000_0000) as u32
}

/// The product of two words, modulo 2^32.
pub open spec fn wrapping_product(x: UmWord, y: UmWord) -> UmWord {
    ((x * y) % 0x1_0000_0000) as u32
}

/// The complement of the bitwise and of two words.
pub open spec fn nand(x: UmWord, y: UmWord) -> UmWord {
    !(x & y)
}

/// The word that an input instruction puts in its register: the byte that
/// was read, or `END_OF_INPUT` where there was none.
pub open spec fn input_word(byte: Option<u8>) -> UmWord {
    match byte {
        Some(b) => b as u32,
        None => END_OF_INPUT,
    }
}

/// The byte that an output instruction emits for a word: its low 8 bits.
pub open spec fn output_byte(word: UmWord) -> u8 {
    (word & 0xFF) as u8
}

/// A machine as a value: eight registers, the program counter, the memory
/// and the status.
pub struct MachineState {
    pub registers: Seq<UmWord>,
    pub pc: int,
    pub memory: MemoryState,
    pub status: Status,
}

impl MachineState {
    /// A machine as it is made: registers and program counter zero, an empty
    /// program, running.
    pub open spec fn fresh() -> MachineState {
        MachineState {
            registers: Seq::new(8, |i: int| 0u32),
            pc: 0,
            memory: MemoryState::fresh(),
            status: Status::Running,
        }
    }

    /// There are eight registers, the program counter is not negative, and
    /// the memory is well formed.
    pub open spec fn wf(self) -> bool {
        &&& self.registers.len() == 8
        &&& self.pc >= 0
        &&& self.memory.wf()
    }

    /// The program: segment 0.
    pub open spec fn program(self) -> Seq<UmWord> {
        self.memory.segment(0)
    }

    /// The machine with `program` as segment 0, and all else as it was.
    pub open spec fn load(self, program: Seq<UmWord>) -> MachineState {
        MachineState { memory: self.memory.load_program(program), ..self }
    }

    /// The machine with `word` in register `r`.
    pub open spec fn with_register(self, r: int, word: UmWord) -> MachineState {
        MachineState { registers: self.registers.update(r, word), ..self }
    }

    /// The machine with the memory `memory`.
    pub open spec fn with_memory(self, memory: MemoryState) -> MachineState {
        MachineState { memory, ..self }
    }

    /// The machine with the program counter one further.
    pub open spec fn advance(self) -> MachineState {
        MachineState { pc: self.pc + 1, ..self }
    }

    /// The machine brought to a halt.
    pub open spec fn stop(self) -> (MachineState, Event) {
        (MachineState { status: Status::Halted, ..self }, Event::Halted)
    }

    /// The machine brought down by `fault`.
    pub open spec fn fail(self, fault: Fault) -> (MachineState, Event) {
        (MachineState { status: Status::Faulted(fault), ..self }, Event::Faulted(fault))
    }

    /// The machine is running and the word under its program counter is an
    /// input instruction.
    pub open spec fn awaits_input(self) -> bool {
        &&& self.status == Status::Running
        &&& self.pc < self.program().len()
        &&& decode_word(self.program()[self.pc]) matches Some(
            Instruction::Standard { op: UmOperations::IN, .. },
        )
    }

    /// The machine and the event after `instruction`, which was fetched at
    /// the program counter. An input instruction is left where it is and
    /// asks for input. Every other instruction first moves the program
    /// counter one further; a fault leaves registers and memory as they
    /// were.
    pub open spec fn execute(self, instruction: Instruction) -> (MachineState, Event) {
        let next = self.advance();
        match instruction {
            Instruction::LoadValue { a, value } => (next.with_register(a as int, value), Event::Continue),
            Instruction::Standard { op, a, b, c } => {
                let ra = self.registers[a as int];
                let rb = self.registers[b as int];
                let rc = self.registers[c as int];
                match op {
                    UmOperations::CMOV => if rc != 0 {
                        (next.with_register(a as int, rb), Event::Continue)
                    } else {
                        (next, Event::Continue)
                    },
                    UmOperations::SLOAD => match self.memory.access_fault(rb as int, rc as int) {
                        Some(fault) => next.fail(fault),
                        None => (
                            next.with_register(a as int, self.memory.read(rb as int, rc as int)),
                            Event::Continue,
                        ),
                    },
                    UmOperations::SSTORE => match self.memory.access_fault(ra as int, rb as int) {
                        Some(fault) => next.fail(fault),
                        None => (
                            next.with_memory(self.memory.write(ra as int, rb as int, rc)),
                            Event::Continue,
                        ),
                    },
                    UmOperations::ADD => (
                        next.with_register(a as int, wrapping_sum(rb, rc)),
                        Event::Continue,
                    ),
                    UmOperations::MUL => (
                        next.with_register(a as int, wrapping_product(rb, rc)),
                        Event::Continue,
                    ),
                    UmOperations::DIV => if rc == 0 {
                        next.fail(Fault::DivisionByZero)
                    } else {
                        (next.with_register(a as int, rb / rc), Event::Continue)
                    },
                    UmOperations::NAND => (next.with_register(a as int, nand(rb, rc)), Event::Continue),
                    UmOperations::HALT => next.stop(),
                    UmOperations::MAP => if self.memory.next_identifier() > u32::MAX {
                        next.fail(Fault::AddressSpaceExhausted)
                    } else {
                        (
                            next.with_memory(self.memory.map_segment(rc as nat)).with_register(
                                b as int,
                                self.memory.next_identifier() as u32,
                            ),
                            Event::Continue,
                        )
                    },
                    UmOperations::UNMAP => match self.memory.unmap_fault(rc as int) {
                        Some(fault) => next.fail(fault),
                        None => (
                            next.with_memory(self.memory.unmap_segment(rc as int)),
                            Event::Continue,
                        ),
                    },
                    UmOperations::OUT => (next, Event::Output(output_byte(rc))),
                    UmOperations::IN => (self, Event::Input),
                    UmOperations::LOADP => if rb == 0 {
                        (MachineState { pc: rc as int, ..self }, Event::Continue)
                    } else if !self.memory.is_live(rb as int) {
                        next.fail(Fault::UnmappedSegment)
                    } else {
                        (
                            MachineState {
                                pc: rc as int,
                                memory: self.memory.clone_into_program(rb as int),
                                ..self
                            },
                            Event::Continue,
                        )
                    },
                    UmOperations::LV => (next, Event::Continue),
                }
            },
        }
    }

    /// The machine and the event after one step. A machine that is halted or
    /// faulted stays as it is. A running machine halts where its program
    /// counter is at or beyond the end of the program; else it fetches the
    /// word there and decodes it, faults on an opcode that names no
    /// instruction, the program counter then one further, and executes any
    /// other.
    pub open spec fn step(self) -> (MachineState, Event) {
        match self.status {
            Status::Halted => (self, Event::Halted),
            Status::Faulted(fault) => (self, Event::Faulted(fault)),
            Status::Running => if self.pc >= self.program().len() {
                self.stop()
            } else {
                match decode_word(self.program()[self.pc]) {
                    None => self.advance().fail(Fault::InvalidOpcode),
                    Some(instruction) => self.execute(instruction),
                }
            },
        }
    }

    /// The machine and the event after a run of at most `steps` steps: the
    /// first event that is not `Continue`, with the machine as that step
    /// left it, or `Continue` after `steps` steps that asked nothing.
    pub open spec fn run(self, steps: nat) -> (MachineState, Event)
        decreases steps,
    {
        if steps == 0 {
            (self, Event::Continue)
        } else {
            let (next, event) = self.step();
            if event == Event::Continue {
                next.run((steps - 1) as nat)
            } else {
                (next, event)
            }
        }
    }

    /// The register of the input instruction under the program counter: its
    /// register C.
    pub open spec fn input_register(self) -> int
        recommends
            self.awaits_input(),
    {
        (self.program()[self.pc] & 7) as int
    }

    /// The machine after the input that it waits for: the register of the
    /// input instruction holds the byte, or `END_OF_INPUT` where there was
    /// none, and the program counter is one further. A machine that waits
    /// for no input stays as it is.
    pub open spec fn input(self, byte: Option<u8>) -> MachineState {
        if self.awaits_input() {
            self.advance().with_register(self.input_register(), input_word(byte))
        } else {
            self
        }
    }
}

/// The complement of a word is the nand of the word with itself.
pub proof fn lemma_nand_complement(x: UmWord)
    ensures
        nand(x, x) == !x,
{
    assert(!(x & x) == !x) by (bit_vector);
}

/// The and of two words is the nand of their nand with itself.
pub proof fn lemma_nand_and(x: UmWord, y: UmWord)
    ensures
        nand(nand(x, y), nand(x, y)) == x & y,
{
    assert(!(!(x & y) & !(x & y)) == x & y) by (bit_vector);
}

impl MachineState {
    /// An instruction keeps the machine well formed.
    pub proof fn lemma_execute_keeps_wf(self, instruction: Instruction)
        requires
            self.wf(),
            instruction.wf(),
        ensures
            self.execute(instruction).0.wf(),
    {
        match instruction {
            Instruction::LoadValue { .. } => {},
            Instruction::Standard { op, a, b, c } => {
                let ra = self.registers[a as int];
                let rb = self.registers[b as int];
                let rc = self.registers[c as int];
                match op {
                    UmOperations::SSTORE => {
                        if self.memory.access_fault(ra as int, rb as int) is None {
                            self.memory.lemma_write(ra as int, rb as int, rc);
                        }
                    },
                    UmOperations::MAP => {
                        self.memory.lemma_map_segment(rc as nat);
                    },
                    UmOperations::UNMAP => {
                        if self.memory.unmap_fault(rc as int) is None {
                            self.memory.lemma_unmap_segment(rc as int);
                        }
                    },
                    UmOperations::LOADP => {
                        if rb != 0 && self.memory.is_live(rb as int) {
                            self.memory.lemma_load_program(self.memory.segment(rb as int));
                        }
                    },
                    _ => {},
                }
            },
        }
    }

    /// A step keeps the machine well formed.
    pub proof fn lemma_step_keeps_wf(self)
        requires
            self.wf(),
        ensures
            self.step().0.wf(),
    {
        if self.status == Status::Running && self.pc < self.program().len() {
            let word = self.program()[self.pc];
            assert((word >> 25) & 7 < 8 && (word >> 6) & 7 < 8 && (word >> 3) & 7 < 8 && word & 7
                < 8 && word & 0x1FF_FFFF <= 0x1FF_FFFF) by (bit_vector);
            match decode_word(word) {
                Some(instruction) => {
                    self.lemma_execute_keeps_wf(instruction);
                },
                None => {},
            }
        }
    }

    /// A run keeps the machine well formed.
    pub proof fn lemma_run_keeps_wf(self, steps: nat)
        requires
            self.wf(),
        ensures
            self.run(steps).0.wf(),
        decreases steps,
    {
        if steps > 0 {
            self.lemma_step_keeps_wf();
            if self.step().1 == Event::Continue {
                self.step().0.lemma_run_keeps_wf((steps - 1) as nat);
            }
        }
    }

    /// A run can be made in parts: where a run of `first` steps asks nothing
    /// of the caller, a run of `second` steps after it ends as one run of
    /// `first + second` steps does; and where it asks something, the longer
    /// run ends as it does.
    pub proof fn lemma_run_in_parts(self, first: nat, second: nat)
        ensures
            self.run(first + second) == if self.run(first).1 == Event::Continue {
                self.run(first).0.run(second)
            } else {
                self.run(first)
            },
        decreases first,
    {
        if first > 0 {
            let (next, event) = self.step();
            if event == Event::Continue {
                next.lemma_run_in_parts((first - 1) as nat, second);
            }
        }
    }

    /// A machine that is halted or faulted stays as it is, whatever is run
    /// or handed to it, and a run of one step or more says which of the two
    /// it is.
    pub proof fn lemma_stopped_stays(self, steps: nat, byte: Option<u8>)
        requires
            self.status != Status::Running,
        ensures
            self.step().0 == self,
            self.run(steps).0 == self,
            self.input(byte) == self,
            steps > 0 ==> self.run(steps).1 == self.step().1,
            self.step().1 == match self.status {
                Status::Faulted(fault) => Event::Faulted(fault),
                _ => Event::Halted,
            },
    {
        reveal_with_fuel(MachineState::run, 2);
    }

    /// An add puts the sum of registers B and C, modulo 2^32, in register A,
    /// and a multiply their product, modulo 2^32, whatever the registers
    /// hold; all else but the program counter stays.
    pub proof fn lemma_add_mul_wrap(self, a: usize, b: usize, c: usize)
        requires
            self.wf(),
            a < 8,
            b < 8,
            c < 8,
        ensures
            ({
                let add = Instruction::Standard { op: UmOperations::ADD, a, b, c };
                let mul = Instruction::Standard { op: UmOperations::MUL, a, b, c };
                let rb = self.registers[b as int];
                let rc = self.registers[c as int];
                &&& self.execute(add) == (
                    self.advance().with_register(a as int, wrapping_sum(rb, rc)),
                    Event::Continue,
                )
                &&& self.execute(add).0.registers[a as int] == (rb + rc) % 0x1_0000_0000
                &&& self.execute(mul) == (
                    self.advance().with_register(a as int, wrapping_product(rb, rc)),
                    Event::Continue,
                )
                &&& self.execute(mul).0.registers[a as int] == (rb * rc) % 0x1_0000_0000
            }),
    {
    }

    /// A fault leaves registers and memory as they were: the machine is then
    /// faulted, with its program counter past the instruction.
    pub proof fn lemma_fault_keeps_state(self, instruction: Instruction, fault: Fault)
        requires
            self.execute(instruction).1 == Event::Faulted(fault),
        ensures
            self.execute(instruction).0 == (MachineState {
                pc: self.pc + 1,
                status: Status::Faulted(fault),
                ..self
            }),
    {
    }

    /// The faults of the instructions: a division by zero; a load or a store
    /// whose identifier names no segment, or whose offset is at or beyond
    /// the end of the segment; an unmap of the program, or of an identifier
    /// that names no segment; a load of a program from an identifier, other
    /// than 0, that names no segment.
    pub proof fn lemma_faults(self, a: usize, b: usize, c: usize)
        ensures
            ({
                let ra = self.registers[a as int];
                let rb = self.registers[b as int];
                let rc = self.registers[c as int];
                let event = |op: UmOperations|
                    self.execute(Instruction::Standard { op, a, b, c }).1;
                &&& rc == 0 ==> event(UmOperations::DIV) == Event::Faulted(Fault::DivisionByZero)
                &&& !self.memory.is_live(rb as int) ==> event(UmOperations::SLOAD)
                    == Event::Faulted(Fault::UnmappedSegment)
                &&& self.memory.is_live(rb as int) && rc >= self.memory.segment(rb as int).len()
                    ==> event(UmOperations::SLOAD) == Event::Faulted(Fault::OutOfBounds)
                &&& !self.memory.is_live(ra as int) ==> event(UmOperations::SSTORE)
                    == Event::Faulted(Fault::UnmappedSegment)
                &&& self.memory.is_live(ra as int) && rb >= self.memory.segment(ra as int).len()
                    ==> event(UmOperations::SSTORE) == Event::Faulted(Fault::OutOfBounds)
                &&& rc == 0 ==> event(UmOperations::UNMAP) == Event::Faulted(Fault::UnmapProgram)
                &&& rc != 0 && !self.memory.is_live(rc as int) ==> event(UmOperations::UNMAP)
                    == Event::Faulted(Fault::UnmappedSegment)
                &&& rb != 0 && !self.memory.is_live(rb as int) ==> event(UmOperations::LOADP)
                    == Event::Faulted(Fault::UnmappedSegment)
            }),
    {
    }

    /// After an unmap that went through, a load or a store on the identifier
    /// that was unmapped is a fault for want of a segment.
    pub proof fn lemma_access_after_unmap(self, c: usize, access: Instruction)
        requires
            self.wf(),
            c < 8,
            self.execute(Instruction::Standard { op: UmOperations::UNMAP, a: 0, b: 0, c }).1
                == Event::Continue,
            access matches Instruction::Standard { op, a, b, .. } && a < 8 && b < 8 && {
                ||| op == UmOperations::SLOAD && self.registers[b as int]
                    == self.registers[c as int]
                ||| op == UmOperations::SSTORE && self.registers[a as int]
                    == self.registers[c as int]
            },
        ensures
            ({
                let unmapped = self.execute(
                    Instruction::Standard { op: UmOperations::UNMAP, a: 0, b: 0, c },
                ).0;
                unmapped.execute(access).1 == Event::Faulted(Fault::UnmappedSegment)
            }),
    {
        self.memory.lemma_access_after_unmap(self.registers[c as int] as int, 0);
    }

    /// A conditional move whose register C holds zero changes no register
    /// and no segment: only the program counter moves on.
    pub proof fn lemma_cmov_zero(self, a: usize, b: usize, c: usize)
        requires
            self.registers[c as int] == 0,
        ensures
            self.execute(Instruction::Standard { op: UmOperations::CMOV, a, b, c }) == (
                self.advance(),
                Event::Continue,
            ),
            self.advance().registers == self.registers,
            self.advance().memory == self.memory,
    {
    }

    /// A conditional move whose register C holds another word than zero puts
    /// the word of register B in register A.
    pub proof fn lemma_cmov_nonzero(self, a: usize, b: usize, c: usize)
        requires
            self.registers[c as int] != 0,
        ensures
            self.execute(Instruction::Standard { op: UmOperations::CMOV, a, b, c }) == (
                self.advance().with_register(a as int, self.registers[b as int]),
                Event::Continue,
            ),
    {
    }

    /// A map never puts identifier 0 in its register: where it goes through,
    /// register B names a segment of as many zero words as register C held.
    pub proof fn lemma_map_never_zero(self, a: usize, b: usize, c: usize)
        requires
            self.wf(),
            a < 8,
            b < 8,
            c < 8,
        ensures
            ({
                let (after, event) = self.execute(
                    Instruction::Standard { op: UmOperations::MAP, a, b, c },
                );
                event == Event::Continue ==> {
                    &&& after.registers[b as int] != 0
                    &&& !self.memory.is_live(after.registers[b as int] as int)
                    &&& after.memory.is_live(after.registers[b as int] as int)
                    &&& after.memory.segment(after.registers[b as int] as int)
                        == MemoryState::zeros(self.registers[c as int] as nat)
                }
            }),
    {
        self.memory.lemma_map_segment(self.registers[c as int] as nat);
    }

    /// A load of the program whose register B holds zero copies nothing: it
    /// sets the program counter to the word of register C and changes
    /// nothing else.
    pub proof fn lemma_loadp_zero(self, a: usize, b: usize, c: usize)
        requires
            self.registers[b as int] == 0,
        ensures
            self.execute(Instruction::Standard { op: UmOperations::LOADP, a, b, c }) == (
                MachineState { pc: self.registers[c as int] as int, ..self },
                Event::Continue,
            ),
    {
    }

    /// A machine that waits for input takes no step until it is served; the
    /// input puts the byte that was read in register C of the instruction,
    /// or `END_OF_INPUT`, which is 0xFFFFFFFF, at the end of the input, and
    /// changes no other register and no segment.
    pub proof fn lemma_input(self, byte: Option<u8>)
        requires
            self.wf(),
            self.awaits_input(),
        ensures
            self.step() == (self, Event::Input),
            0 <= self.input_register() < 8,
            self.input(byte).wf(),
            self.input(byte).registers == self.registers.update(
                self.input_register(),
                input_word(byte),
            ),
            self.input(byte).pc == self.pc + 1,
            self.input(byte).memory == self.memory,
            self.input(byte).status == Status::Running,
            input_word(None) == 0xFFFF_FFFFu32,
    {
        let word = self.program()[self.pc];
        assert(word & 7 < 8) by (bit_vector);
    }
}

/// The machine: eight registers, a program counter into segment 0, the
/// memory, and whether it runs, is halted or is faulted.
pub struct UM {
    registers: [UmWord; 8],
    pc: usize,
    memory: Memory,
    status: Status,
}

impl View for UM {
    type V = MachineState;

    closed spec fn view(&self) -> MachineState {
        MachineState {
            registers: self.registers@,
            pc: self.pc as int,
            memory: self.memory@,
            status: self.status,
        }
    }
}

impl UM {
    /// The invariant of a machine: that of its value.
    pub open spec fn wf(&self) -> bool {
        self@.wf()
    }

    /// A machine with zeroed registers and program counter and an empty
    /// program.
    pub fn new() -> (machine: Self)
        ensures
            machine.wf(),
            machine@ == MachineState::fresh(),
    {
        let machine = UM { registers: [0u32; 8], pc: 0, memory: Memory::new(), status: Status::Running };
        assert(machine@.registers =~= MachineState::fresh().registers);
        machine
    }

    /// The eight registers.
    pub fn registers(&self) -> (registers: [UmWord; 8])
        ensures
            registers@ == self@.registers,
    {
        self.registers
    }

    /// The program counter.
    pub fn pc(&self) -> (pc: usize)
        ensures
            pc == self@.pc,
    {
        self.pc
    }

    /// The memory.
    pub fn memory(&self) -> (memory: &Memory)
        ensures
            memory@ == self@.memory,
    {
        &self.memory
    }

    /// Whether the machine runs, is halted or is faulted.
    pub fn status(&self) -> (status: Status)
        ensures
            status == self@.status,
    {
        self.status
    }

    /// Loads the program in `image`, four bytes to a word, the most
    /// significant first, as segment 0. An image whose length is no multiple
    /// of 4 is refused, and the machine is then as it was.
    pub fn init_program(&mut self, image: &[u8]) -> (done: Result<(), LoadError>)
        requires
            old(self).wf(),
        ensures
            final(self).wf(),
            match done {
                Ok(()) => image@.len() % 4 == 0 && final(self)@ == old(self)@.load(program_of(image@)),
                Err(error) => image@.len() % 4 != 0 && error == LoadError::PartialWord && final(self)@
                    == old(self)@,
            },
    {
        match from_image(image) {
            Some(program) => {
                self.memory.load_program(program);
                Ok(())
            },
            None => Err(LoadError::PartialWord),
        }
    }

    /// Marks the machine as faulted.
    fn fail(&mut self, fault: Fault) -> (event: Event)
        requires
            old(self).wf(),
        ensures
            final(self).wf(),
            (final(self)@, event) == old(self)@.fail(fault),
    {
        self.status = Status::Faulted(fault);
        Event::Faulted(fault)
    }

    /// Executes `instruction`, which was fetched at the program counter.
    fn execute(&mut self, instruction: Instruction) -> (event: Event)
        requires
            old(self).wf(),
            instruction.wf(),
            old(self)@.pc < old(self)@.program().len(),
        ensures
            final(self).wf(),
            (final(self)@, event) == old(self)@.execute(instruction),
    {
        proof {
            self.memory.lemma_fits_usize(0);
        }
        match instruction {
            Instruction::LoadValue { a, value } => {
                self.pc = self.pc + 1;
                self.registers[a] = value;
                Event::Continue
            },
            Instruction::Standard { op, a, b, c } => {
                match op {
                    UmOperations::IN => {
                        return Event::Input;
                    },
                    _ => {},
                }
                self.pc = self.pc + 1;
                match op {
                    UmOperations::CMOV => {
                        if self.registers[c] != 0 {
                            self.registers[a] = self.registers[b];
                        }
                        Event::Continue
                    },
                    UmOperations::SLOAD => {
                        let seg = self.registers[b] as usize;
                        let offset = self.registers[c] as usize;
                        match self.memory.read(seg, offset) {
                            Ok(word) => {
                                self.registers[a] = word;
                                Event::Continue
                            },
                            Err(fault) => self.fail(fault),
                        }
                    },
                    UmOperations::SSTORE => {
                        let seg = self.registers[a] as usize;
                        let offset = self.registers[b] as usize;
                        match self.memory.write(seg, offset, self.registers[c]) {
                            Ok(()) => Event::Continue,
                            Err(fault) => self.fail(fault),
                        }
                    },
                    UmOperations::ADD => {
                        self.registers[a] = self.registers[b].wrapping_add(self.registers[c]);
                        Event::Continue
                    },
                    UmOperations::MUL => {
                        self.registers[a] = self.registers[b].wrapping_mul(self.registers[c]);
                        Event::Continue
                    },
                    UmOperations::DIV => {
                        if self.registers[c] == 0 {
                            self.fail(Fault::DivisionByZero)
                        } else {
                            self.registers[a] = self.registers[b] / self.registers[c];
                            Event::Continue
                        }
                    },
                    UmOperations::NAND => {
                        self.registers[a] = !(self.registers[b] & self.registers[c]);
                        Event::Continue
                    },
                    UmOperations::HALT => {
                        self.status = Status::Halted;
                        Event::Halted
                    },
                    UmOperations::MAP => {
                        let size = self.registers[c] as usize;
                        if self.memory.next_identifier() > u32::MAX as usize {
                            self.fail(Fault::AddressSpaceExhausted)
                        } else {
                            let id = self.memory.map_segment(size);
                            self.registers[b] = id as u32;
                            Event::Continue
                        }
                    },
                    UmOperations::UNMAP => {
                        match self.memory.unmap_segment(self.registers[c] as usize) {
                            Ok(()) => Event::Continue,
                            Err(fault) => self.fail(fault),
                        }
                    },
                    UmOperations::OUT => {
                        let word = self.registers[c];
                        assert(word & 0xFF < 256) by (bit_vector);
                        Event::Output((word & 0xFF) as u8)
                    },
                    UmOperations::LOADP => {
                        if self.registers[b] != 0 {
                            match self.memory.clone_into_program(self.registers[b] as usize) {
                                Ok(()) => {},
                                Err(fault) => {
                                    return self.fail(fault);
                                },
                            }
                        }
                        self.pc = self.registers[c] as usize;
                        Event::Continue
                    },
                    _ => Event::Continue,
                }
            },
        }
    }

    /// Executes one instruction, or none where the machine is halted or
    /// faulted or waits for input, and says what the caller has to do.
    pub fn step(&mut self) -> (event: Event)
        requires
            old(self).wf(),
        ensures
            final(self).wf(),
            (final(self)@, event) == old(self)@.step(),
    {
        match self.status {
            Status::Halted => {
                return Event::Halted;
            },
            Status::Faulted(fault) => {
                return Event::Faulted(fault);
            },
            Status::Running => {},
        }
        proof {
            self.memory.lemma_fits_usize(0);
        }
        match self.memory.read(0, self.pc) {
            Err(_) => {
                self.status = Status::Halted;
                Event::Halted
            },
            Ok(word) => match decode(word) {
                None => {
                    self.pc = self.pc + 1;
                    self.fail(Fault::InvalidOpcode)
                },
                Some(instruction) => self.execute(instruction),
            },
        }
    }

    /// Executes instructions until one asks something of the caller, the
    /// machine halts or faults, or `steps` instructions were executed.
    pub fn run(&mut self, steps: u64) -> (event: Event)
        requires
            old(self).wf(),
        ensures
            final(self).wf(),
            (final(self)@, event) == old(self)@.run(steps as nat),
    {
        let mut left = steps;
        while left > 0
            invariant
                self.wf(),
                self@.run(left as nat) == old(self)@.run(steps as nat),
            decreases left,
        {
            let event = self.step();
            if event != Event::Continue {
                return event;
            }
            left = left - 1;
        }
        Event::Continue
    }

    /// Hands the machine the byte that it waits for, or the end of the
    /// input, and says whether it took it: a machine whose next instruction
    /// is no input takes none.
    pub fn input(&mut self, byte: Option<u8>) -> (taken: bool)
        requires
            old(self).wf(),
        ensures
            final(self).wf(),
            taken == old(self)@.awaits_input(),
            final(self)@ == old(self)@.input(byte),
    {
        match self.status {
            Status::Running => {},
            _ => {
                return false;
            },
        }
        proof {
            self.memory.lemma_fits_usize(0);
        }
        match self.memory.read(0, self.pc) {
            Err(_) => false,
            Ok(word) => match decode(word) {
                Some(Instruction::Standard { op: UmOperations::IN, a: _, b: _, c }) => {
                    self.pc = self.pc + 1;
                    self.registers[c] = match byte {
                        Some(b) => b as u32,
                        None => END_OF_INPUT,
                    };
                    true
                },
                _ => false,
            },
        }
    }
}

} // verus!
