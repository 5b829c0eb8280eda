use um::assembler::UMAssembler;
use um::um::{Event, Fault, Status, UM};

fn assemble(source: &[&str]) -> Vec<u32> {
    let lines: Vec<String> = source.iter().map(|line| line.to_string()).collect();
    let mut assembler = UMAssembler {};
    assembler.read_asm_code(&lines).expect("every line is an instruction")
}

fn boot(program: &Vec<u32>) -> UM {
    let mut assembler = UMAssembler {};
    let image = assembler.write_mach_code(program);
    let mut machine = UM::new();
    assert_eq!(machine.init_program(&image), Ok(()));
    machine
}

/// Runs the machine to its end on the given input and returns what it wrote
/// and how it ended.
fn drive(machine: &mut UM, input: &[u8]) -> (Vec<u8>, Event) {
    let mut output = Vec::new();
    let mut unread = input.iter();
    for _ in 0..10_000 {
        match machine.run(1_000) {
            Event::Continue => {}
            Event::Output(byte) => output.push(byte),
            Event::Input => {
                assert!(machine.input(unread.next().copied()));
            }
            end => return (output, end),
        }
    }
    panic!("the machine did not come to an end");
}

#[test]
fn scenario_immediate_output() {
    let program = assemble(&["r1 := 65", "out r1", "halt"]);
    let mut machine = boot(&program);
    let (output, end) = drive(&mut machine, &[]);
    assert_eq!(output, vec![0x41u8]);
    assert_eq!(output, b"A".to_vec());
    assert_eq!(end, Event::Halted);
    assert_eq!(machine.status(), Status::Halted);
}

#[test]
fn scenario_arithmetic() {
    let program = assemble(&["r1 := 2", "r2 := 3", "r3 := r1 + r2", "out r3", "halt"]);
    let mut machine = boot(&program);
    let (output, end) = drive(&mut machine, &[]);
    assert_eq!(output, vec![0x05u8]);
    assert_eq!(end, Event::Halted);
    assert_eq!(machine.registers(), [0, 2, 3, 5, 0, 0, 0, 0]);
}

#[test]
fn scenario_wrapping_multiply() {
    let program = assemble(&["r1 := 0x10000", "r2 := 0x10000", "r3 := r1 * r2"]);
    let mut machine = boot(&program);
    let (output, end) = drive(&mut machine, &[]);
    assert!(output.is_empty());
    assert_eq!(end, Event::Halted);
    assert_eq!(machine.registers()[1], 0x10000);
    assert_eq!(machine.registers()[2], 0x10000);
    assert_eq!(machine.registers()[3], 0);
}

#[test]
fn scenario_segment_lifecycle() {
    let program = assemble(&[
        "r1 := 4",
        "r2 := map r1",
        "r3 := 7",
        "r4 := 0",
        "m[r2][r4] := r3",
        "r5 := m[r2][r4]",
        "out r5",
        "halt",
    ]);
    let mut machine = boot(&program);
    let (output, end) = drive(&mut machine, &[]);
    assert_eq!(output, vec![0x07u8]);
    assert_eq!(end, Event::Halted);
    let id = machine.registers()[2] as usize;
    assert_ne!(id, 0);
    assert_eq!(machine.memory().segment_len(id), Some(4));
    assert_eq!(machine.memory().read(id, 0), Ok(7));
    assert_eq!(machine.memory().read(id, 1), Ok(0));
}

#[test]
fn scenario_branch_within_the_program() {
    let program = assemble(&[
        "r1 := 65",
        "r5 := 4",
        "goto m[r2][r5]",
        "out r1",
        "r1 := 66",
        "out r1",
        "halt",
    ]);
    let mut machine = boot(&program);
    let (output, end) = drive(&mut machine, &[]);
    assert_eq!(output, b"B".to_vec());
    assert_eq!(end, Event::Halted);
    assert_eq!(machine.memory().segment_len(0), Some(7));
    assert_eq!(machine.pc(), 7);
}

#[test]
fn scenario_branch_sets_only_the_program_counter() {
    let program = assemble(&["r5 := 2", "goto m[r2][r5]", "halt"]);
    let mut machine = boot(&program);
    assert_eq!(machine.step(), Event::Continue);
    let before = machine.registers();
    assert_eq!(machine.step(), Event::Continue);
    assert_eq!(machine.pc(), 2);
    assert_eq!(machine.registers(), before);
    assert_eq!(machine.memory().segment_len(0), Some(3));
    assert_eq!(machine.memory().segment_len(1), None);
}

#[test]
fn scenario_load_of_a_mapped_program() {
    let program = assemble(&[
        "r1 := 1",
        "r2 := map r1",
        "r3 := 7",
        "r4 := 0x1000000",
        "r6 := 16",
        "r4 := r4 * r6",
        "r3 := r3 * r4",
        "m[r2][r0] := r3",
        "r1 := 65",
        "goto m[r2][r5]",
        "out r1",
        "halt",
    ]);
    let mut machine = boot(&program);
    assert_eq!(machine.run(9), Event::Continue);
    assert_eq!(machine.registers()[3], 0x7000_0000);
    let id = machine.registers()[2] as usize;
    assert_eq!(machine.memory().read(id, 0), Ok(0x7000_0000));
    // The load replaces the program and jumps to its start.
    assert_eq!(machine.step(), Event::Continue);
    assert_eq!(machine.pc(), 0);
    assert_eq!(machine.memory().segment_len(0), Some(1));
    assert_eq!(machine.memory().read(0, 0), Ok(0x7000_0000));
    // The very next instruction is the halt that was loaded.
    assert_eq!(machine.step(), Event::Halted);
    assert_eq!(machine.status(), Status::Halted);
    // The copy does not depend on its source.
    assert_eq!(machine.memory().segment_len(id), Some(1));
}

#[test]
fn scenario_end_of_input() {
    let program = assemble(&["in r1", "out r1", "halt"]);
    let mut machine = boot(&program);
    let (output, end) = drive(&mut machine, &[]);
    assert_eq!(machine.registers()[1], 0xFFFF_FFFF);
    assert_eq!(output, vec![0xFFu8]);
    assert_eq!(end, Event::Halted);
}

#[test]
fn scenario_echo_of_the_input() {
    let program = assemble(&["in r1", "out r1", "in r2", "out r2", "in r3", "halt"]);
    let mut machine = boot(&program);
    let (output, end) = drive(&mut machine, b"hi");
    assert_eq!(output, b"hi".to_vec());
    assert_eq!(end, Event::Halted);
    assert_eq!(machine.registers()[1], 'h' as u32);
    assert_eq!(machine.registers()[2], 'i' as u32);
    assert_eq!(machine.registers()[3], 0xFFFF_FFFF);
}

#[test]
fn scenario_fault_stops_the_machine() {
    let program = assemble(&["r1 := 1", "r2 := r1 / r0", "out r1", "halt"]);
    let mut machine = boot(&program);
    let (output, end) = drive(&mut machine, &[]);
    assert!(output.is_empty());
    assert_eq!(end, Event::Faulted(Fault::DivisionByZero));
    assert_eq!(machine.status(), Status::Faulted(Fault::DivisionByZero));
    // It executes nothing more.
    assert_eq!(machine.run(10), Event::Faulted(Fault::DivisionByZero));
    assert_eq!(machine.registers()[1], 1);
}
