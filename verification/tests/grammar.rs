use um::assembler::{AsmError, UMAssembler};
use um::instruction::{decode, Instruction};
use um::um::UmOperations;

fn std_word(op: UmOperations, a: u32, b: u32, c: u32) -> Option<u32> {
    Some(UMAssembler::build_three_reg_instruction(op as u32, a, b, c))
}

fn lv_word(a: u32, value: u32) -> Option<u32> {
    Some(UMAssembler::build_load_value_instruction(UmOperations::LV as u32, a, value))
}

#[test]
fn every_form_gives_its_exact_word() {
    assert_eq!(UMAssembler::parse_instruction("r1 := r2 if r3"), Some(0x0000_0053));
    assert_eq!(UMAssembler::parse_instruction("r1 := m[r2][r3]"), Some(0x1000_0053));
    assert_eq!(UMAssembler::parse_instruction("m[r1][r2] := r3"), Some(0x2000_0053));
    assert_eq!(UMAssembler::parse_instruction("r1 := r2 + r3"), Some(0x3000_0053));
    assert_eq!(UMAssembler::parse_instruction("r1 := r2 * r3"), Some(0x4000_0053));
    assert_eq!(UMAssembler::parse_instruction("r1 := r2 / r3"), Some(0x5000_0053));
    assert_eq!(UMAssembler::parse_instruction("r1 := r2 nand r3"), Some(0x6000_0053));
    assert_eq!(UMAssembler::parse_instruction("halt"), Some(0x7000_0000));
    assert_eq!(UMAssembler::parse_instruction("r1 := map r6"), Some(0x8000_000E));
    assert_eq!(UMAssembler::parse_instruction("unmap r1"), Some(0x9000_0001));
    assert_eq!(UMAssembler::parse_instruction("out r1"), Some(0xA000_0001));
    assert_eq!(UMAssembler::parse_instruction("in r1"), Some(0xB000_0001));
    assert_eq!(UMAssembler::parse_instruction("goto m[r2][r5]"), Some(0xC000_0015));
    assert_eq!(UMAssembler::parse_instruction("r1 := 55"), Some(0xD200_0037));
    assert_eq!(UMAssembler::parse_instruction("r7 := 0x1ffffff"), Some(0xDFFF_FFFF));
}

#[test]
fn whitespace_counts_nowhere() {
    let word = std_word(UmOperations::ADD, 1, 2, 3);
    assert_eq!(UMAssembler::parse_instruction("r1:=r2+r3"), word);
    assert_eq!(UMAssembler::parse_instruction("  r1 := r2 + r3  "), word);
    assert_eq!(UMAssembler::parse_instruction("\tr1\t:=\tr2\t+\tr3\r"), word);
    assert_eq!(UMAssembler::parse_instruction("r 1 : = r 2 + r 3"), word);
    assert_eq!(UMAssembler::parse_instruction("r1 :=\u{a0}r2 +\u{2003}r3\u{3000}"), word);
    assert_eq!(
        UMAssembler::parse_instruction(" h a l t "),
        std_word(UmOperations::HALT, 0, 0, 0)
    );
    assert_eq!(
        UMAssembler::parse_instruction("r1 := r2 n a n d r3"),
        std_word(UmOperations::NAND, 1, 2, 3)
    );
    assert_eq!(UMAssembler::parse_instruction("r1 := 0x 55"), lv_word(1, 0x55));
}

#[test]
fn literals_in_three_radixes() {
    assert_eq!(UMAssembler::parse_value("0"), Some(0));
    assert_eq!(UMAssembler::parse_value("55"), Some(55));
    assert_eq!(UMAssembler::parse_value("007"), Some(7));
    assert_eq!(UMAssembler::parse_value("0x55"), Some(0x55));
    assert_eq!(UMAssembler::parse_value("0xfF"), Some(255));
    assert_eq!(UMAssembler::parse_value("0xDeadBeef"), Some(0xDEAD_BEEF));
    assert_eq!(UMAssembler::parse_value("0b11"), Some(3));
    assert_eq!(UMAssembler::parse_value("0b0"), Some(0));
    assert_eq!(UMAssembler::parse_value("4294967295"), Some(u32::MAX));
    assert_eq!(UMAssembler::parse_value("0xffffffff"), Some(u32::MAX));
    assert_eq!(
        UMAssembler::parse_value("0b11111111111111111111111111111111"),
        Some(u32::MAX)
    );
    assert_eq!(UMAssembler::parse_value("0b1"), Some(1));
}

#[test]
fn ill_formed_literals_are_refused() {
    for text in [
        "", "0x", "0b", "x", "0X55", "0B11", "5a", "0b12", "0xg", "-1", "+1", "1_000", " 1", "1 ",
        "4294967296", "0x100000000", "0b100000000000000000000000000000000",
        "99999999999999999999999999", "１",
    ] {
        assert_eq!(UMAssembler::parse_value(text), None, "{:?}", text);
    }
    assert_eq!(UMAssembler::parse_instruction("r1 := 4294967296"), None);
    assert_eq!(UMAssembler::parse_instruction("r1 := 0x"), None);
    assert_eq!(UMAssembler::parse_instruction("r1 := 0b2"), None);
    assert_eq!(UMAssembler::parse_instruction("r1 := -5"), None);
}

#[test]
fn literal_is_cut_to_25_bits() {
    assert_eq!(UMAssembler::parse_instruction("r1 := 0x1ffffff"), lv_word(1, 0x1FF_FFFF));
    assert_eq!(UMAssembler::parse_instruction("r1 := 0x2000005"), lv_word(1, 5));
    assert_eq!(UMAssembler::parse_instruction("r1 := 0x2000005"), Some(0xD200_0005));
    assert_eq!(UMAssembler::parse_instruction("r3 := 4294967295"), Some(0xD7FF_FFFF));
    assert_eq!(UMAssembler::parse_instruction("r1 := 33554432"), Some(0xD200_0000));
}

#[test]
fn register_references() {
    assert_eq!(UMAssembler::parse_reg("r0"), Some(0));
    assert_eq!(UMAssembler::parse_reg("r7"), Some(7));
    assert_eq!(UMAssembler::parse_reg("r007"), Some(7));
    assert_eq!(UMAssembler::parse_reg("r8"), Some(8));
    assert_eq!(UMAssembler::parse_reg("r4294967295"), Some(u32::MAX));
    for text in ["", "r", "7", "R1", "x1", "r1 ", " r1", "r 1", "r-1", "r+1", "r1x", "rr1", "r0x1",
        "r4294967296", "r1\t"]
    {
        assert_eq!(UMAssembler::parse_reg(text), None, "{:?}", text);
    }
}

#[test]
fn register_index_is_not_held_to_eight() {
    assert_eq!(
        UMAssembler::parse_instruction("r99 := r2 + r3"),
        std_word(UmOperations::ADD, 3, 2, 3)
    );
    assert_eq!(UMAssembler::parse_instruction("r99 := r2 + r3"), Some(0x3000_00D3));
    assert_eq!(UMAssembler::parse_instruction("out r9"), Some(0xA000_0001));
    assert_eq!(UMAssembler::parse_instruction("r8 := 5"), Some(0xD000_0005));
    assert_eq!(UMAssembler::parse_instruction("r4294967296 := 5"), None);
}

#[test]
fn memory_references() {
    assert_eq!(UMAssembler::parse_memory("m[r2][r3]"), Some((2, 3)));
    assert_eq!(UMAssembler::parse_memory("m[r0][r12]"), Some((0, 12)));
    for text in [
        "", "m", "m[", "m[]", "m[r1]", "m[r1][r2", "m[r1][r2x", "m[r1]r2]", "m[r1][]", "m[][r2]",
        "m[1][2]", "n[r1][r2]", "m[r1][r2]]", "m[r1][r2][r3]", "M[r1][r2]", "m[r1] [r2]", "[r1][r2]",
        "m[r1][r2é",
    ] {
        assert_eq!(UMAssembler::parse_memory(text), None, "{:?}", text);
    }
}

#[test]
fn conditions_and_sizes() {
    assert_eq!(UMAssembler::parse_condition("r2ifr3"), Some((2, 3)));
    assert_eq!(UMAssembler::parse_condition("r2 if r3"), None);
    assert_eq!(UMAssembler::parse_condition("r2r3"), None);
    assert_eq!(UMAssembler::parse_condition("ifr3"), None);
    assert_eq!(UMAssembler::parse_condition("r2if"), None);
    assert_eq!(UMAssembler::parse_condition("r2ifr3ifr4"), None);
    assert_eq!(UMAssembler::parse_size("mapr6"), Some(6));
    assert_eq!(UMAssembler::parse_size("map"), None);
    assert_eq!(UMAssembler::parse_size("map r6"), None);
    assert_eq!(UMAssembler::parse_size("unmapr6"), None);
    assert_eq!(UMAssembler::parse_size("mapsr6"), None);
}

#[test]
fn unmap_is_tried_before_map_and_nand_before_in() {
    assert_eq!(
        UMAssembler::parse_instruction("unmap r1"),
        std_word(UmOperations::UNMAP, 0, 0, 1)
    );
    assert_eq!(
        UMAssembler::parse_instruction("r1 := map r1"),
        std_word(UmOperations::MAP, 0, 1, 1)
    );
    assert_eq!(
        UMAssembler::parse_instruction("r1 := r2 nand r3"),
        std_word(UmOperations::NAND, 1, 2, 3)
    );
    assert_eq!(UMAssembler::parse_instruction("in r5"), std_word(UmOperations::IN, 0, 0, 5));
    // With `:=` in the line the forms without it are not tried.
    assert_eq!(UMAssembler::parse_instruction("in r1 := 5"), None);
    assert_eq!(UMAssembler::parse_instruction("out r1 := r2"), None);
    assert_eq!(UMAssembler::parse_instruction("halt := 1"), None);
}

#[test]
fn first_operator_in_the_fixed_order_wins() {
    // `+` is looked for first, wherever it stands.
    assert_eq!(UMAssembler::parse_instruction("r1 := r2 * r3 + r4"), None);
    assert_eq!(UMAssembler::parse_instruction("r1 := r2 + r3 + r4"), None);
    assert_eq!(UMAssembler::parse_instruction("r1 := r2 + r3 * r4"), None);
    assert_eq!(UMAssembler::parse_instruction("r1 := r2 / r3 nand r4"), None);
    assert_eq!(UMAssembler::parse_instruction("r1 := m[r2+][r3]"), None);
    assert_eq!(UMAssembler::parse_instruction("r1 := r2 +"), None);
    assert_eq!(UMAssembler::parse_instruction("r1 := + r2"), None);
    // The line is split at its first `:=`.
    assert_eq!(UMAssembler::parse_instruction("r1 := r2 := r3"), None);
    assert_eq!(UMAssembler::parse_instruction("m[r1][r2] := r3 := r4"), None);
}

#[test]
fn lines_that_are_no_instruction() {
    for line in [
        "", " ", "\t", "nop", "halt now", "halts", "xhalt", "HALT", "Halt", "r1", "r1 :=", ":= r1",
        ":=", "r1 = r2 + r3", "r1 := r2 - r3", "r1 := r2 NAND r3", "r1 := r2 if", "r1 := if r3",
        "r1 := map", "r1 := unmap r2", "1 := r2 + r3", "x1 := 5", "m[r1][r2] := 5", "m[r1] := r3",
        "m[r1][r2] :=", "unmap", "unmap 1", "out", "out 65", "out r1 r2", "in", "input r1", "goto",
        "goto r1", "goto m[r1]", "goto m[r1][r2", "goto m[r1][r2] x", "map r1", "# r1 := 5",
        "r1 := 5 # five", "r1 := 5;", "r1 := r2 + r3 r4",
    ] {
        assert_eq!(UMAssembler::parse_instruction(line), None, "{:?}", line);
    }
}

#[test]
fn read_asm_code_assembles_in_order() {
    let mut assembler = UMAssembler {};
    let lines: Vec<String> =
        ["r1 := 65", "out r1", "halt"].iter().map(|line| line.to_string()).collect();
    assert_eq!(
        assembler.read_asm_code(&lines),
        Ok(vec![0xD200_0041, 0xA000_0001, 0x7000_0000])
    );
    assert_eq!(assembler.read_asm_code(&Vec::new()), Ok(Vec::new()));
}

#[test]
fn read_asm_code_names_the_first_bad_line() {
    let mut assembler = UMAssembler {};
    let lines: Vec<String> = ["r1 := 65", "out r1", "", "bad", "halt"]
        .iter()
        .map(|line| line.to_string())
        .collect();
    assert_eq!(assembler.read_asm_code(&lines), Err(AsmError { line: 2 }));
    let lines: Vec<String> = ["oops"].iter().map(|line| line.to_string()).collect();
    assert_eq!(assembler.read_asm_code(&lines), Err(AsmError { line: 0 }));
    let lines: Vec<String> =
        ["halt", "halt", "r1 := r2 + "].iter().map(|line| line.to_string()).collect();
    assert_eq!(assembler.read_asm_code(&lines), Err(AsmError { line: 2 }));
}

#[test]
fn every_form_decodes_to_what_the_line_names() {
    let standard = |op, a, b, c| Some(Instruction::Standard { op, a, b, c });
    let decoded = |line: &str| decode(UMAssembler::parse_instruction(line).expect(line));
    for a in 0..8usize {
        for b in 0..8usize {
            for c in 0..8usize {
                let (ra, rb, rc) = (format!("r{}", a), format!("r{}", b), format!("r{}", c));
                assert_eq!(
                    decoded(&format!("{} := {} if {}", ra, rb, rc)),
                    standard(UmOperations::CMOV, a, b, c)
                );
                assert_eq!(
                    decoded(&format!("{} := m[{}][{}]", ra, rb, rc)),
                    standard(UmOperations::SLOAD, a, b, c)
                );
                assert_eq!(
                    decoded(&format!("m[{}][{}] := {}", ra, rb, rc)),
                    standard(UmOperations::SSTORE, a, b, c)
                );
                assert_eq!(
                    decoded(&format!("{} := {} + {}", ra, rb, rc)),
                    standard(UmOperations::ADD, a, b, c)
                );
                assert_eq!(
                    decoded(&format!("{} := {} * {}", ra, rb, rc)),
                    standard(UmOperations::MUL, a, b, c)
                );
                assert_eq!(
                    decoded(&format!("{} := {} / {}", ra, rb, rc)),
                    standard(UmOperations::DIV, a, b, c)
                );
                assert_eq!(
                    decoded(&format!("{} := {} nand {}", ra, rb, rc)),
                    standard(UmOperations::NAND, a, b, c)
                );
            }
            let (rb, rc) = (format!("r{}", a), format!("r{}", b));
            assert_eq!(
                decoded(&format!("{} := map {}", rb, rc)),
                standard(UmOperations::MAP, 0, a, b)
            );
            assert_eq!(
                decoded(&format!("goto m[{}][{}]", rb, rc)),
                standard(UmOperations::LOADP, 0, a, b)
            );
        }
        let rc = format!("r{}", a);
        assert_eq!(decoded(&format!("unmap {}", rc)), standard(UmOperations::UNMAP, 0, 0, a));
        assert_eq!(decoded(&format!("out {}", rc)), standard(UmOperations::OUT, 0, 0, a));
        assert_eq!(decoded(&format!("in {}", rc)), standard(UmOperations::IN, 0, 0, a));
        for (text, value) in [("0", 0u32), ("65", 65), ("0x1FFffff", 0x1FF_FFFF), ("0b101", 5)] {
            assert_eq!(
                decoded(&format!("{} := {}", rc, text)),
                Some(Instruction::LoadValue { a, value })
            );
        }
    }
    assert_eq!(decoded("halt"), standard(UmOperations::HALT, 0, 0, 0));
}
