use um::assembler::UMAssembler;
use um::um::UmOperations;

#[test]
fn test_parse_reg() {
    for i in 1..100 {
        assert_eq!(UMAssembler::parse_reg(&format!("r{}", i)), Some(i))
    }
}
#[test]
fn test_parse_instruction() {
    assert_eq!(
        UMAssembler::parse_instruction("r1 := r2 + r3"),
        Some(UMAssembler::build_three_reg_instruction(
            UmOperations::ADD as u32,
            1,
            2,
            3
        ))
    );
}
#[test]
fn test_parse_instruction2() {
    assert_eq!(
        UMAssembler::parse_instruction("r99 := r2 + r3"),
        Some(UMAssembler::build_three_reg_instruction(
            UmOperations::ADD as u32,
            99,
            2,
            3
        ))
    );
}
#[test]
fn test_parse_instruction3() {
    assert_eq!(
        UMAssembler::parse_instruction("r99 := r2 nand r3"),
        Some(UMAssembler::build_three_reg_instruction(
            UmOperations::NAND as u32,
            99,
            2,
            3
        ))
    );
}
#[test]
fn test_parse_instruction4() {
    assert_eq!(
        UMAssembler::parse_instruction("r99 := r2 * r3"),
        Some(UMAssembler::build_three_reg_instruction(
            UmOperations::MUL as u32,
            99,
            2,
            3
        ))
    );
}
#[test]
fn test_parse_instruction5() {
    assert_eq!(
        UMAssembler::parse_instruction("r99 := r2 / r3"),
        Some(UMAssembler::build_three_reg_instruction(
            UmOperations::DIV as u32,
            99,
            2,
            3
        ))
    );
}
#[test]
fn test_parse_instruction6() {
    assert_eq!(
        UMAssembler::parse_instruction("r99 := m[r2][r3]"),
        Some(UMAssembler::build_three_reg_instruction(
            UmOperations::SLOAD as u32,
            99,
            2,
            3
        ))
    );
}
#[test]
fn test_parse_instruction7() {
    assert_eq!(
        UMAssembler::parse_instruction("r1 := r2 if r3"),
        Some(UMAssembler::build_three_reg_instruction(
            UmOperations::CMOV as u32,
            1,
            2,
            3
        ))
    );
}
#[test]
fn test_parse_instruction8() {
    assert_eq!(
        UMAssembler::parse_instruction("r1 := map r6"),
        Some(UMAssembler::build_three_reg_instruction(
            UmOperations::MAP as u32,
            0,
            1,
            6
        ))
    );
}
#[test]
fn test_parse_instruction9() {
    assert_eq!(
        UMAssembler::parse_instruction("r1 := 55"),
        Some(UMAssembler::build_load_value_instruction(
            UmOperations::LV as u32,
            1,
            55
        ))
    );
}
#[test]
fn test_parse_instruction10() {
    assert_eq!(
        UMAssembler::parse_instruction("r1 := 0x55"),
        Some(UMAssembler::build_load_value_instruction(
            UmOperations::LV as u32,
            1,
            0x55
        ))
    );
}
#[test]
fn test_parse_instruction11() {
    assert_eq!(
        UMAssembler::parse_instruction("r1 := 0b11"),
        Some(UMAssembler::build_load_value_instruction(
            UmOperations::LV as u32,
            1,
            0b11
        ))
    );
}
#[test]
fn test_parse_instruction12() {
    assert_eq!(
        UMAssembler::parse_instruction("unmap r1"),
        Some(UMAssembler::build_three_reg_instruction(
            UmOperations::UNMAP as u32,
            0,
            0,
            1
        ))
    );
}
#[test]
fn test_parse_instruction13() {
    assert_eq!(
        UMAssembler::parse_instruction("out r1"),
        Some(UMAssembler::build_three_reg_instruction(
            UmOperations::OUT as u32,
            0,
            0,
            1
        ))
    );
}
#[test]
fn test_parse_instruction14() {
    assert_eq!(
        UMAssembler::parse_instruction("out r1"),
        Some(UMAssembler::build_three_reg_instruction(
            UmOperations::OUT as u32,
            0,
            0,
            1
        ))
    );
}
#[test]
fn test_parse_instruction15() {
    assert_eq!(
        UMAssembler::parse_instruction("in r1"),
        Some(UMAssembler::build_three_reg_instruction(
            UmOperations::IN as u32,
            0,
            0,
            1
        ))
    );
}

#[test]
fn test_parse_instruction_sstore() {
    assert_eq!(
        UMAssembler::parse_instruction("m[r1][r2] := r3"),
        Some(UMAssembler::build_three_reg_instruction(
            UmOperations::SSTORE as u32,
            1,
            2,
            3
        ))
    );
}

#[test]
fn test_parse_instruction_lp() {
    assert_eq!(
        UMAssembler::parse_instruction("goto m[r2][r5]"),
        Some(UMAssembler::build_three_reg_instruction(
            UmOperations::LOADP as u32,
            0,
            2,
            5
        ))
    );
}
#[test]
fn test_parse_instruction_halt() {
    assert_eq!(
        UMAssembler::parse_instruction("halt"),
        Some(UMAssembler::build_three_reg_instruction(
            UmOperations::HALT as u32,
            0,
            0,
            0
        ))
    );
}
