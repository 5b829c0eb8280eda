use um::assembler::UMAssembler;
use um::buildtests::TestBuilder;
use um::image::{from_image, to_image};

#[test]
fn image_is_big_endian() {
    assert_eq!(to_image(&vec![0x1234_5678]), vec![0x12u8, 0x34, 0x56, 0x78]);
    assert_eq!(
        to_image(&vec![0xD400_0005, 0x0000_0001, 0xFF00_00FF]),
        vec![0xD4u8, 0, 0, 5, 0, 0, 0, 1, 0xFF, 0, 0, 0xFF]
    );
    assert_eq!(to_image(&vec![]), Vec::<u8>::new());
}

#[test]
fn image_reads_back_as_the_program() {
    let program = vec![0u32, 1, 0x8000_0000, 0xFFFF_FFFF, 0x0102_0304, 0xD7FF_FFFF];
    let image = to_image(&program);
    assert_eq!(image.len(), 24);
    assert_eq!(from_image(&image), Some(program));
    assert_eq!(from_image(&[1, 2, 3, 4]), Some(vec![0x0102_0304]));
    assert_eq!(from_image(&[]), Some(vec![]));
}

#[test]
fn image_of_partial_words_holds_no_program() {
    assert_eq!(from_image(&[1]), None);
    assert_eq!(from_image(&[1, 2, 3]), None);
    assert_eq!(from_image(&[1, 2, 3, 4, 5]), None);
    assert_eq!(from_image(&[0; 7]), None);
}

#[test]
fn write_mach_code_gives_the_image() {
    let mut assembler = UMAssembler {};
    let program = vec![0xD200_0041u32, 0xA000_0001, 0x7000_0000];
    assert_eq!(
        assembler.write_mach_code(&program),
        vec![0xD2u8, 0, 0, 0x41, 0xA0, 0, 0, 1, 0x70, 0, 0, 0]
    );
}

#[test]
fn self_test_passes() {
    let mut builder = TestBuilder {};
    assert!(builder.writetests());
    assert_eq!(builder.build_three_reg_instruction(10, 1, 7, 1), 0xA000_0079);
    assert_eq!(builder.build_load_value_instruction(13, 3, 0xFFFF_FFFF), 0xD7FF_FFFF);
    assert_eq!(
        builder.build_three_reg_instruction(3, 1, 2, 3),
        UMAssembler::build_three_reg_instruction(3, 1, 2, 3)
    );
}
