use icmc::isa::{bits, Instruction};
use icmc::layout::data_area;

#[test]
fn test_bits() {
    assert_eq!(0b11, bits(0b110000, 4..=5));
}

#[test]
fn test_instruction_display() {
    assert_eq!("LOADI", Instruction::LOADI.to_string());
}

#[test]
fn test_instruction_opcode() {
    assert_eq!(0b110011, Instruction::MOV.opcode());
    assert_eq!(0b000100, Instruction::RTI.opcode());
}

#[test]
fn test_instruction_bits() {
    assert_eq!(0b110011, Instruction::MOV.bits(10..=15));
    assert_eq!(0b1001, Instruction::MOV.bits(11..=14));
}

#[test]
fn test_instruction_get_only_opcode() {
    assert_eq!(
        Instruction::STORE,
        Instruction::get_instruction(0b1100010010010101).unwrap()
    );
}

#[test]
fn test_instruction_get() {
    assert_eq!(
        Instruction::RTS,
        Instruction::get_instruction(0b0001000000000000).unwrap()
    );

    assert_eq!(
        Instruction::RTI,
        Instruction::get_instruction(0b0001001111111111).unwrap()
    );
}

#[test]
fn decode_uses_the_top_sixteen_bits_of_a_wide_word() {
    // 0b1100001000100011 (LOAD) followed by two more bits
    let wide = 0b1100001000100011_11;
    assert_eq!(Instruction::LOAD, Instruction::get_instruction(wide).unwrap());
}

#[test]
fn decode_rejects_a_word_without_instruction() {
    let e = Instruction::get_instruction(0b1011110000000000).unwrap_err();
    assert_eq!("48128", e.code_text().as_str());
}

#[test]
fn decode_of_every_free_bit_pattern_gives_the_same_instruction() {
    // SHIFTL1 is `010000---001----`: vary the free bits.
    for free in [0usize, 0b111, 0b101] {
        for low in [0usize, 0b1111, 0b1010] {
            let w = (0b010000 << 10) | (free << 7) | (0b001 << 4) | low;
            assert_eq!(Instruction::SHIFTL1, Instruction::get_instruction(w).unwrap());
        }
    }
    // ROTR is `010000---11-----`.
    assert_eq!(Instruction::ROTR, Instruction::get_instruction(0b0100000001100000).unwrap());
    assert_eq!(Instruction::ROTL, Instruction::get_instruction(0b0100000001011111).unwrap());
}

#[test]
fn from_str_ignores_ascii_case() {
    assert_eq!(Instruction::PUSH, Instruction::from_str("push").unwrap());
    assert_eq!(Instruction::SHIFTL0, Instruction::from_str("ShiftL0").unwrap());
    let e = Instruction::from_str("PUSHX").unwrap_err();
    assert_eq!("PUSHX", e.code_text().as_str());
}

#[test]
fn name_and_mask() {
    assert_eq!("MOV", Instruction::MOV.name());
    assert_eq!("110011----------", Instruction::MOV.mask());
    assert_eq!("010000---11-----", Instruction::ROTR.mask());
}

#[test]
fn data_area_names_the_region() {
    assert_eq!("ADDR_PROG_AND_VAR", data_area(0).as_str());
    assert_eq!("ADDR_STACK", data_area(30690).as_str());
}
