use icmc::memory_view::{
    memory_info, memory_row, memory_rows, register_texts, row_labels, search_address, MemoryValue,
    Search,
};
use icmc::peripherals::Color;
use icmc::processor::Processor;
use icmc::screen::lit_pixels;
use icmc::simulator::{step_notices, take_mode, Notice, RunMode};
use icmc::errors::ProcessorError;
use icmc::video::Color as VideoColor;

#[test]
fn memory_info_classifies_words() {
    let mut p = Processor::new();
    p.set_mem(0, 0b1110000010000000).unwrap(); // LOADN R1, #value
    p.set_mem(1, 42).unwrap();
    p.set_mem(2, 0b1110010000000000).unwrap(); // STOREN addr, #value
    p.set_mem(3, 100).unwrap();
    p.set_mem(4, 0b1011110000000000).unwrap(); // operand of STOREN
    p.set_mem(5, 0b0000110000000000).unwrap(); // CALL addr
    let info = memory_info(&p);
    assert_eq!(32760, info.len());
    assert_eq!(
        vec![
            MemoryValue::Instruction,
            MemoryValue::Data,
            MemoryValue::Instruction,
            MemoryValue::Address,
            MemoryValue::Data,
            MemoryValue::Instruction,
            MemoryValue::Address,
            MemoryValue::Instruction,
            MemoryValue::Instruction,
        ],
        info[0..9].to_vec()
    );
    assert_eq!(MemoryValue::Instruction, info[16384]);
    assert_eq!(MemoryValue::Data, info[16385]);
    assert_eq!(MemoryValue::Data, info[32759]);
}

#[test]
fn memory_rows_of_the_view() {
    let mut p = Processor::new();
    p.set_mem(0, 0b1110000010000000).unwrap();
    p.set_mem(1, 255).unwrap();
    p.set_mem(2, 0b1011110000000000).unwrap();
    let info = memory_info(&p);
    let rows = memory_rows(&p, &info, 0, 3);
    assert_eq!(3, rows.len());
    assert_eq!(Some("<b>PC</b>".to_string()), rows[0].marker);
    assert!(rows[0].text.ends_with(" R1, <i>#255</i>"));
    assert_eq!("Instruction", rows[0].kind.as_str());
    assert_eq!("#0xFF", rows[1].text.as_str());
    assert_eq!("Data", rows[1].kind.as_str());
    assert_eq!("Invalid Instruction", rows[2].text.as_str());
    assert!(rows[2].error);
    assert_eq!("ADDR_PROG_AND_VAR", rows[2].area.as_str());

    let stack = memory_row(&p, &info, 32738);
    assert_eq!(Some("<b>SP</b>".to_string()), stack.marker);
    assert_eq!("ADDR_STACK", stack.area.as_str());

    let last = memory_rows(&p, &info, 32758, 2);
    assert_eq!(32758, last[0].address);
    assert_eq!(32759, last[1].address);
    assert_eq!("ADDR_RETURN", last[1].area.as_str());
}

#[test]
fn register_panel_texts() {
    let mut p = Processor::new();
    p.set_reg(2, 1234).unwrap();
    p.set_pc(0x1a).unwrap();
    p.set_fr(4, true).unwrap();
    let t = register_texts(&p);
    assert_eq!("1234", t.registers[2].as_str());
    assert_eq!("0", t.registers[0].as_str());
    assert_eq!("0x001A", t.pc.as_str());
    assert_eq!("0x7FE2", t.sp.as_str());
    assert_eq!("0000000000000000", t.ir.as_str());
    assert_eq!("1", t.flags[4].as_str());
    assert_eq!("0", t.flags[3].as_str());
    assert_eq!(10, t.flags.len());
}

#[test]
fn lit_pixels_of_a_buffer() {
    let mut charmap = vec![0u8; 128];
    charmap[64] = 1; // character 1: top-left pixel
    charmap[64 + 9] = 1; // character 1: second line, second column
    let buf = vec![(0u8, Color::Red), (1u8, Color::Blue)];
    let px = lit_pixels(&buf, &charmap);
    assert_eq!(vec![(8, 0, Color::Blue), (9, 1, Color::Blue)], px);

    let mut wide = vec![(0u8, Color::Black); 41];
    wide[40] = (1, Color::White);
    let px = lit_pixels(&wide, &charmap);
    assert_eq!(vec![(0, 8, Color::White), (1, 9, Color::White)], px);
}

#[test]
fn run_mode_turns() {
    let mut mode = Some(RunMode::Debug);
    assert_eq!(Some(RunMode::Debug), take_mode(&mut mode));
    assert_eq!(None, mode);
    assert_eq!(None, take_mode(&mut mode));
    let mut mode = Some(RunMode::Run);
    assert_eq!(Some(RunMode::Run), take_mode(&mut mode));
    assert_eq!(Some(RunMode::Run), mode);
    assert_eq!(RunMode::Debug, RunMode::default());

    let n = step_notices(RunMode::Debug, Ok(()), Some(((65, VideoColor::Red), 3)));
    assert_eq!(2, n.len());
    assert!(matches!(n[0], Notice::UpdateUI));
    assert!(matches!(n[1], Notice::UpdateScreen((65, VideoColor::Red), 3)));
    let n = step_notices(RunMode::Run, Ok(()), None);
    assert!(n.is_empty());
    let n = step_notices(RunMode::Run, Err(ProcessorError::InvalidAddress(9)), None);
    assert!(matches!(n[0], Notice::Error(ProcessorError::InvalidAddress(9))));
}

#[test]
fn row_labels_mark_fixed_bits() {
    let mut p = Processor::new();
    p.set_mem(0, 0b1110000010000000).unwrap(); // LOADN R1
    p.set_mem(1, 5).unwrap();
    let info = memory_info(&p);
    let rows = memory_rows(&p, &info, 0, 2);
    let l = row_labels(&rows[0]);
    assert_eq!("0x0000", l.address.as_str());
    assert_eq!(
        "<b>1</b><b>1</b><b>1</b><b>0</b><b>0</b><b>0</b>0010000000",
        l.raw.as_str()
    );
    assert_eq!("<b>ADDR_PROG_AND_VAR</b>", l.float_address.as_str());
    assert_eq!("<b>Instruction</b>", l.float_instruction.as_str());
    assert_eq!(Some("<b>PC</b>".to_string()), l.float_raw);
    let d = row_labels(&rows[1]);
    assert_eq!("0x0001", d.address.as_str());
    assert_eq!("0000000000000101", d.raw.as_str());
    assert_eq!("<b>Data</b>", d.float_instruction.as_str());
    assert_eq!(None, d.float_raw);
}

#[test]
fn search_field() {
    assert_eq!(Search::Empty, search_address(""));
    assert_eq!(Search::Address(1234), search_address("1234"));
    assert_eq!(Search::Address(0x7fe2), search_address("0x7FE2"));
    assert_eq!(Search::Invalid, search_address("1234567"));
    assert_eq!(Search::Invalid, search_address("0x12345"));
    assert_eq!(Search::Invalid, search_address("R1"));
}
