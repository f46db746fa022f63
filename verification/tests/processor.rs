use icmc::errors::ProcessorError;
use icmc::isa::FlagIndex;
use icmc::processor::{Processor, ProcessorStatus};

fn load(p: &mut Processor, words: &[usize]) {
    for (i, w) in words.iter().enumerate() {
        p.set_mem(i, *w).unwrap();
    }
}

fn run(p: &mut Processor, cycles: usize) {
    for _ in 0..cycles {
        assert!(p.cycle_is_safe());
        p.instruction_cicle().unwrap();
    }
}

#[test]
fn test_invalid_instruction() {
    let mut p = Processor::with_capacity(10);
    let _ = p.set_mem(0, 0b1011110000000000);
    assert_eq!(
        ProcessorError::InvalidInstruction(0b1011110000000000),
        p.instruction_cicle().err().unwrap()
    )
}

#[test]
fn new_processor_state() {
    let p = Processor::new();
    assert_eq!(0, p.pc());
    assert_eq!(32738, p.sp());
    assert_eq!(0, p.ir());
    assert_eq!(ProcessorStatus::Debug, p.status());
    assert_eq!(0, p.mem(32767).unwrap());
    assert_eq!(Err(ProcessorError::InvalidAddress(32768)), p.mem(32768));
    assert_eq!(Ok(false), p.fr(FlagIndex::CARRY));
    assert_eq!(Err(ProcessorError::InvalidFlag(16)), p.fr(16));
}

#[test]
fn registers_read_back_what_was_written() {
    let mut p = Processor::with_capacity(4);
    p.set_reg(3, 77).unwrap();
    assert_eq!(77, p.reg(3).unwrap());
    assert_eq!(0, p.reg(2).unwrap());
    assert_eq!(Err(ProcessorError::InvalidRegister(8)), p.set_reg(8, 1));
    assert_eq!(Err(ProcessorError::InvalidRegister(9)), p.reg(9));
}

#[test]
fn stack_pointer_limits() {
    let mut p = Processor::with_capacity(4);
    assert_eq!(Ok(()), p.set_sp(30690));
    assert_eq!(Err(ProcessorError::StackOverflow(30689)), p.set_sp(30689));
    assert_eq!(30689, p.sp());
    assert_eq!(Err(ProcessorError::StackUnderflow(32739)), p.set_sp(32739));
    assert_eq!(32739, p.sp());
}

#[test]
fn program_counter_limits() {
    let mut p = Processor::with_capacity(4);
    assert_eq!(Ok(()), p.set_pc(16384));
    match p.set_pc(16385) {
        Err(ProcessorError::SegmentationFault { pc, data_area }) => {
            assert_eq!(16385, pc);
            assert_eq!("ADDR_STATIC_DATA", data_area.as_str());
        }
        _ => panic!("expected a segmentation fault"),
    }
}

#[test]
fn push_then_pop_restores_register_and_stack_pointer() {
    let mut p = Processor::new();
    load(
        &mut p,
        &[
            0b1110000010000000, // LOADN R1, #42
            42,
            0b0001010010000000, // PUSH R1
            0b1110000010000000, // LOADN R1, #7
            7,
            0b0001100010000000, // POP R1
        ],
    );
    run(&mut p, 2);
    assert_eq!(42, p.reg(1).unwrap());
    assert_eq!(32737, p.sp());
    assert_eq!(42, p.mem(32738).unwrap());
    run(&mut p, 2);
    assert_eq!(42, p.reg(1).unwrap());
    assert_eq!(32738, p.sp());
}

#[test]
fn push_then_pop_flags() {
    let mut p = Processor::new();
    load(
        &mut p,
        &[
            0b0001010001000000, // PUSH FR
            0b0010000000000000, // CLEARC
            0b0001100001000000, // POP FR
        ],
    );
    p.set_fr(FlagIndex::CARRY, true).unwrap();
    p.set_fr(FlagIndex::NEGATIVE, true).unwrap();
    run(&mut p, 1);
    assert_eq!(0b1000010000, p.mem(32738).unwrap());
    run(&mut p, 1);
    assert_eq!(Ok(false), p.fr(FlagIndex::CARRY));
    run(&mut p, 1);
    assert_eq!(Ok(true), p.fr(FlagIndex::CARRY));
    assert_eq!(Ok(true), p.fr(FlagIndex::NEGATIVE));
    assert_eq!(32738, p.sp());
}

#[test]
fn call_then_rts_returns_after_the_address_word() {
    let mut p = Processor::new();
    load(
        &mut p,
        &[
            0b0000110000000000, // CALL 10
            10,
            0b1110000100000000, // LOADN R2, #5
            5,
        ],
    );
    p.set_mem(10, 0b0001000000000000).unwrap(); // RTS
    run(&mut p, 1);
    assert_eq!(10, p.pc());
    assert_eq!(32737, p.sp());
    assert_eq!(1, p.mem(32738).unwrap());
    run(&mut p, 1);
    assert_eq!(2, p.pc());
    assert_eq!(32738, p.sp());
    run(&mut p, 1);
    assert_eq!(5, p.reg(2).unwrap());
}

#[test]
fn add_overflow_reduces_by_max_value() {
    let mut p = Processor::new();
    load(&mut p, &[0b1000000010100110]); // ADD R1, R2, R3
    p.set_reg(2, 65535).unwrap();
    p.set_reg(3, 10).unwrap();
    run(&mut p, 1);
    assert_eq!(10, p.reg(1).unwrap());
    assert_eq!(Ok(true), p.fr(FlagIndex::CARRY));
    assert_eq!(Ok(true), p.fr(FlagIndex::ARITHMETIC_OVERFLOW));
}

#[test]
fn sub_below_zero_stores_zero_and_sets_negative() {
    let mut p = Processor::new();
    load(&mut p, &[0b1000010010100110]); // SUB R1, R2, R3
    p.set_reg(1, 9).unwrap();
    p.set_reg(2, 3).unwrap();
    p.set_reg(3, 10).unwrap();
    run(&mut p, 1);
    assert_eq!(0, p.reg(1).unwrap());
    assert_eq!(Ok(true), p.fr(FlagIndex::NEGATIVE));
}

#[test]
fn halt_sets_the_status() {
    let mut p = Processor::new();
    load(&mut p, &[0b0011110000000000]); // HALT
    run(&mut p, 1);
    assert_eq!(ProcessorStatus::Halted, p.status());
}

#[test]
fn unimplemented_instructions_are_not_safe() {
    let mut p = Processor::new();
    load(&mut p, &[0b1000100010100110]); // MUL R1, R2, R3
    assert!(!p.cycle_is_safe());
}

#[test]
fn load_memory_rejects_other_sizes() {
    let mut p = Processor::with_capacity(4);
    p.set_mem(1, 5).unwrap();
    match p.load_memory(&[1, 2, 3]) {
        Err(ProcessorError::Generic { title, .. }) => {
            assert_eq!("Tamanho inválido de memória", title.as_str())
        }
        _ => panic!("expected an error"),
    }
    assert_eq!(5, p.mem(1).unwrap());
}

#[test]
fn reset_restores_special_registers() {
    let mut p = Processor::with_capacity(4);
    p.set_pc(3).unwrap();
    let _ = p.set_sp(30700);
    p.set_fr(FlagIndex::ZERO, true).unwrap();
    p.set_reg(1, 4).unwrap();
    assert!(p.reset(&[0, 0]).is_err());
    assert_eq!(0, p.pc());
    assert_eq!(32738, p.sp());
    assert_eq!(Ok(false), p.fr(FlagIndex::ZERO));
    assert_eq!(4, p.reg(1).unwrap());
}

#[test]
fn processor_text() {
    let mut p = Processor::default();
    p.set_reg(1, 5).unwrap();
    p.set_fr(0, true).unwrap();
    assert_eq!(
        "[Registers [0, 5, 0, 0, 0, 0, 0, 0]] [FR [true, false, false, false, false, false, false, false, false, false, false, false, false, false, false, false]] [IR 0] [SP 0x7fe2] [PC 0x0000]",
        p.to_string()
    );
}

#[test]
fn error_messages() {
    assert_eq!("Endereço inválido: 7", ProcessorError::InvalidAddress(7).to_string());
    assert_eq!(
        "O registrador SP(30689) ultrapassou seu limite. Área da pilha: 30690..=32738",
        ProcessorError::StackOverflow(30689).to_string()
    );
    assert_eq!(
        "O registrador PC(16385) tentou acessar uma área indevida: ADDR_STATIC_DATA",
        ProcessorError::SegmentationFault { pc: 16385, data_area: "ADDR_STATIC_DATA".to_string() }
            .to_string()
    );
    assert_eq!(
        "Tamanho inválido de memória: x",
        ProcessorError::Generic {
            title: "Tamanho inválido de memória".to_string(),
            description: "x".to_string()
        }
        .to_string()
    );
}

#[test]
fn loadi_reads_the_memory_at_ry() {
    let mut p = Processor::new();
    load(&mut p, &[0b1111000010100000]); // LOADI R1, R2
    p.set_reg(2, 100).unwrap();
    p.set_mem(100, 77).unwrap();
    run(&mut p, 1);
    assert_eq!(77, p.reg(1).unwrap());
    assert_eq!(1, p.pc());
}

#[test]
fn subc_adds_the_carry() {
    let mut p = Processor::new();
    load(&mut p, &[0b1000010010100111]); // SUBC R1, R2, R3
    p.set_reg(2, 5).unwrap();
    p.set_reg(3, 3).unwrap();
    p.set_fr(FlagIndex::CARRY, true).unwrap();
    run(&mut p, 1);
    assert_eq!(3, p.reg(1).unwrap());

    let mut p = Processor::new();
    load(&mut p, &[0b1000010010100111]);
    p.set_reg(2, 2).unwrap();
    p.set_reg(3, 3).unwrap();
    p.set_fr(FlagIndex::CARRY, true).unwrap();
    run(&mut p, 1);
    assert_eq!(0, p.reg(1).unwrap());
    assert_eq!(Ok(true), p.fr(FlagIndex::ZERO));
    assert_eq!(Ok(false), p.fr(FlagIndex::NEGATIVE));
}

#[test]
fn shifts_keep_sixteen_bits() {
    // SHIFTL0 R1, 1
    let mut p = Processor::new();
    load(&mut p, &[0b0100000010000001]);
    p.set_reg(1, 0x8000).unwrap();
    run(&mut p, 1);
    assert_eq!(0, p.reg(1).unwrap());
    assert_eq!(Ok(true), p.fr(FlagIndex::ZERO));

    // SHIFTL1 R1, 4
    let mut p = Processor::new();
    load(&mut p, &[0b0100000010010100]);
    p.set_reg(1, 0x1234).unwrap();
    run(&mut p, 1);
    assert_eq!(0x234f, p.reg(1).unwrap());

    // SHIFTR0 R1, 4
    let mut p = Processor::new();
    load(&mut p, &[0b0100000010100100]);
    p.set_reg(1, 0x1234).unwrap();
    run(&mut p, 1);
    assert_eq!(0x0123, p.reg(1).unwrap());

    // SHIFTR1 R1, 4
    let mut p = Processor::new();
    load(&mut p, &[0b0100000010110100]);
    p.set_reg(1, 0x1234).unwrap();
    run(&mut p, 1);
    assert_eq!(0xf123, p.reg(1).unwrap());
}

#[test]
fn rotations_stay_in_sixteen_bits() {
    // ROTL R1, 1
    let mut p = Processor::new();
    load(&mut p, &[0b0100000011000001]);
    p.set_reg(1, 0x8001).unwrap();
    run(&mut p, 1);
    assert_eq!(0x0003, p.reg(1).unwrap());

    // ROTR R1, 4
    let mut p = Processor::new();
    load(&mut p, &[0b0100000011100100]);
    p.set_reg(1, 0x1234).unwrap();
    run(&mut p, 1);
    assert_eq!(0x4123, p.reg(1).unwrap());
}
