use icmc::display::{rx, ry, rz, InstructionDisplay};
use icmc::isa::Instruction;
use icmc::processor::Processor;
use icmc::simulator::{Processor as SimProcessor, State};

const LINK: &str = "https://lucasstapf.github.io/Processador-ICMC-Rust-Doc/isa/enum.Instruction.html#variant.";

fn link(name: &str) -> String {
    format!("<a href=\"{}{}\"><b>{}</b></a>", LINK, name, name)
}

#[test]
fn register_fields() {
    let w = 0b1000000010100110;
    assert_eq!(1, rx(w));
    assert_eq!(2, ry(w));
    assert_eq!(3, rz(w));
}

#[test]
fn display_load() {
    let mut p = Processor::new();
    p.set_mem(4, 0b1100000010000000).unwrap();
    p.set_mem(5, 300).unwrap();
    assert_eq!(format!("{} R1, 300", link("LOAD")), Instruction::LOAD.display(4, &p));
}

#[test]
fn display_loadn_and_storen() {
    let mut p = Processor::new();
    p.set_mem(0, 0b1110000110000000).unwrap();
    p.set_mem(1, 7).unwrap();
    p.set_mem(2, 9).unwrap();
    assert_eq!(format!("{} R3, <i>#7</i>", link("LOADN")), Instruction::LOADN.display(0, &p));
    assert_eq!(format!("{} 7, #9", link("STOREN")), Instruction::STOREN.display(0, &p));
}

#[test]
fn display_shift_left_zero_names_itself() {
    let mut p = Processor::new();
    p.set_mem(0, 0b0100000100000101).unwrap();
    assert_eq!(format!("{} R2, 5", link("SHIFTL0")), Instruction::SHIFTL0.display(0, &p));
    assert_eq!(format!("{} R2, 5", link("ROTL")), Instruction::ROTL.display(0, &p));
}

#[test]
fn display_mov_forms() {
    let mut p = Processor::new();
    p.set_mem(0, 0b1100110010100000).unwrap();
    p.set_mem(1, 0b1100110010000001).unwrap();
    p.set_mem(2, 0b1100110010000011).unwrap();
    assert_eq!(format!("{} R1 R2", link("MOV")), Instruction::MOV.display(0, &p));
    assert_eq!(format!("{} R1 SP", link("MOV")), Instruction::MOV.display(1, &p));
    assert_eq!(format!("{} SP R1", link("MOV")), Instruction::MOV.display(2, &p));
}

#[test]
fn display_stack_and_bare() {
    let mut p = Processor::new();
    p.set_mem(0, 0b0001010001000000).unwrap();
    p.set_mem(1, 0b0001011100000000).unwrap();
    assert_eq!(format!("{} FR", link("PUSH")), Instruction::PUSH.display(0, &p));
    assert_eq!(format!("{} R6", link("PUSH")), Instruction::PUSH.display(1, &p));
    assert_eq!(link("HALT"), Instruction::HALT.display(0, &p));
}

#[test]
fn display_arithmetic_and_jump() {
    let mut p = Processor::new();
    p.set_mem(0, 0b1000000010100110).unwrap();
    p.set_mem(1, 12).unwrap();
    assert_eq!(format!("{} R1, R2, R3", link("ADD")), Instruction::ADD.display(0, &p));
    assert_eq!(format!("{} 12", link("JMP")), Instruction::JMP.display(0, &p));
    assert_eq!(format!("{} 12, R1", link("STORE")), Instruction::STORE.display(0, &p));
}

#[test]
fn simulator_processor_registers_and_memory() {
    let mut p = SimProcessor::new();
    assert_eq!(32768, p.memory.len());
    p.set_mem(10, 5);
    assert_eq!(5, p.mem(10));
    p.set_reg(7, 3);
    assert_eq!(3, p.reg(7));
    assert_eq!((0, 0, 0, 0, 0, 0, 0, 3, 0, 0, 0), p.info());
}

#[test]
fn simulator_processor_runs_mov() {
    let mut p = SimProcessor::new();
    p.set_mem(0, 0b1100110010100000); // MOV R1, R2
    let out = p.next();
    assert_eq!("Deu certo!", out.as_str());
    assert_eq!(1, p.pc);
    assert_eq!(0b1100110010100000, p.ir);
    assert_eq!(1, p.rx);
    assert_eq!(2, p.ry);
}

#[test]
fn handler_states() {
    assert!(State::Stopped.waits());
    assert!(!State::Running.waits());
    assert_eq!(Some(State::Running), State::Stopped.transition(Some(State::Running)));
    assert_eq!(None, State::Stopped.transition(None));
    assert_eq!(Some(State::Stopped), State::Debug.transition(None));
    assert_eq!(Some(State::Running), State::Running.transition(None));
}

#[test]
fn simulator_processor_text() {
    let mut p = SimProcessor::new();
    p.set_reg(0, 3);
    assert_eq!(
        "[Registers [3, 0, 0, 0, 0, 0, 0, 0]] [FR [false, false, false, false, false, false, false, false, false, false, false, false, false, false, false, false]] [IR 0] [SP 0] [PC 0]",
        p.to_string()
    );
}
