//! The instruction set of the ICMC processor: the instructions, their
//! 16-bit masks, how a machine word is decoded into an instruction and how
//! bit fields are read out of a word.
use core::ops::RangeInclusive;
use vstd::prelude::*;

use crate::text::{ascii_lower, chars_eq_ignore_case, chars_of, decimal, decimal_string, eq_ignore_case};

verus! {

/// Number of bits of an address (and of a machine word).
pub const BITS_ADDRESS: usize = 16;

/// Largest value a 16-bit machine word holds.
pub const MAX_VALUE_MEMORY: usize = 65535;

/// Type used to represent one cell of the processor memory.
pub type MemoryCell = usize;

/// Number of instructions of the instruction set.
pub const NUM_INSTRUCTIONS: usize = 71;

/// Positions of the flags inside the *flag register*.
pub struct FlagIndex;

impl FlagIndex {
    pub const GREATER: usize = 0;
    pub const LESSER: usize = 1;
    pub const EQUAL: usize = 2;
    pub const ZERO: usize = 3;
    pub const CARRY: usize = 4;
    pub const ARITHMETIC_OVERFLOW: usize = 5;
    pub const DIV_BY_ZERO: usize = 6;
    pub const STACK_OVERFLOW: usize = 7;
    pub const STACK_UNDERFLOW: usize = 8;
    pub const NEGATIVE: usize = 9;
}

/// Error for a word or a name that is no instruction; `code` is the
/// offending text.
#[derive(Debug, PartialEq)]
pub struct InvalidInstruction {
    code: String,
}

impl InvalidInstruction {
    /// The text that names the invalid instruction.
    pub closed spec fn code(self) -> Seq<char> {
        self.code@
    }

    /// Builds the error for the text `code`.
    pub fn new(code: String) -> (e: Self)
        ensures
            e.code() == code@,
    {
        InvalidInstruction { code }
    }

    /// The text that names the invalid instruction.
    pub fn code_text(&self) -> (s: &String)
        ensures
            s@ == self.code(),
    {
        &self.code
    }

    /// The message of the error, as it is displayed.
    pub fn to_string(&self) -> (s: String)
        ensures
            s@ == "Instrução inválida: "@ + self.code(),
    {
        let mut s = String::from_str("Instrução inválida: ");
        s.append(self.code.as_str());
        s
    }
}

/// Instruction set of the ICMC processor.
#[derive(Debug, Clone, Copy, PartialEq, Eq, Structural)]
pub enum Instruction {
    /// Mask `110000----------`.
    LOAD,
    /// Mask `111000----------`.
    LOADN,
    /// Mask `111100----------`.
    LOADI,
    /// Mask `110001----------`.
    STORE,
    /// Mask `111001----------`.
    STOREN,
    /// Mask `111101----------`.
    STOREI,
    /// Mask `110011----------`.
    MOV,
    /// Mask `111110----------`.
    INPUT,
    /// Mask `111111----------`.
    OUTPUT,
    /// Mask `110010----------`.
    OUTCHAR,
    /// Mask `110101----------`.
    INCHAR,
    /// Mask `110100----------`.
    SOUND,
    /// Mask `100000---------0`.
    ADD,
    /// Mask `100000---------1`.
    ADDC,
    /// Mask `100001---------0`.
    SUB,
    /// Mask `100001---------1`.
    SUBC,
    /// Mask `100010---------0`.
    MUL,
    /// Mask `100011---------0`.
    DIV,
    /// Mask `100100---0------`.
    INC,
    /// Mask `100100---1------`.
    DEC,
    /// Mask `100101----------`.
    MOD,
    /// Mask `010010----------`.
    AND,
    /// Mask `010011----------`.
    OR,
    /// Mask `010100----------`.
    XOR,
    /// Mask `010101----------`.
    NOT,
    /// Mask `010000---000----`.
    SHIFTL0,
    /// Mask `010000---001----`.
    SHIFTL1,
    /// Mask `010000---010----`.
    SHIFTR0,
    /// Mask `010000---011----`.
    SHIFTR1,
    /// Mask `010000---10-----`.
    ROTL,
    /// Mask `010000---11-----`.
    ROTR,
    /// Mask `010110----------`.
    CMP,
    /// Mask `0000100000------`.
    JMP,
    /// Mask `0000100001------`.
    JEQ,
    /// Mask `0000100010------`.
    JNE,
    /// Mask `0000100011------`.
    JZ,
    /// Mask `0000100100------`.
    JNZ,
    /// Mask `0000100101------`.
    JC,
    /// Mask `0000100110------`.
    JNC,
    /// Mask `0000100111------`.
    JGR,
    /// Mask `0000101000------`.
    JLE,
    /// Mask `0000101001------`.
    JEG,
    /// Mask `0000101010------`.
    JEL,
    /// Mask `0000101011------`.
    JOV,
    /// Mask `0000101100------`.
    JNO,
    /// Mask `0000101101------`.
    JDZ,
    /// Mask `0000101110------`.
    JN,
    /// Mask `0000110000------`.
    CALL,
    /// Mask `0000110001------`.
    CEQ,
    /// Mask `0000110010------`.
    CNE,
    /// Mask `0000110011------`.
    CZ,
    /// Mask `0000110100------`.
    CNZ,
    /// Mask `0000110101------`.
    CC,
    /// Mask `0000110110------`.
    CNC,
    /// Mask `0000110111------`.
    CGR,
    /// Mask `0000111000------`.
    CLE,
    /// Mask `0000111001------`.
    CEG,
    /// Mask `0000111010------`.
    CEL,
    /// Mask `0000111011------`.
    COV,
    /// Mask `0000111100------`.
    CNO,
    /// Mask `0000111101------`.
    CDZ,
    /// Mask `0000111110------`.
    CN,
    /// Mask `000100---------0`.
    RTS,
    /// Mask `000100---------1`.
    RTI,
    /// Mask `000101----------`.
    PUSH,
    /// Mask `000110----------`.
    POP,
    /// Mask `000000----------`.
    NOP,
    /// Mask `001111----------`.
    HALT,
    /// Mask `0010000---------`.
    CLEARC,
    /// Mask `0010001---------`.
    SETC,
    /// Mask `001110----------`.
    BREAKP,
}

impl Instruction {
    /// Position of the instruction in the instruction set (the order in which masks are tried).
    pub open spec fn index(self) -> nat {
        match self {
            Instruction::LOAD => 0,
            Instruction::LOADN => 1,
            Instruction::LOADI => 2,
            Instruction::STORE => 3,
            Instruction::STOREN => 4,
            Instruction::STOREI => 5,
            Instruction::MOV => 6,
            Instruction::INPUT => 7,
            Instruction::OUTPUT => 8,
            Instruction::OUTCHAR => 9,
            Instruction::INCHAR => 10,
            Instruction::SOUND => 11,
            Instruction::ADD => 12,
            Instruction::ADDC => 13,
            Instruction::SUB => 14,
            Instruction::SUBC => 15,
            Instruction::MUL => 16,
            Instruction::DIV => 17,
            Instruction::INC => 18,
            Instruction::DEC => 19,
            Instruction::MOD => 20,
            Instruction::AND => 21,
            Instruction::OR => 22,
            Instruction::XOR => 23,
            Instruction::NOT => 24,
            Instruction::SHIFTL0 => 25,
            Instruction::SHIFTL1 => 26,
            Instruction::SHIFTR0 => 27,
            Instruction::SHIFTR1 => 28,
            Instruction::ROTL => 29,
            Instruction::ROTR => 30,
            Instruction::CMP => 31,
            Instruction::JMP => 32,
            Instruction::JEQ => 33,
            Instruction::JNE => 34,
            Instruction::JZ => 35,
            Instruction::JNZ => 36,
            Instruction::JC => 37,
            Instruction::JNC => 38,
            Instruction::JGR => 39,
            Instruction::JLE => 40,
            Instruction::JEG => 41,
            Instruction::JEL => 42,
            Instruction::JOV => 43,
            Instruction::JNO => 44,
            Instruction::JDZ => 45,
            Instruction::JN => 46,
            Instruction::CALL => 47,
            Instruction::CEQ => 48,
            Instruction::CNE => 49,
            Instruction::CZ => 50,
            Instruction::CNZ => 51,
            Instruction::CC => 52,
            Instruction::CNC => 53,
            Instruction::CGR => 54,
            Instruction::CLE => 55,
            Instruction::CEG => 56,
            Instruction::CEL => 57,
            Instruction::COV => 58,
            Instruction::CNO => 59,
            Instruction::CDZ => 60,
            Instruction::CN => 61,
            Instruction::RTS => 62,
            Instruction::RTI => 63,
            Instruction::PUSH => 64,
            Instruction::POP => 65,
            Instruction::NOP => 66,
            Instruction::HALT => 67,
            Instruction::CLEARC => 68,
            Instruction::SETC => 69,
            Instruction::BREAKP => 70,
        }
    }

    /// The 6-bit operation code: the first six characters of the mask.
    pub open spec fn opcode_spec(self) -> usize {
        match self {
            Instruction::LOAD => 0b110000,
            Instruction::LOADN => 0b111000,
            Instruction::LOADI => 0b111100,
            Instruction::STORE => 0b110001,
            Instruction::STOREN => 0b111001,
            Instruction::STOREI => 0b111101,
            Instruction::MOV => 0b110011,
            Instruction::INPUT => 0b111110,
            Instruction::OUTPUT => 0b111111,
            Instruction::OUTCHAR => 0b110010,
            Instruction::INCHAR => 0b110101,
            Instruction::SOUND => 0b110100,
            Instruction::ADD => 0b100000,
            Instruction::ADDC => 0b100000,
            Instruction::SUB => 0b100001,
            Instruction::SUBC => 0b100001,
            Instruction::MUL => 0b100010,
            Instruction::DIV => 0b100011,
            Instruction::INC => 0b100100,
            Instruction::DEC => 0b100100,
            Instruction::MOD => 0b100101,
            Instruction::AND => 0b10010,
            Instruction::OR => 0b10011,
            Instruction::XOR => 0b10100,
            Instruction::NOT => 0b10101,
            Instruction::SHIFTL0 => 0b10000,
            Instruction::SHIFTL1 => 0b10000,
            Instruction::SHIFTR0 => 0b10000,
            Instruction::SHIFTR1 => 0b10000,
            Instruction::ROTL => 0b10000,
            Instruction::ROTR => 0b10000,
            Instruction::CMP => 0b10110,
            Instruction::JMP => 0b10,
            Instruction::JEQ => 0b10,
            Instruction::JNE => 0b10,
            Instruction::JZ => 0b10,
            Instruction::JNZ => 0b10,
            Instruction::JC => 0b10,
            Instruction::JNC => 0b10,
            Instruction::JGR => 0b10,
            Instruction::JLE => 0b10,
            Instruction::JEG => 0b10,
            Instruction::JEL => 0b10,
            Instruction::JOV => 0b10,
            Instruction::JNO => 0b10,
            Instruction::JDZ => 0b10,
            Instruction::JN => 0b10,
            Instruction::CALL => 0b11,
            Instruction::CEQ => 0b11,
            Instruction::CNE => 0b11,
            Instruction::CZ => 0b11,
            Instruction::CNZ => 0b11,
            Instruction::CC => 0b11,
            Instruction::CNC => 0b11,
            Instruction::CGR => 0b11,
            Instruction::CLE => 0b11,
            Instruction::CEG => 0b11,
            Instruction::CEL => 0b11,
            Instruction::COV => 0b11,
            Instruction::CNO => 0b11,
            Instruction::CDZ => 0b11,
            Instruction::CN => 0b11,
            Instruction::RTS => 0b100,
            Instruction::RTI => 0b100,
            Instruction::PUSH => 0b101,
            Instruction::POP => 0b110,
            Instruction::NOP => 0b0,
            Instruction::HALT => 0b1111,
            Instruction::CLEARC => 0b1000,
            Instruction::SETC => 0b1000,
            Instruction::BREAKP => 0b1110,
        }
    }

    /// The low ten bits that the mask fixes (`1` where the mask character is not `-`).
    pub open spec fn sub_care(self) -> usize {
        match self {
            Instruction::LOAD => 0b0000000000,
            Instruction::LOADN => 0b0000000000,
            Instruction::LOADI => 0b0000000000,
            Instruction::STORE => 0b0000000000,
            Instruction::STOREN => 0b0000000000,
            Instruction::STOREI => 0b0000000000,
            Instruction::MOV => 0b0000000000,
            Instruction::INPUT => 0b0000000000,
            Instruction::OUTPUT => 0b0000000000,
            Instruction::OUTCHAR => 0b0000000000,
            Instruction::INCHAR => 0b0000000000,
            Instruction::SOUND => 0b0000000000,
            Instruction::ADD => 0b0000000001,
            Instruction::ADDC => 0b0000000001,
            Instruction::SUB => 0b0000000001,
            Instruction::SUBC => 0b0000000001,
            Instruction::MUL => 0b0000000001,
            Instruction::DIV => 0b0000000001,
            Instruction::INC => 0b0001000000,
            Instruction::DEC => 0b0001000000,
            Instruction::MOD => 0b0000000000,
            Instruction::AND => 0b0000000000,
            Instruction::OR => 0b0000000000,
            Instruction::XOR => 0b0000000000,
            Instruction::NOT => 0b0000000000,
            Instruction::SHIFTL0 => 0b0001110000,
            Instruction::SHIFTL1 => 0b0001110000,
            Instruction::SHIFTR0 => 0b0001110000,
            Instruction::SHIFTR1 => 0b0001110000,
            Instruction::ROTL => 0b0001100000,
            Instruction::ROTR => 0b0001100000,
            Instruction::CMP => 0b0000000000,
            Instruction::JMP => 0b1111000000,
            Instruction::JEQ => 0b1111000000,
            Instruction::JNE => 0b1111000000,
            Instruction::JZ => 0b1111000000,
            Instruction::JNZ => 0b1111000000,
            Instruction::JC => 0b1111000000,
            Instruction::JNC => 0b1111000000,
            Instruction::JGR => 0b1111000000,
            Instruction::JLE => 0b1111000000,
            Instruction::JEG => 0b1111000000,
            Instruction::JEL => 0b1111000000,
            Instruction::JOV => 0b1111000000,
            Instruction::JNO => 0b1111000000,
            Instruction::JDZ => 0b1111000000,
            Instruction::JN => 0b1111000000,
            Instruction::CALL => 0b1111000000,
            Instruction::CEQ => 0b1111000000,
            Instruction::CNE => 0b1111000000,
            Instruction::CZ => 0b1111000000,
            Instruction::CNZ => 0b1111000000,
            Instruction::CC => 0b1111000000,
            Instruction::CNC => 0b1111000000,
            Instruction::CGR => 0b1111000000,
            Instruction::CLE => 0b1111000000,
            Instruction::CEG => 0b1111000000,
            Instruction::CEL => 0b1111000000,
            Instruction::COV => 0b1111000000,
            Instruction::CNO => 0b1111000000,
            Instruction::CDZ => 0b1111000000,
            Instruction::CN => 0b1111000000,
            Instruction::RTS => 0b0000000001,
            Instruction::RTI => 0b0000000001,
            Instruction::PUSH => 0b0000000000,
            Instruction::POP => 0b0000000000,
            Instruction::NOP => 0b0000000000,
            Instruction::HALT => 0b0000000000,
            Instruction::CLEARC => 0b1000000000,
            Instruction::SETC => 0b1000000000,
            Instruction::BREAKP => 0b0000000000,
        }
    }

    /// The values of the low ten bits that the mask fixes.
    pub open spec fn sub_value(self) -> usize {
        match self {
            Instruction::LOAD => 0b0000000000,
            Instruction::LOADN => 0b0000000000,
            Instruction::LOADI => 0b0000000000,
            Instruction::STORE => 0b0000000000,
            Instruction::STOREN => 0b0000000000,
            Instruction::STOREI => 0b0000000000,
            Instruction::MOV => 0b0000000000,
            Instruction::INPUT => 0b0000000000,
            Instruction::OUTPUT => 0b0000000000,
            Instruction::OUTCHAR => 0b0000000000,
            Instruction::INCHAR => 0b0000000000,
            Instruction::SOUND => 0b0000000000,
            Instruction::ADD => 0b0000000000,
            Instruction::ADDC => 0b0000000001,
            Instruction::SUB => 0b0000000000,
            Instruction::SUBC => 0b0000000001,
            Instruction::MUL => 0b0000000000,
            Instruction::DIV => 0b0000000000,
            Instruction::INC => 0b0000000000,
            Instruction::DEC => 0b0001000000,
            Instruction::MOD => 0b0000000000,
            Instruction::AND => 0b0000000000,
            Instruction::OR => 0b0000000000,
            Instruction::XOR => 0b0000000000,
            Instruction::NOT => 0b0000000000,
            Instruction::SHIFTL0 => 0b0000000000,
            Instruction::SHIFTL1 => 0b0000010000,
            Instruction::SHIFTR0 => 0b0000100000,
            Instruction::SHIFTR1 => 0b0000110000,
            Instruction::ROTL => 0b0001000000,
            Instruction::ROTR => 0b0001100000,
            Instruction::CMP => 0b0000000000,
            Instruction::JMP => 0b0000000000,
            Instruction::JEQ => 0b0001000000,
            Instruction::JNE => 0b0010000000,
            Instruction::JZ => 0b0011000000,
            Instruction::JNZ => 0b0100000000,
            Instruction::JC => 0b0101000000,
            Instruction::JNC => 0b0110000000,
            Instruction::JGR => 0b0111000000,
            Instruction::JLE => 0b1000000000,
            Instruction::JEG => 0b1001000000,
            Instruction::JEL => 0b1010000000,
            Instruction::JOV => 0b1011000000,
            Instruction::JNO => 0b1100000000,
            Instruction::JDZ => 0b1101000000,
            Instruction::JN => 0b1110000000,
            Instruction::CALL => 0b0000000000,
            Instruction::CEQ => 0b0001000000,
            Instruction::CNE => 0b0010000000,
            Instruction::CZ => 0b0011000000,
            Instruction::CNZ => 0b0100000000,
            Instruction::CC => 0b0101000000,
            Instruction::CNC => 0b0110000000,
            Instruction::CGR => 0b0111000000,
            Instruction::CLE => 0b1000000000,
            Instruction::CEG => 0b1001000000,
            Instruction::CEL => 0b1010000000,
            Instruction::COV => 0b1011000000,
            Instruction::CNO => 0b1100000000,
            Instruction::CDZ => 0b1101000000,
            Instruction::CN => 0b1110000000,
            Instruction::RTS => 0b0000000000,
            Instruction::RTI => 0b0000000001,
            Instruction::PUSH => 0b0000000000,
            Instruction::POP => 0b0000000000,
            Instruction::NOP => 0b0000000000,
            Instruction::HALT => 0b0000000000,
            Instruction::CLEARC => 0b0000000000,
            Instruction::SETC => 0b1000000000,
            Instruction::BREAKP => 0b0000000000,
        }
    }

    /// The name of the instruction.
    pub open spec fn name_spec(self) -> Seq<char> {
        match self {
            Instruction::LOAD => "LOAD"@,
            Instruction::LOADN => "LOADN"@,
            Instruction::LOADI => "LOADI"@,
            Instruction::STORE => "STORE"@,
            Instruction::STOREN => "STOREN"@,
            Instruction::STOREI => "STOREI"@,
            Instruction::MOV => "MOV"@,
            Instruction::INPUT => "INPUT"@,
            Instruction::OUTPUT => "OUTPUT"@,
            Instruction::OUTCHAR => "OUTCHAR"@,
            Instruction::INCHAR => "INCHAR"@,
            Instruction::SOUND => "SOUND"@,
            Instruction::ADD => "ADD"@,
            Instruction::ADDC => "ADDC"@,
            Instruction::SUB => "SUB"@,
            Instruction::SUBC => "SUBC"@,
            Instruction::MUL => "MUL"@,
            Instruction::DIV => "DIV"@,
            Instruction::INC => "INC"@,
            Instruction::DEC => "DEC"@,
            Instruction::MOD => "MOD"@,
            Instruction::AND => "AND"@,
            Instruction::OR => "OR"@,
            Instruction::XOR => "XOR"@,
            Instruction::NOT => "NOT"@,
            Instruction::SHIFTL0 => "SHIFTL0"@,
            Instruction::SHIFTL1 => "SHIFTL1"@,
            Instruction::SHIFTR0 => "SHIFTR0"@,
            Instruction::SHIFTR1 => "SHIFTR1"@,
            Instruction::ROTL => "ROTL"@,
            Instruction::ROTR => "ROTR"@,
            Instruction::CMP => "CMP"@,
            Instruction::JMP => "JMP"@,
            Instruction::JEQ => "JEQ"@,
            Instruction::JNE => "JNE"@,
            Instruction::JZ => "JZ"@,
            Instruction::JNZ => "JNZ"@,
            Instruction::JC => "JC"@,
            Instruction::JNC => "JNC"@,
            Instruction::JGR => "JGR"@,
            Instruction::JLE => "JLE"@,
            Instruction::JEG => "JEG"@,
            Instruction::JEL => "JEL"@,
            Instruction::JOV => "JOV"@,
            Instruction::JNO => "JNO"@,
            Instruction::JDZ => "JDZ"@,
            Instruction::JN => "JN"@,
            Instruction::CALL => "CALL"@,
            Instruction::CEQ => "CEQ"@,
            Instruction::CNE => "CNE"@,
            Instruction::CZ => "CZ"@,
            Instruction::CNZ => "CNZ"@,
            Instruction::CC => "CC"@,
            Instruction::CNC => "CNC"@,
            Instruction::CGR => "CGR"@,
            Instruction::CLE => "CLE"@,
            Instruction::CEG => "CEG"@,
            Instruction::CEL => "CEL"@,
            Instruction::COV => "COV"@,
            Instruction::CNO => "CNO"@,
            Instruction::CDZ => "CDZ"@,
            Instruction::CN => "CN"@,
            Instruction::RTS => "RTS"@,
            Instruction::RTI => "RTI"@,
            Instruction::PUSH => "PUSH"@,
            Instruction::POP => "POP"@,
            Instruction::NOP => "NOP"@,
            Instruction::HALT => "HALT"@,
            Instruction::CLEARC => "CLEARC"@,
            Instruction::SETC => "SETC"@,
            Instruction::BREAKP => "BREAKP"@,
        }
    }

    /// The mask of the instruction: `0`/`1` for fixed bits, `-` for operand bits, bit 15 first.
    pub open spec fn mask_spec(self) -> Seq<char> {
        match self {
            Instruction::LOAD => "110000----------"@,
            Instruction::LOADN => "111000----------"@,
            Instruction::LOADI => "111100----------"@,
            Instruction::STORE => "110001----------"@,
            Instruction::STOREN => "111001----------"@,
            Instruction::STOREI => "111101----------"@,
            Instruction::MOV => "110011----------"@,
            Instruction::INPUT => "111110----------"@,
            Instruction::OUTPUT => "111111----------"@,
            Instruction::OUTCHAR => "110010----------"@,
            Instruction::INCHAR => "110101----------"@,
            Instruction::SOUND => "110100----------"@,
            Instruction::ADD => "100000---------0"@,
            Instruction::ADDC => "100000---------1"@,
            Instruction::SUB => "100001---------0"@,
            Instruction::SUBC => "100001---------1"@,
            Instruction::MUL => "100010---------0"@,
            Instruction::DIV => "100011---------0"@,
            Instruction::INC => "100100---0------"@,
            Instruction::DEC => "100100---1------"@,
            Instruction::MOD => "100101----------"@,
            Instruction::AND => "010010----------"@,
            Instruction::OR => "010011----------"@,
            Instruction::XOR => "010100----------"@,
            Instruction::NOT => "010101----------"@,
            Instruction::SHIFTL0 => "010000---000----"@,
            Instruction::SHIFTL1 => "010000---001----"@,
            Instruction::SHIFTR0 => "010000---010----"@,
            Instruction::SHIFTR1 => "010000---011----"@,
            Instruction::ROTL => "010000---10-----"@,
            Instruction::ROTR => "010000---11-----"@,
            Instruction::CMP => "010110----------"@,
            Instruction::JMP => "0000100000------"@,
            Instruction::JEQ => "0000100001------"@,
            Instruction::JNE => "0000100010------"@,
            Instruction::JZ => "0000100011------"@,
            Instruction::JNZ => "0000100100------"@,
            Instruction::JC => "0000100101------"@,
            Instruction::JNC => "0000100110------"@,
            Instruction::JGR => "0000100111------"@,
            Instruction::JLE => "0000101000------"@,
            Instruction::JEG => "0000101001------"@,
            Instruction::JEL => "0000101010------"@,
            Instruction::JOV => "0000101011------"@,
            Instruction::JNO => "0000101100------"@,
            Instruction::JDZ => "0000101101------"@,
            Instruction::JN => "0000101110------"@,
            Instruction::CALL => "0000110000------"@,
            Instruction::CEQ => "0000110001------"@,
            Instruction::CNE => "0000110010------"@,
            Instruction::CZ => "0000110011------"@,
            Instruction::CNZ => "0000110100------"@,
            Instruction::CC => "0000110101------"@,
            Instruction::CNC => "0000110110------"@,
            Instruction::CGR => "0000110111------"@,
            Instruction::CLE => "0000111000------"@,
            Instruction::CEG => "0000111001------"@,
            Instruction::CEL => "0000111010------"@,
            Instruction::COV => "0000111011------"@,
            Instruction::CNO => "0000111100------"@,
            Instruction::CDZ => "0000111101------"@,
            Instruction::CN => "0000111110------"@,
            Instruction::RTS => "000100---------0"@,
            Instruction::RTI => "000100---------1"@,
            Instruction::PUSH => "000101----------"@,
            Instruction::POP => "000110----------"@,
            Instruction::NOP => "000000----------"@,
            Instruction::HALT => "001111----------"@,
            Instruction::CLEARC => "0010000---------"@,
            Instruction::SETC => "0010001---------"@,
            Instruction::BREAKP => "001110----------"@,
        }
    }

    /// Bits that the mask fixes, over the whole word.
    pub open spec fn care(self) -> usize {
        (0xfc00usize | self.sub_care()) as usize
    }

    /// The word with the fixed bits of the mask and zeros elsewhere.
    pub open spec fn value(self) -> usize {
        (self.opcode_spec() * 1024 + self.sub_value()) as usize
    }

    /// The instruction at position `k` of the instruction set.
    pub fn at(k: usize) -> (i: Instruction)
        requires
            k < NUM_INSTRUCTIONS,
        ensures
            i == instruction_at(k as nat),
    {
        match k {
            0 => Instruction::LOAD,
            1 => Instruction::LOADN,
            2 => Instruction::LOADI,
            3 => Instruction::STORE,
            4 => Instruction::STOREN,
            5 => Instruction::STOREI,
            6 => Instruction::MOV,
            7 => Instruction::INPUT,
            8 => Instruction::OUTPUT,
            9 => Instruction::OUTCHAR,
            10 => Instruction::INCHAR,
            11 => Instruction::SOUND,
            12 => Instruction::ADD,
            13 => Instruction::ADDC,
            14 => Instruction::SUB,
            15 => Instruction::SUBC,
            16 => Instruction::MUL,
            17 => Instruction::DIV,
            18 => Instruction::INC,
            19 => Instruction::DEC,
            20 => Instruction::MOD,
            21 => Instruction::AND,
            22 => Instruction::OR,
            23 => Instruction::XOR,
            24 => Instruction::NOT,
            25 => Instruction::SHIFTL0,
            26 => Instruction::SHIFTL1,
            27 => Instruction::SHIFTR0,
            28 => Instruction::SHIFTR1,
            29 => Instruction::ROTL,
            30 => Instruction::ROTR,
            31 => Instruction::CMP,
            32 => Instruction::JMP,
            33 => Instruction::JEQ,
            34 => Instruction::JNE,
            35 => Instruction::JZ,
            36 => Instruction::JNZ,
            37 => Instruction::JC,
            38 => Instruction::JNC,
            39 => Instruction::JGR,
            40 => Instruction::JLE,
            41 => Instruction::JEG,
            42 => Instruction::JEL,
            43 => Instruction::JOV,
            44 => Instruction::JNO,
            45 => Instruction::JDZ,
            46 => Instruction::JN,
            47 => Instruction::CALL,
            48 => Instruction::CEQ,
            49 => Instruction::CNE,
            50 => Instruction::CZ,
            51 => Instruction::CNZ,
            52 => Instruction::CC,
            53 => Instruction::CNC,
            54 => Instruction::CGR,
            55 => Instruction::CLE,
            56 => Instruction::CEG,
            57 => Instruction::CEL,
            58 => Instruction::COV,
            59 => Instruction::CNO,
            60 => Instruction::CDZ,
            61 => Instruction::CN,
            62 => Instruction::RTS,
            63 => Instruction::RTI,
            64 => Instruction::PUSH,
            65 => Instruction::POP,
            66 => Instruction::NOP,
            67 => Instruction::HALT,
            68 => Instruction::CLEARC,
            69 => Instruction::SETC,
            _ => Instruction::BREAKP,
        }
    }

    /// Opcode, fixed low bits and their values, as in the mask.
    fn pattern(&self) -> (r: (usize, usize, usize))
        ensures
            r == (self.opcode_spec(), self.sub_care(), self.sub_value()),
    {
        match self {
            Instruction::LOAD => (0b110000, 0b0000000000, 0b0000000000),
            Instruction::LOADN => (0b111000, 0b0000000000, 0b0000000000),
            Instruction::LOADI => (0b111100, 0b0000000000, 0b0000000000),
            Instruction::STORE => (0b110001, 0b0000000000, 0b0000000000),
            Instruction::STOREN => (0b111001, 0b0000000000, 0b0000000000),
            Instruction::STOREI => (0b111101, 0b0000000000, 0b0000000000),
            Instruction::MOV => (0b110011, 0b0000000000, 0b0000000000),
            Instruction::INPUT => (0b111110, 0b0000000000, 0b0000000000),
            Instruction::OUTPUT => (0b111111, 0b0000000000, 0b0000000000),
            Instruction::OUTCHAR => (0b110010, 0b0000000000, 0b0000000000),
            Instruction::INCHAR => (0b110101, 0b0000000000, 0b0000000000),
            Instruction::SOUND => (0b110100, 0b0000000000, 0b0000000000),
            Instruction::ADD => (0b100000, 0b0000000001, 0b0000000000),
            Instruction::ADDC => (0b100000, 0b0000000001, 0b0000000001),
            Instruction::SUB => (0b100001, 0b0000000001, 0b0000000000),
            Instruction::SUBC => (0b100001, 0b0000000001, 0b0000000001),
            Instruction::MUL => (0b100010, 0b0000000001, 0b0000000000),
            Instruction::DIV => (0b100011, 0b0000000001, 0b0000000000),
            Instruction::INC => (0b100100, 0b0001000000, 0b0000000000),
            Instruction::DEC => (0b100100, 0b0001000000, 0b0001000000),
            Instruction::MOD => (0b100101, 0b0000000000, 0b0000000000),
            Instruction::AND => (0b10010, 0b0000000000, 0b0000000000),
            Instruction::OR => (0b10011, 0b0000000000, 0b0000000000),
            Instruction::XOR => (0b10100, 0b0000000000, 0b0000000000),
            Instruction::NOT => (0b10101, 0b0000000000, 0b0000000000),
            Instruction::SHIFTL0 => (0b10000, 0b0001110000, 0b0000000000),
            Instruction::SHIFTL1 => (0b10000, 0b0001110000, 0b0000010000),
            Instruction::SHIFTR0 => (0b10000, 0b0001110000, 0b0000100000),
            Instruction::SHIFTR1 => (0b10000, 0b0001110000, 0b0000110000),
            Instruction::ROTL => (0b10000, 0b0001100000, 0b0001000000),
            Instruction::ROTR => (0b10000, 0b0001100000, 0b0001100000),
            Instruction::CMP => (0b10110, 0b0000000000, 0b0000000000),
            Instruction::JMP => (0b10, 0b1111000000, 0b0000000000),
            Instruction::JEQ => (0b10, 0b1111000000, 0b0001000000),
            Instruction::JNE => (0b10, 0b1111000000, 0b0010000000),
            Instruction::JZ => (0b10, 0b1111000000, 0b0011000000),
            Instruction::JNZ => (0b10, 0b1111000000, 0b0100000000),
            Instruction::JC => (0b10, 0b1111000000, 0b0101000000),
            Instruction::JNC => (0b10, 0b1111000000, 0b0110000000),
            Instruction::JGR => (0b10, 0b1111000000, 0b0111000000),
            Instruction::JLE => (0b10, 0b1111000000, 0b1000000000),
            Instruction::JEG => (0b10, 0b1111000000, 0b1001000000),
            Instruction::JEL => (0b10, 0b1111000000, 0b1010000000),
            Instruction::JOV => (0b10, 0b1111000000, 0b1011000000),
            Instruction::JNO => (0b10, 0b1111000000, 0b1100000000),
            Instruction::JDZ => (0b10, 0b1111000000, 0b1101000000),
            Instruction::JN => (0b10, 0b1111000000, 0b1110000000),
            Instruction::CALL => (0b11, 0b1111000000, 0b0000000000),
            Instruction::CEQ => (0b11, 0b1111000000, 0b0001000000),
            Instruction::CNE => (0b11, 0b1111000000, 0b0010000000),
            Instruction::CZ => (0b11, 0b1111000000, 0b0011000000),
            Instruction::CNZ => (0b11, 0b1111000000, 0b0100000000),
            Instruction::CC => (0b11, 0b1111000000, 0b0101000000),
            Instruction::CNC => (0b11, 0b1111000000, 0b0110000000),
            Instruction::CGR => (0b11, 0b1111000000, 0b0111000000),
            Instruction::CLE => (0b11, 0b1111000000, 0b1000000000),
            Instruction::CEG => (0b11, 0b1111000000, 0b1001000000),
            Instruction::CEL => (0b11, 0b1111000000, 0b1010000000),
            Instruction::COV => (0b11, 0b1111000000, 0b1011000000),
            Instruction::CNO => (0b11, 0b1111000000, 0b1100000000),
            Instruction::CDZ => (0b11, 0b1111000000, 0b1101000000),
            Instruction::CN => (0b11, 0b1111000000, 0b1110000000),
            Instruction::RTS => (0b100, 0b0000000001, 0b0000000000),
            Instruction::RTI => (0b100, 0b0000000001, 0b0000000001),
            Instruction::PUSH => (0b101, 0b0000000000, 0b0000000000),
            Instruction::POP => (0b110, 0b0000000000, 0b0000000000),
            Instruction::NOP => (0b0, 0b0000000000, 0b0000000000),
            Instruction::HALT => (0b1111, 0b0000000000, 0b0000000000),
            Instruction::CLEARC => (0b1000, 0b1000000000, 0b0000000000),
            Instruction::SETC => (0b1000, 0b1000000000, 0b1000000000),
            Instruction::BREAKP => (0b1110, 0b0000000000, 0b0000000000),
        }
    }

    /// The name of the instruction.
    pub fn name(&self) -> (s: &'static str)
        ensures
            s@ == self.name_spec(),
    {
        match self {
            Instruction::LOAD => "LOAD",
            Instruction::LOADN => "LOADN",
            Instruction::LOADI => "LOADI",
            Instruction::STORE => "STORE",
            Instruction::STOREN => "STOREN",
            Instruction::STOREI => "STOREI",
            Instruction::MOV => "MOV",
            Instruction::INPUT => "INPUT",
            Instruction::OUTPUT => "OUTPUT",
            Instruction::OUTCHAR => "OUTCHAR",
            Instruction::INCHAR => "INCHAR",
            Instruction::SOUND => "SOUND",
            Instruction::ADD => "ADD",
            Instruction::ADDC => "ADDC",
            Instruction::SUB => "SUB",
            Instruction::SUBC => "SUBC",
            Instruction::MUL => "MUL",
            Instruction::DIV => "DIV",
            Instruction::INC => "INC",
            Instruction::DEC => "DEC",
            Instruction::MOD => "MOD",
            Instruction::AND => "AND",
            Instruction::OR => "OR",
            Instruction::XOR => "XOR",
            Instruction::NOT => "NOT",
            Instruction::SHIFTL0 => "SHIFTL0",
            Instruction::SHIFTL1 => "SHIFTL1",
            Instruction::SHIFTR0 => "SHIFTR0",
            Instruction::SHIFTR1 => "SHIFTR1",
            Instruction::ROTL => "ROTL",
            Instruction::ROTR => "ROTR",
            Instruction::CMP => "CMP",
            Instruction::JMP => "JMP",
            Instruction::JEQ => "JEQ",
            Instruction::JNE => "JNE",
            Instruction::JZ => "JZ",
            Instruction::JNZ => "JNZ",
            Instruction::JC => "JC",
            Instruction::JNC => "JNC",
            Instruction::JGR => "JGR",
            Instruction::JLE => "JLE",
            Instruction::JEG => "JEG",
            Instruction::JEL => "JEL",
            Instruction::JOV => "JOV",
            Instruction::JNO => "JNO",
            Instruction::JDZ => "JDZ",
            Instruction::JN => "JN",
            Instruction::CALL => "CALL",
            Instruction::CEQ => "CEQ",
            Instruction::CNE => "CNE",
            Instruction::CZ => "CZ",
            Instruction::CNZ => "CNZ",
            Instruction::CC => "CC",
            Instruction::CNC => "CNC",
            Instruction::CGR => "CGR",
            Instruction::CLE => "CLE",
            Instruction::CEG => "CEG",
            Instruction::CEL => "CEL",
            Instruction::COV => "COV",
            Instruction::CNO => "CNO",
            Instruction::CDZ => "CDZ",
            Instruction::CN => "CN",
            Instruction::RTS => "RTS",
            Instruction::RTI => "RTI",
            Instruction::PUSH => "PUSH",
            Instruction::POP => "POP",
            Instruction::NOP => "NOP",
            Instruction::HALT => "HALT",
            Instruction::CLEARC => "CLEARC",
            Instruction::SETC => "SETC",
            Instruction::BREAKP => "BREAKP",
        }
    }

    /// The mask of the instruction (bit 15 first; `-` marks operand bits).
    pub fn mask(&self) -> (s: &'static str)
        ensures
            s@ == self.mask_spec(),
    {
        match self {
            Instruction::LOAD => "110000----------",
            Instruction::LOADN => "111000----------",
            Instruction::LOADI => "111100----------",
            Instruction::STORE => "110001----------",
            Instruction::STOREN => "111001----------",
            Instruction::STOREI => "111101----------",
            Instruction::MOV => "110011----------",
            Instruction::INPUT => "111110----------",
            Instruction::OUTPUT => "111111----------",
            Instruction::OUTCHAR => "110010----------",
            Instruction::INCHAR => "110101----------",
            Instruction::SOUND => "110100----------",
            Instruction::ADD => "100000---------0",
            Instruction::ADDC => "100000---------1",
            Instruction::SUB => "100001---------0",
            Instruction::SUBC => "100001---------1",
            Instruction::MUL => "100010---------0",
            Instruction::DIV => "100011---------0",
            Instruction::INC => "100100---0------",
            Instruction::DEC => "100100---1------",
            Instruction::MOD => "100101----------",
            Instruction::AND => "010010----------",
            Instruction::OR => "010011----------",
            Instruction::XOR => "010100----------",
            Instruction::NOT => "010101----------",
            Instruction::SHIFTL0 => "010000---000----",
            Instruction::SHIFTL1 => "010000---001----",
            Instruction::SHIFTR0 => "010000---010----",
            Instruction::SHIFTR1 => "010000---011----",
            Instruction::ROTL => "010000---10-----",
            Instruction::ROTR => "010000---11-----",
            Instruction::CMP => "010110----------",
            Instruction::JMP => "0000100000------",
            Instruction::JEQ => "0000100001------",
            Instruction::JNE => "0000100010------",
            Instruction::JZ => "0000100011------",
            Instruction::JNZ => "0000100100------",
            Instruction::JC => "0000100101------",
            Instruction::JNC => "0000100110------",
            Instruction::JGR => "0000100111------",
            Instruction::JLE => "0000101000------",
            Instruction::JEG => "0000101001------",
            Instruction::JEL => "0000101010------",
            Instruction::JOV => "0000101011------",
            Instruction::JNO => "0000101100------",
            Instruction::JDZ => "0000101101------",
            Instruction::JN => "0000101110------",
            Instruction::CALL => "0000110000------",
            Instruction::CEQ => "0000110001------",
            Instruction::CNE => "0000110010------",
            Instruction::CZ => "0000110011------",
            Instruction::CNZ => "0000110100------",
            Instruction::CC => "0000110101------",
            Instruction::CNC => "0000110110------",
            Instruction::CGR => "0000110111------",
            Instruction::CLE => "0000111000------",
            Instruction::CEG => "0000111001------",
            Instruction::CEL => "0000111010------",
            Instruction::COV => "0000111011------",
            Instruction::CNO => "0000111100------",
            Instruction::CDZ => "0000111101------",
            Instruction::CN => "0000111110------",
            Instruction::RTS => "000100---------0",
            Instruction::RTI => "000100---------1",
            Instruction::PUSH => "000101----------",
            Instruction::POP => "000110----------",
            Instruction::NOP => "000000----------",
            Instruction::HALT => "001111----------",
            Instruction::CLEARC => "0010000---------",
            Instruction::SETC => "0010001---------",
            Instruction::BREAKP => "001110----------",
        }
    }
}

/// The instruction at position `k` of the instruction set.
pub open spec fn instruction_at(k: nat) -> Instruction {
    if k == 0 {
        Instruction::LOAD
    } else if k == 1 {
        Instruction::LOADN
    } else if k == 2 {
        Instruction::LOADI
    } else if k == 3 {
        Instruction::STORE
    } else if k == 4 {
        Instruction::STOREN
    } else if k == 5 {
        Instruction::STOREI
    } else if k == 6 {
        Instruction::MOV
    } else if k == 7 {
        Instruction::INPUT
    } else if k == 8 {
        Instruction::OUTPUT
    } else if k == 9 {
        Instruction::OUTCHAR
    } else if k == 10 {
        Instruction::INCHAR
    } else if k == 11 {
        Instruction::SOUND
    } else if k == 12 {
        Instruction::ADD
    } else if k == 13 {
        Instruction::ADDC
    } else if k == 14 {
        Instruction::SUB
    } else if k == 15 {
        Instruction::SUBC
    } else if k == 16 {
        Instruction::MUL
    } else if k == 17 {
        Instruction::DIV
    } else if k == 18 {
        Instruction::INC
    } else if k == 19 {
        Instruction::DEC
    } else if k == 20 {
        Instruction::MOD
    } else if k == 21 {
        Instruction::AND
    } else if k == 22 {
        Instruction::OR
    } else if k == 23 {
        Instruction::XOR
    } else if k == 24 {
        Instruction::NOT
    } else if k == 25 {
        Instruction::SHIFTL0
    } else if k == 26 {
        Instruction::SHIFTL1
    } else if k == 27 {
        Instruction::SHIFTR0
    } else if k == 28 {
        Instruction::SHIFTR1
    } else if k == 29 {
        Instruction::ROTL
    } else if k == 30 {
        Instruction::ROTR
    } else if k == 31 {
        Instruction::CMP
    } else if k == 32 {
        Instruction::JMP
    } else if k == 33 {
        Instruction::JEQ
    } else if k == 34 {
        Instruction::JNE
    } else if k == 35 {
        Instruction::JZ
    } else if k == 36 {
        Instruction::JNZ
    } else if k == 37 {
        Instruction::JC
    } else if k == 38 {
        Instruction::JNC
    } else if k == 39 {
        Instruction::JGR
    } else if k == 40 {
        Instruction::JLE
    } else if k == 41 {
        Instruction::JEG
    } else if k == 42 {
        Instruction::JEL
    } else if k == 43 {
        Instruction::JOV
    } else if k == 44 {
        Instruction::JNO
    } else if k == 45 {
        Instruction::JDZ
    } else if k == 46 {
        Instruction::JN
    } else if k == 47 {
        Instruction::CALL
    } else if k == 48 {
        Instruction::CEQ
    } else if k == 49 {
        Instruction::CNE
    } else if k == 50 {
        Instruction::CZ
    } else if k == 51 {
        Instruction::CNZ
    } else if k == 52 {
        Instruction::CC
    } else if k == 53 {
        Instruction::CNC
    } else if k == 54 {
        Instruction::CGR
    } else if k == 55 {
        Instruction::CLE
    } else if k == 56 {
        Instruction::CEG
    } else if k == 57 {
        Instruction::CEL
    } else if k == 58 {
        Instruction::COV
    } else if k == 59 {
        Instruction::CNO
    } else if k == 60 {
        Instruction::CDZ
    } else if k == 61 {
        Instruction::CN
    } else if k == 62 {
        Instruction::RTS
    } else if k == 63 {
        Instruction::RTI
    } else if k == 64 {
        Instruction::PUSH
    } else if k == 65 {
        Instruction::POP
    } else if k == 66 {
        Instruction::NOP
    } else if k == 67 {
        Instruction::HALT
    } else if k == 68 {
        Instruction::CLEARC
    } else if k == 69 {
        Instruction::SETC
    } else {
        Instruction::BREAKP
    }
}

/// The 16-bit window of `v` that decoding reads: `v` itself when it fits in
/// 16 bits, otherwise its 16 most significant bits (the first sixteen
/// characters of its binary representation).
pub open spec fn window(v: nat) -> nat
    decreases v,
{
    if v < 65536 {
        v
    } else {
        window(v / 2)
    }
}

/// All ones in the `k` lowest bits.
pub open spec fn low_mask(k: usize) -> usize {
    ((1usize << k) - 1) as usize
}

/// The bits `start..=end` of `mem`, counted from the low bit.
pub open spec fn bits_spec(mem: usize, start: usize, end: usize) -> usize {
    (mem >> start) & low_mask((end - start + 1) as usize)
}

/// `bits_spec(mem, start, end)` is defined without overflow or an oversized
/// shift: the range is not reversed, and both its start and its width are
/// below the word size.
pub open spec fn bits_in_range(start: usize, end: usize) -> bool {
    &&& start <= end
    &&& start < usize::BITS
    &&& end - start + 1 < usize::BITS
}

/// The word `w` (at most 16 bits) carries the fixed bits of the mask of `i`:
/// its top six bits are the opcode and its low ten bits agree with the mask
/// wherever the mask is not `-`.
pub open spec fn word_matches(w: usize, i: Instruction) -> bool {
    &&& w / 1024 == i.opcode_spec()
    &&& (w & i.sub_care()) == i.sub_value()
}

/// The first instruction at position `k` or later whose mask `w` matches.
pub open spec fn first_match_from(w: usize, k: nat) -> Option<Instruction>
    decreases NUM_INSTRUCTIONS - k,
{
    if k >= NUM_INSTRUCTIONS {
        None
    } else if word_matches(w, instruction_at(k)) {
        Some(instruction_at(k))
    } else {
        first_match_from(w, k + 1)
    }
}

/// The instruction that the word `v` encodes, if any: the first instruction,
/// in instruction-set order, whose mask the 16-bit window of `v` matches.
pub open spec fn decode_word(v: usize) -> Option<Instruction> {
    first_match_from(window(v as nat) as usize, 0)
}

/// When no instruction before position `k` matches and the one at `k`
/// does, the search from any earlier position finds it.
proof fn lemma_first_match_found(w: usize, k: nat, m: nat)
    requires
        k < NUM_INSTRUCTIONS,
        m <= k,
        word_matches(w, instruction_at(k)),
        forall|j: nat| j < k ==> !word_matches(w, #[trigger] instruction_at(j)),
    ensures
        first_match_from(w, m) == Some(instruction_at(k)),
    decreases k - m,
{
    if m < k {
        lemma_first_match_found(w, k, m + 1);
    }
}

/// When no instruction matches, the search finds nothing.
proof fn lemma_first_match_none(w: usize, m: nat)
    requires
        forall|j: nat| j < NUM_INSTRUCTIONS ==> !word_matches(w, #[trigger] instruction_at(j)),
    ensures
        first_match_from(w, m) is None,
    decreases NUM_INSTRUCTIONS - m,
{
    if m < NUM_INSTRUCTIONS {
        lemma_first_match_none(w, m + 1);
    }
}

/// The first instruction at position `k` or later whose name is `s`,
/// ignoring ASCII case.
pub open spec fn first_name_from(s: Seq<char>, k: nat) -> Option<Instruction>
    decreases NUM_INSTRUCTIONS - k,
{
    if k >= NUM_INSTRUCTIONS {
        None
    } else if eq_ignore_case(s, instruction_at(k).name_spec()) {
        Some(instruction_at(k))
    } else {
        first_name_from(s, k + 1)
    }
}

/// The instruction named `s` (ASCII case ignored), if any.
pub open spec fn lookup_name(s: Seq<char>) -> Option<Instruction> {
    first_name_from(s, 0)
}

proof fn lemma_first_name_found(s: Seq<char>, k: nat, m: nat)
    requires
        k < NUM_INSTRUCTIONS,
        m <= k,
        eq_ignore_case(s, instruction_at(k).name_spec()),
        forall|j: nat| j < k ==> !eq_ignore_case(s, #[trigger] instruction_at(j).name_spec()),
    ensures
        first_name_from(s, m) == Some(instruction_at(k)),
    decreases k - m,
{
    if m < k {
        lemma_first_name_found(s, k, m + 1);
    }
}

proof fn lemma_first_name_none(s: Seq<char>, m: nat)
    requires
        forall|j: nat| j < NUM_INSTRUCTIONS ==> !eq_ignore_case(s, #[trigger] instruction_at(j).name_spec()),
    ensures
        first_name_from(s, m) is None,
    decreases NUM_INSTRUCTIONS - m,
{
    if m < NUM_INSTRUCTIONS {
        lemma_first_name_none(s, m + 1);
    }
}

/// A word that fixes bits 4 to 6 as a shift does (bit 6 clear) cannot fix
/// bits 5 and 6 as a rotation does (bit 6 set).
proof fn lemma_shift_rotate_apart(w: usize)
    ensures
        !((w & 0b1110000) < 0b1000000 && (w & 0b1100000) >= 0b1000000),
{
    assert(!((w & 0b1110000) < 0b1000000 && (w & 0b1100000) >= 0b1000000)) by (bit_vector);
}

/// No word matches the masks of two different instructions: the masks of
/// the instruction set are pairwise disjoint.
pub proof fn law_masks_disjoint(w: usize, i: Instruction, j: Instruction)
    requires
        word_matches(w, i),
        word_matches(w, j),
    ensures
        i == j,
{
    lemma_shift_rotate_apart(w);
}

/// A 16-bit word that matches the mask of `i` decodes to `i`, whatever its
/// free bits hold.
pub proof fn law_decode_matching(w: usize, i: Instruction)
    requires
        w < 65536,
        word_matches(w, i),
    ensures
        decode_word(w) == Some(i),
{
    lemma_index_at(i);
    assert forall|j: nat| j < i.index() implies !word_matches(w, #[trigger] instruction_at(j)) by {
        lemma_at_index(j);
        if word_matches(w, instruction_at(j)) {
            law_masks_disjoint(w, i, instruction_at(j));
        }
    }
    lemma_first_match_found(w, i.index(), 0);
}

/// The first, last and second-to-last characters of the name of `i`,
/// which tell the instructions apart.
spec fn name_key(i: Instruction) -> (char, char, char) {
    match i {
        Instruction::LOAD => ('L', 'D', 'A'),
        Instruction::LOADN => ('L', 'N', 'D'),
        Instruction::LOADI => ('L', 'I', 'D'),
        Instruction::STORE => ('S', 'E', 'R'),
        Instruction::STOREN => ('S', 'N', 'E'),
        Instruction::STOREI => ('S', 'I', 'E'),
        Instruction::MOV => ('M', 'V', 'O'),
        Instruction::INPUT => ('I', 'T', 'U'),
        Instruction::OUTPUT => ('O', 'T', 'U'),
        Instruction::OUTCHAR => ('O', 'R', 'A'),
        Instruction::INCHAR => ('I', 'R', 'A'),
        Instruction::SOUND => ('S', 'D', 'N'),
        Instruction::ADD => ('A', 'D', 'D'),
        Instruction::ADDC => ('A', 'C', 'D'),
        Instruction::SUB => ('S', 'B', 'U'),
        Instruction::SUBC => ('S', 'C', 'B'),
        Instruction::MUL => ('M', 'L', 'U'),
        Instruction::DIV => ('D', 'V', 'I'),
        Instruction::INC => ('I', 'C', 'N'),
        Instruction::DEC => ('D', 'C', 'E'),
        Instruction::MOD => ('M', 'D', 'O'),
        Instruction::AND => ('A', 'D', 'N'),
        Instruction::OR => ('O', 'R', 'O'),
        Instruction::XOR => ('X', 'R', 'O'),
        Instruction::NOT => ('N', 'T', 'O'),
        Instruction::SHIFTL0 => ('S', '0', 'L'),
        Instruction::SHIFTL1 => ('S', '1', 'L'),
        Instruction::SHIFTR0 => ('S', '0', 'R'),
        Instruction::SHIFTR1 => ('S', '1', 'R'),
        Instruction::ROTL => ('R', 'L', 'T'),
        Instruction::ROTR => ('R', 'R', 'T'),
        Instruction::CMP => ('C', 'P', 'M'),
        Instruction::JMP => ('J', 'P', 'M'),
        Instruction::JEQ => ('J', 'Q', 'E'),
        Instruction::JNE => ('J', 'E', 'N'),
        Instruction::JZ => ('J', 'Z', 'J'),
        Instruction::JNZ => ('J', 'Z', 'N'),
        Instruction::JC => ('J', 'C', 'J'),
        Instruction::JNC => ('J', 'C', 'N'),
        Instruction::JGR => ('J', 'R', 'G'),
        Instruction::JLE => ('J', 'E', 'L'),
        Instruction::JEG => ('J', 'G', 'E'),
        Instruction::JEL => ('J', 'L', 'E'),
        Instruction::JOV => ('J', 'V', 'O'),
        Instruction::JNO => ('J', 'O', 'N'),
        Instruction::JDZ => ('J', 'Z', 'D'),
        Instruction::JN => ('J', 'N', 'J'),
        Instruction::CALL => ('C', 'L', 'L'),
        Instruction::CEQ => ('C', 'Q', 'E'),
        Instruction::CNE => ('C', 'E', 'N'),
        Instruction::CZ => ('C', 'Z', 'C'),
        Instruction::CNZ => ('C', 'Z', 'N'),
        Instruction::CC => ('C', 'C', 'C'),
        Instruction::CNC => ('C', 'C', 'N'),
        Instruction::CGR => ('C', 'R', 'G'),
        Instruction::CLE => ('C', 'E', 'L'),
        Instruction::CEG => ('C', 'G', 'E'),
        Instruction::CEL => ('C', 'L', 'E'),
        Instruction::COV => ('C', 'V', 'O'),
        Instruction::CNO => ('C', 'O', 'N'),
        Instruction::CDZ => ('C', 'Z', 'D'),
        Instruction::CN => ('C', 'N', 'C'),
        Instruction::RTS => ('R', 'S', 'T'),
        Instruction::RTI => ('R', 'I', 'T'),
        Instruction::PUSH => ('P', 'H', 'S'),
        Instruction::POP => ('P', 'P', 'O'),
        Instruction::NOP => ('N', 'P', 'O'),
        Instruction::HALT => ('H', 'T', 'L'),
        Instruction::CLEARC => ('C', 'C', 'R'),
        Instruction::SETC => ('S', 'C', 'T'),
        Instruction::BREAKP => ('B', 'P', 'K'),
    }
}

/// The name of `i` has at least two characters, and its first, last and
/// second-to-last ones are those of [`name_key`].
proof fn lemma_name_key(i: Instruction)
    ensures
        i.name_spec().len() >= 2,
        i.name_spec()[0] == name_key(i).0,
        i.name_spec()[i.name_spec().len() - 1] == name_key(i).1,
        i.name_spec()[i.name_spec().len() - 2] == name_key(i).2,
{
    match i {
        Instruction::LOAD => {
            reveal_strlit("LOAD");
            assert(i.name_spec().len() == 4);
            assert(i.name_spec()[0] == 'L');
            assert(i.name_spec()[3] == 'D');
            assert(i.name_spec()[2] == 'A');
        },
        Instruction::LOADN => {
            reveal_strlit("LOADN");
            assert(i.name_spec().len() == 5);
            assert(i.name_spec()[0] == 'L');
            assert(i.name_spec()[4] == 'N');
            assert(i.name_spec()[3] == 'D');
        },
        Instruction::LOADI => {
            reveal_strlit("LOADI");
            assert(i.name_spec().len() == 5);
            assert(i.name_spec()[0] == 'L');
            assert(i.name_spec()[4] == 'I');
            assert(i.name_spec()[3] == 'D');
        },
        Instruction::STORE => {
            reveal_strlit("STORE");
            assert(i.name_spec().len() == 5);
            assert(i.name_spec()[0] == 'S');
            assert(i.name_spec()[4] == 'E');
            assert(i.name_spec()[3] == 'R');
        },
        Instruction::STOREN => {
            reveal_strlit("STOREN");
            assert(i.name_spec().len() == 6);
            assert(i.name_spec()[0] == 'S');
            assert(i.name_spec()[5] == 'N');
            assert(i.name_spec()[4] == 'E');
        },
        Instruction::STOREI => {
            reveal_strlit("STOREI");
            assert(i.name_spec().len() == 6);
            assert(i.name_spec()[0] == 'S');
            assert(i.name_spec()[5] == 'I');
            assert(i.name_spec()[4] == 'E');
        },
        Instruction::MOV => {
            reveal_strlit("MOV");
            assert(i.name_spec().len() == 3);
            assert(i.name_spec()[0] == 'M');
            assert(i.name_spec()[2] == 'V');
            assert(i.name_spec()[1] == 'O');
        },
        Instruction::INPUT => {
            reveal_strlit("INPUT");
            assert(i.name_spec().len() == 5);
            assert(i.name_spec()[0] == 'I');
            assert(i.name_spec()[4] == 'T');
            assert(i.name_spec()[3] == 'U');
        },
        Instruction::OUTPUT => {
            reveal_strlit("OUTPUT");
            assert(i.name_spec().len() == 6);
            assert(i.name_spec()[0] == 'O');
            assert(i.name_spec()[5] == 'T');
            assert(i.name_spec()[4] == 'U');
        },
        Instruction::OUTCHAR => {
            reveal_strlit("OUTCHAR");
            assert(i.name_spec().len() == 7);
            assert(i.name_spec()[0] == 'O');
            assert(i.name_spec()[6] == 'R');
            assert(i.name_spec()[5] == 'A');
        },
        Instruction::INCHAR => {
            reveal_strlit("INCHAR");
            assert(i.name_spec().len() == 6);
            assert(i.name_spec()[0] == 'I');
            assert(i.name_spec()[5] == 'R');
            assert(i.name_spec()[4] == 'A');
        },
        Instruction::SOUND => {
            reveal_strlit("SOUND");
            assert(i.name_spec().len() == 5);
            assert(i.name_spec()[0] == 'S');
            assert(i.name_spec()[4] == 'D');
            assert(i.name_spec()[3] == 'N');
        },
        Instruction::ADD => {
            reveal_strlit("ADD");
            assert(i.name_spec().len() == 3);
            assert(i.name_spec()[0] == 'A');
            assert(i.name_spec()[2] == 'D');
            assert(i.name_spec()[1] == 'D');
        },
        Instruction::ADDC => {
            reveal_strlit("ADDC");
            assert(i.name_spec().len() == 4);
            assert(i.name_spec()[0] == 'A');
            assert(i.name_spec()[3] == 'C');
            assert(i.name_spec()[2] == 'D');
        },
        Instruction::SUB => {
            reveal_strlit("SUB");
            assert(i.name_spec().len() == 3);
            assert(i.name_spec()[0] == 'S');
            assert(i.name_spec()[2] == 'B');
            assert(i.name_spec()[1] == 'U');
        },
        Instruction::SUBC => {
            reveal_strlit("SUBC");
            assert(i.name_spec().len() == 4);
            assert(i.name_spec()[0] == 'S');
            assert(i.name_spec()[3] == 'C');
            assert(i.name_spec()[2] == 'B');
        },
        Instruction::MUL => {
            reveal_strlit("MUL");
            assert(i.name_spec().len() == 3);
            assert(i.name_spec()[0] == 'M');
            assert(i.name_spec()[2] == 'L');
            assert(i.name_spec()[1] == 'U');
        },
        Instruction::DIV => {
            reveal_strlit("DIV");
            assert(i.name_spec().len() == 3);
            assert(i.name_spec()[0] == 'D');
            assert(i.name_spec()[2] == 'V');
            assert(i.name_spec()[1] == 'I');
        },
        Instruction::INC => {
            reveal_strlit("INC");
            assert(i.name_spec().len() == 3);
            assert(i.name_spec()[0] == 'I');
            assert(i.name_spec()[2] == 'C');
            assert(i.name_spec()[1] == 'N');
        },
        Instruction::DEC => {
            reveal_strlit("DEC");
            assert(i.name_spec().len() == 3);
            assert(i.name_spec()[0] == 'D');
            assert(i.name_spec()[2] == 'C');
            assert(i.name_spec()[1] == 'E');
        },
        Instruction::MOD => {
            reveal_strlit("MOD");
            assert(i.name_spec().len() == 3);
            assert(i.name_spec()[0] == 'M');
            assert(i.name_spec()[2] == 'D');
            assert(i.name_spec()[1] == 'O');
        },
        Instruction::AND => {
            reveal_strlit("AND");
            assert(i.name_spec().len() == 3);
            assert(i.name_spec()[0] == 'A');
            assert(i.name_spec()[2] == 'D');
            assert(i.name_spec()[1] == 'N');
        },
        Instruction::OR => {
            reveal_strlit("OR");
            assert(i.name_spec().len() == 2);
            assert(i.name_spec()[0] == 'O');
            assert(i.name_spec()[1] == 'R');
            assert(i.name_spec()[0] == 'O');
        },
        Instruction::XOR => {
            reveal_strlit("XOR");
            assert(i.name_spec().len() == 3);
            assert(i.name_spec()[0] == 'X');
            assert(i.name_spec()[2] == 'R');
            assert(i.name_spec()[1] == 'O');
        },
        Instruction::NOT => {
            reveal_strlit("NOT");
            assert(i.name_spec().len() == 3);
            assert(i.name_spec()[0] == 'N');
            assert(i.name_spec()[2] == 'T');
            assert(i.name_spec()[1] == 'O');
        },
        Instruction::SHIFTL0 => {
            reveal_strlit("SHIFTL0");
            assert(i.name_spec().len() == 7);
            assert(i.name_spec()[0] == 'S');
            assert(i.name_spec()[6] == '0');
            assert(i.name_spec()[5] == 'L');
        },
        Instruction::SHIFTL1 => {
            reveal_strlit("SHIFTL1");
            assert(i.name_spec().len() == 7);
            assert(i.name_spec()[0] == 'S');
            assert(i.name_spec()[6] == '1');
            assert(i.name_spec()[5] == 'L');
        },
        Instruction::SHIFTR0 => {
            reveal_strlit("SHIFTR0");
            assert(i.name_spec().len() == 7);
            assert(i.name_spec()[0] == 'S');
            assert(i.name_spec()[6] == '0');
            assert(i.name_spec()[5] == 'R');
        },
        Instruction::SHIFTR1 => {
            reveal_strlit("SHIFTR1");
            assert(i.name_spec().len() == 7);
            assert(i.name_spec()[0] == 'S');
            assert(i.name_spec()[6] == '1');
            assert(i.name_spec()[5] == 'R');
        },
        Instruction::ROTL => {
            reveal_strlit("ROTL");
            assert(i.name_spec().len() == 4);
            assert(i.name_spec()[0] == 'R');
            assert(i.name_spec()[3] == 'L');
            assert(i.name_spec()[2] == 'T');
        },
        Instruction::ROTR => {
            reveal_strlit("ROTR");
            assert(i.name_spec().len() == 4);
            assert(i.name_spec()[0] == 'R');
            assert(i.name_spec()[3] == 'R');
            assert(i.name_spec()[2] == 'T');
        },
        Instruction::CMP => {
            reveal_strlit("CMP");
            assert(i.name_spec().len() == 3);
            assert(i.name_spec()[0] == 'C');
            assert(i.name_spec()[2] == 'P');
            assert(i.name_spec()[1] == 'M');
        },
        Instruction::JMP => {
            reveal_strlit("JMP");
            assert(i.name_spec().len() == 3);
            assert(i.name_spec()[0] == 'J');
            assert(i.name_spec()[2] == 'P');
            assert(i.name_spec()[1] == 'M');
        },
        Instruction::JEQ => {
            reveal_strlit("JEQ");
            assert(i.name_spec().len() == 3);
            assert(i.name_spec()[0] == 'J');
            assert(i.name_spec()[2] == 'Q');
            assert(i.name_spec()[1] == 'E');
        },
        Instruction::JNE => {
            reveal_strlit("JNE");
            assert(i.name_spec().len() == 3);
            assert(i.name_spec()[0] == 'J');
            assert(i.name_spec()[2] == 'E');
            assert(i.name_spec()[1] == 'N');
        },
        Instruction::JZ => {
            reveal_strlit("JZ");
            assert(i.name_spec().len() == 2);
            assert(i.name_spec()[0] == 'J');
            assert(i.name_spec()[1] == 'Z');
            assert(i.name_spec()[0] == 'J');
        },
        Instruction::JNZ => {
            reveal_strlit("JNZ");
            assert(i.name_spec().len() == 3);
            assert(i.name_spec()[0] == 'J');
            assert(i.name_spec()[2] == 'Z');
            assert(i.name_spec()[1] == 'N');
        },
        Instruction::JC => {
            reveal_strlit("JC");
            assert(i.name_spec().len() == 2);
            assert(i.name_spec()[0] == 'J');
            assert(i.name_spec()[1] == 'C');
            assert(i.name_spec()[0] == 'J');
        },
        Instruction::JNC => {
            reveal_strlit("JNC");
            assert(i.name_spec().len() == 3);
            assert(i.name_spec()[0] == 'J');
            assert(i.name_spec()[2] == 'C');
            assert(i.name_spec()[1] == 'N');
        },
        Instruction::JGR => {
            reveal_strlit("JGR");
            assert(i.name_spec().len() == 3);
            assert(i.name_spec()[0] == 'J');
            assert(i.name_spec()[2] == 'R');
            assert(i.name_spec()[1] == 'G');
        },
        Instruction::JLE => {
            reveal_strlit("JLE");
            assert(i.name_spec().len() == 3);
            assert(i.name_spec()[0] == 'J');
            assert(i.name_spec()[2] == 'E');
            assert(i.name_spec()[1] == 'L');
        },
        Instruction::JEG => {
            reveal_strlit("JEG");
            assert(i.name_spec().len() == 3);
            assert(i.name_spec()[0] == 'J');
            assert(i.name_spec()[2] == 'G');
            assert(i.name_spec()[1] == 'E');
        },
        Instruction::JEL => {
            reveal_strlit("JEL");
            assert(i.name_spec().len() == 3);
            assert(i.name_spec()[0] == 'J');
            assert(i.name_spec()[2] == 'L');
            assert(i.name_spec()[1] == 'E');
        },
        Instruction::JOV => {
            reveal_strlit("JOV");
            assert(i.name_spec().len() == 3);
            assert(i.name_spec()[0] == 'J');
            assert(i.name_spec()[2] == 'V');
            assert(i.name_spec()[1] == 'O');
        },
        Instruction::JNO => {
            reveal_strlit("JNO");
            assert(i.name_spec().len() == 3);
            assert(i.name_spec()[0] == 'J');
            assert(i.name_spec()[2] == 'O');
            assert(i.name_spec()[1] == 'N');
        },
        Instruction::JDZ => {
            reveal_strlit("JDZ");
            assert(i.name_spec().len() == 3);
            assert(i.name_spec()[0] == 'J');
            assert(i.name_spec()[2] == 'Z');
            assert(i.name_spec()[1] == 'D');
        },
        Instruction::JN => {
            reveal_strlit("JN");
            assert(i.name_spec().len() == 2);
            assert(i.name_spec()[0] == 'J');
            assert(i.name_spec()[1] == 'N');
            assert(i.name_spec()[0] == 'J');
        },
        Instruction::CALL => {
            reveal_strlit("CALL");
            assert(i.name_spec().len() == 4);
            assert(i.name_spec()[0] == 'C');
            assert(i.name_spec()[3] == 'L');
            assert(i.name_spec()[2] == 'L');
        },
        Instruction::CEQ => {
            reveal_strlit("CEQ");
            assert(i.name_spec().len() == 3);
            assert(i.name_spec()[0] == 'C');
            assert(i.name_spec()[2] == 'Q');
            assert(i.name_spec()[1] == 'E');
        },
        Instruction::CNE => {
            reveal_strlit("CNE");
            assert(i.name_spec().len() == 3);
            assert(i.name_spec()[0] == 'C');
            assert(i.name_spec()[2] == 'E');
            assert(i.name_spec()[1] == 'N');
        },
        Instruction::CZ => {
            reveal_strlit("CZ");
            assert(i.name_spec().len() == 2);
            assert(i.name_spec()[0] == 'C');
            assert(i.name_spec()[1] == 'Z');
            assert(i.name_spec()[0] == 'C');
        },
        Instruction::CNZ => {
            reveal_strlit("CNZ");
            assert(i.name_spec().len() == 3);
            assert(i.name_spec()[0] == 'C');
            assert(i.name_spec()[2] == 'Z');
            assert(i.name_spec()[1] == 'N');
        },
        Instruction::CC => {
            reveal_strlit("CC");
            assert(i.name_spec().len() == 2);
            assert(i.name_spec()[0] == 'C');
            assert(i.name_spec()[1] == 'C');
            assert(i.name_spec()[0] == 'C');
        },
        Instruction::CNC => {
            reveal_strlit("CNC");
            assert(i.name_spec().len() == 3);
            assert(i.name_spec()[0] == 'C');
            assert(i.name_spec()[2] == 'C');
            assert(i.name_spec()[1] == 'N');
        },
        Instruction::CGR => {
            reveal_strlit("CGR");
            assert(i.name_spec().len() == 3);
            assert(i.name_spec()[0] == 'C');
            assert(i.name_spec()[2] == 'R');
            assert(i.name_spec()[1] == 'G');
        },
        Instruction::CLE => {
            reveal_strlit("CLE");
            assert(i.name_spec().len() == 3);
            assert(i.name_spec()[0] == 'C');
            assert(i.name_spec()[2] == 'E');
            assert(i.name_spec()[1] == 'L');
        },
        Instruction::CEG => {
            reveal_strlit("CEG");
            assert(i.name_spec().len() == 3);
            assert(i.name_spec()[0] == 'C');
            assert(i.name_spec()[2] == 'G');
            assert(i.name_spec()[1] == 'E');
        },
        Instruction::CEL => {
            reveal_strlit("CEL");
            assert(i.name_spec().len() == 3);
            assert(i.name_spec()[0] == 'C');
            assert(i.name_spec()[2] == 'L');
            assert(i.name_spec()[1] == 'E');
        },
        Instruction::COV => {
            reveal_strlit("COV");
            assert(i.name_spec().len() == 3);
            assert(i.name_spec()[0] == 'C');
            assert(i.name_spec()[2] == 'V');
            assert(i.name_spec()[1] == 'O');
        },
        Instruction::CNO => {
            reveal_strlit("CNO");
            assert(i.name_spec().len() == 3);
            assert(i.name_spec()[0] == 'C');
            assert(i.name_spec()[2] == 'O');
            assert(i.name_spec()[1] == 'N');
        },
        Instruction::CDZ => {
            reveal_strlit("CDZ");
            assert(i.name_spec().len() == 3);
            assert(i.name_spec()[0] == 'C');
            assert(i.name_spec()[2] == 'Z');
            assert(i.name_spec()[1] == 'D');
        },
        Instruction::CN => {
            reveal_strlit("CN");
            assert(i.name_spec().len() == 2);
            assert(i.name_spec()[0] == 'C');
            assert(i.name_spec()[1] == 'N');
            assert(i.name_spec()[0] == 'C');
        },
        Instruction::RTS => {
            reveal_strlit("RTS");
            assert(i.name_spec().len() == 3);
            assert(i.name_spec()[0] == 'R');
            assert(i.name_spec()[2] == 'S');
            assert(i.name_spec()[1] == 'T');
        },
        Instruction::RTI => {
            reveal_strlit("RTI");
            assert(i.name_spec().len() == 3);
            assert(i.name_spec()[0] == 'R');
            assert(i.name_spec()[2] == 'I');
            assert(i.name_spec()[1] == 'T');
        },
        Instruction::PUSH => {
            reveal_strlit("PUSH");
            assert(i.name_spec().len() == 4);
            assert(i.name_spec()[0] == 'P');
            assert(i.name_spec()[3] == 'H');
            assert(i.name_spec()[2] == 'S');
        },
        Instruction::POP => {
            reveal_strlit("POP");
            assert(i.name_spec().len() == 3);
            assert(i.name_spec()[0] == 'P');
            assert(i.name_spec()[2] == 'P');
            assert(i.name_spec()[1] == 'O');
        },
        Instruction::NOP => {
            reveal_strlit("NOP");
            assert(i.name_spec().len() == 3);
            assert(i.name_spec()[0] == 'N');
            assert(i.name_spec()[2] == 'P');
            assert(i.name_spec()[1] == 'O');
        },
        Instruction::HALT => {
            reveal_strlit("HALT");
            assert(i.name_spec().len() == 4);
            assert(i.name_spec()[0] == 'H');
            assert(i.name_spec()[3] == 'T');
            assert(i.name_spec()[2] == 'L');
        },
        Instruction::CLEARC => {
            reveal_strlit("CLEARC");
            assert(i.name_spec().len() == 6);
            assert(i.name_spec()[0] == 'C');
            assert(i.name_spec()[5] == 'C');
            assert(i.name_spec()[4] == 'R');
        },
        Instruction::SETC => {
            reveal_strlit("SETC");
            assert(i.name_spec().len() == 4);
            assert(i.name_spec()[0] == 'S');
            assert(i.name_spec()[3] == 'C');
            assert(i.name_spec()[2] == 'T');
        },
        Instruction::BREAKP => {
            reveal_strlit("BREAKP");
            assert(i.name_spec().len() == 6);
            assert(i.name_spec()[0] == 'B');
            assert(i.name_spec()[5] == 'P');
            assert(i.name_spec()[4] == 'K');
        },
    }
}

/// Reading back the name of an instruction gives the instruction: no two
/// instruction names are equal without ASCII case, so the name of `i` is
/// found at `i` and nowhere before it.
pub proof fn law_name_round_trip(i: Instruction)
    ensures
        lookup_name(i.name_spec()) == Some(i),
        i.name_spec().len() >= 2,
{
    lemma_name_key(i);
    lemma_index_at(i);
    assert forall|j: nat| j < i.index() implies !eq_ignore_case(
        i.name_spec(),
        #[trigger] instruction_at(j).name_spec(),
    ) by {
        lemma_at_index(j);
        let o = instruction_at(j);
        if eq_ignore_case(i.name_spec(), o.name_spec()) {
            lemma_name_key(i);
            lemma_name_key(o);
            let n = i.name_spec().len() as int;
            assert(ascii_lower(i.name_spec()[0]) == ascii_lower(o.name_spec()[0]));
            assert(ascii_lower(i.name_spec()[n - 1]) == ascii_lower(o.name_spec()[n - 1]));
            assert(ascii_lower(i.name_spec()[n - 2]) == ascii_lower(o.name_spec()[n - 2]));
        }
    }
    lemma_first_name_found(i.name_spec(), i.index(), 0);
}

/// `1` for a mask character `1`, `0` otherwise.
pub open spec fn mask_bit(c: char) -> int {
    if c == '1' {
        1
    } else {
        0
    }
}

/// `1` for a mask character that fixes its bit (not `-`), `0` otherwise.
pub open spec fn mask_fixed(c: char) -> int {
    if c == '-' {
        0
    } else {
        1
    }
}

/// The number that the first six characters of the mask `m` write in binary.
pub open spec fn mask_opcode(m: Seq<char>) -> int {
    32 * mask_bit(m[0]) + 16 * mask_bit(m[1]) + 8 * mask_bit(m[2]) + 4 * mask_bit(m[3]) + 2 * mask_bit(m[4]) + 1 * mask_bit(m[5])
}

/// The number that the last ten characters of the mask `m` write in
/// binary, a `-` read as `0`.
pub open spec fn mask_low_value(m: Seq<char>) -> int {
    512 * mask_bit(m[6]) + 256 * mask_bit(m[7]) + 128 * mask_bit(m[8]) + 64 * mask_bit(m[9]) + 32 * mask_bit(m[10]) + 16 * mask_bit(m[11]) + 8 * mask_bit(m[12]) + 4 * mask_bit(m[13]) + 2 * mask_bit(m[14]) + 1 * mask_bit(m[15])
}

/// The low ten bits that the mask `m` fixes, as a number.
pub open spec fn mask_low_fixed(m: Seq<char>) -> int {
    512 * mask_fixed(m[6]) + 256 * mask_fixed(m[7]) + 128 * mask_fixed(m[8]) + 64 * mask_fixed(m[9]) + 32 * mask_fixed(m[10]) + 16 * mask_fixed(m[11]) + 8 * mask_fixed(m[12]) + 4 * mask_fixed(m[13]) + 2 * mask_fixed(m[14]) + 1 * mask_fixed(m[15])
}

/// The encoding of every instruction is the one its mask writes: the mask
/// has sixteen characters, its first six are binary digits that write the
/// operation code, and the low ten bits a word must have (and which of them
/// are fixed) are those its last ten characters write. So a word decodes to
/// an instruction only where its bits agree with the instruction's mask.
pub proof fn law_encoding_follows_mask(i: Instruction)
    ensures
        i.mask_spec().len() == 16,
        forall|k: int| 0 <= k < 6 ==> #[trigger] i.mask_spec()[k] == '0' || i.mask_spec()[k] == '1',
        i.opcode_spec() == mask_opcode(i.mask_spec()),
        i.sub_value() == mask_low_value(i.mask_spec()),
        i.sub_care() == mask_low_fixed(i.mask_spec()),
{
    match i {
        Instruction::LOAD => {
            reveal_strlit("110000----------");
        },
        Instruction::LOADN => {
            reveal_strlit("111000----------");
        },
        Instruction::LOADI => {
            reveal_strlit("111100----------");
        },
        Instruction::STORE => {
            reveal_strlit("110001----------");
        },
        Instruction::STOREN => {
            reveal_strlit("111001----------");
        },
        Instruction::STOREI => {
            reveal_strlit("111101----------");
        },
        Instruction::MOV => {
            reveal_strlit("110011----------");
        },
        Instruction::INPUT => {
            reveal_strlit("111110----------");
        },
        Instruction::OUTPUT => {
            reveal_strlit("111111----------");
        },
        Instruction::OUTCHAR => {
            reveal_strlit("110010----------");
        },
        Instruction::INCHAR => {
            reveal_strlit("110101----------");
        },
        Instruction::SOUND => {
            reveal_strlit("110100----------");
        },
        Instruction::ADD => {
            reveal_strlit("100000---------0");
        },
        Instruction::ADDC => {
            reveal_strlit("100000---------1");
        },
        Instruction::SUB => {
            reveal_strlit("100001---------0");
        },
        Instruction::SUBC => {
            reveal_strlit("100001---------1");
        },
        Instruction::MUL => {
            reveal_strlit("100010---------0");
        },
        Instruction::DIV => {
            reveal_strlit("100011---------0");
        },
        Instruction::INC => {
            reveal_strlit("100100---0------");
        },
        Instruction::DEC => {
            reveal_strlit("100100---1------");
        },
        Instruction::MOD => {
            reveal_strlit("100101----------");
        },
        Instruction::AND => {
            reveal_strlit("010010----------");
        },
        Instruction::OR => {
            reveal_strlit("010011----------");
        },
        Instruction::XOR => {
            reveal_strlit("010100----------");
        },
        Instruction::NOT => {
            reveal_strlit("010101----------");
        },
        Instruction::SHIFTL0 => {
            reveal_strlit("010000---000----");
        },
        Instruction::SHIFTL1 => {
            reveal_strlit("010000---001----");
        },
        Instruction::SHIFTR0 => {
            reveal_strlit("010000---010----");
        },
        Instruction::SHIFTR1 => {
            reveal_strlit("010000---011----");
        },
        Instruction::ROTL => {
            reveal_strlit("010000---10-----");
        },
        Instruction::ROTR => {
            reveal_strlit("010000---11-----");
        },
        Instruction::CMP => {
            reveal_strlit("010110----------");
        },
        Instruction::JMP => {
            reveal_strlit("0000100000------");
        },
        Instruction::JEQ => {
            reveal_strlit("0000100001------");
        },
        Instruction::JNE => {
            reveal_strlit("0000100010------");
        },
        Instruction::JZ => {
            reveal_strlit("0000100011------");
        },
        Instruction::JNZ => {
            reveal_strlit("0000100100------");
        },
        Instruction::JC => {
            reveal_strlit("0000100101------");
        },
        Instruction::JNC => {
            reveal_strlit("0000100110------");
        },
        Instruction::JGR => {
            reveal_strlit("0000100111------");
        },
        Instruction::JLE => {
            reveal_strlit("0000101000------");
        },
        Instruction::JEG => {
            reveal_strlit("0000101001------");
        },
        Instruction::JEL => {
            reveal_strlit("0000101010------");
        },
        Instruction::JOV => {
            reveal_strlit("0000101011------");
        },
        Instruction::JNO => {
            reveal_strlit("0000101100------");
        },
        Instruction::JDZ => {
            reveal_strlit("0000101101------");
        },
        Instruction::JN => {
            reveal_strlit("0000101110------");
        },
        Instruction::CALL => {
            reveal_strlit("0000110000------");
        },
        Instruction::CEQ => {
            reveal_strlit("0000110001------");
        },
        Instruction::CNE => {
            reveal_strlit("0000110010------");
        },
        Instruction::CZ => {
            reveal_strlit("0000110011------");
        },
        Instruction::CNZ => {
            reveal_strlit("0000110100------");
        },
        Instruction::CC => {
            reveal_strlit("0000110101------");
        },
        Instruction::CNC => {
            reveal_strlit("0000110110------");
        },
        Instruction::CGR => {
            reveal_strlit("0000110111------");
        },
        Instruction::CLE => {
            reveal_strlit("0000111000------");
        },
        Instruction::CEG => {
            reveal_strlit("0000111001------");
        },
        Instruction::CEL => {
            reveal_strlit("0000111010------");
        },
        Instruction::COV => {
            reveal_strlit("0000111011------");
        },
        Instruction::CNO => {
            reveal_strlit("0000111100------");
        },
        Instruction::CDZ => {
            reveal_strlit("0000111101------");
        },
        Instruction::CN => {
            reveal_strlit("0000111110------");
        },
        Instruction::RTS => {
            reveal_strlit("000100---------0");
        },
        Instruction::RTI => {
            reveal_strlit("000100---------1");
        },
        Instruction::PUSH => {
            reveal_strlit("000101----------");
        },
        Instruction::POP => {
            reveal_strlit("000110----------");
        },
        Instruction::NOP => {
            reveal_strlit("000000----------");
        },
        Instruction::HALT => {
            reveal_strlit("001111----------");
        },
        Instruction::CLEARC => {
            reveal_strlit("0010000---------");
        },
        Instruction::SETC => {
            reveal_strlit("0010001---------");
        },
        Instruction::BREAKP => {
            reveal_strlit("001110----------");
        },
    }
}

/// `instruction_at` and `index` are inverse to each other.
pub proof fn lemma_index_at(i: Instruction)
    ensures
        i.index() < NUM_INSTRUCTIONS,
        instruction_at(i.index()) == i,
{
}

/// Every position below `NUM_INSTRUCTIONS` holds the instruction with that index.
pub proof fn lemma_at_index(k: nat)
    requires
        k < NUM_INSTRUCTIONS,
    ensures
        instruction_at(k).index() == k,
{
}

/// Exec form of [`window`].
fn window_of(v: usize) -> (w: usize)
    ensures
        w as nat == window(v as nat),
        w < 65536,
{
    let mut w = v;
    while w >= 65536
        invariant
            window(w as nat) == window(v as nat),
        decreases w,
    {
        w = w / 2;
    }
    w
}

/// The bits `start..=end` of `mem`.
pub fn bits_of(mem: usize, start: usize, end: usize) -> (r: usize)
    requires
        bits_in_range(start, end),
    ensures
        r == bits_spec(mem, start, end),
{
    let k: usize = end - start + 1;
    assert((1usize << k) >= 1) by (bit_vector)
        requires
            k < usize::BITS,
    ;
    let m: usize = (1usize << k) - 1;
    (mem >> start) & m
}

/// Returns the bits of `mem` in the range `r`, counted from the low bit.
///
/// ```
/// use icmc::isa::bits;
/// //  bits:   543210
/// let mem = 0b101000;
/// assert_eq!(0b101, bits(mem, 3..=5));
/// ```
pub fn bits(mem: MemoryCell, r: RangeInclusive<usize>) -> (v: MemoryCell)
    requires
        bits_in_range(r@.start, r@.end),
    ensures
        v == bits_spec(mem, r@.start, r@.end),
{
    let start = range_start(&r);
    let end = range_end(&r);
    bits_of(mem, start, end)
}

/// The first bound of `r` (`RangeInclusive::start`).
#[verifier::external_body]
fn range_start(r: &RangeInclusive<usize>) -> (s: usize)
    ensures
        s == r@.start,
{
    *r.start()
}

/// The last bound of `r` (`RangeInclusive::end`).
#[verifier::external_body]
fn range_end(r: &RangeInclusive<usize>) -> (e: usize)
    ensures
        e == r@.end,
{
    *r.end()
}

impl Instruction {
    /// The operation code of the instruction: the first six bits of its mask.
    pub fn opcode(&self) -> (c: MemoryCell)
        ensures
            c == self.opcode_spec(),
    {
        let (opc, _, _) = self.pattern();
        opc
    }

    /// The bits `r` of the mask of the instruction. Every bit in `r` must be
    /// fixed by the mask (a `-` has no value).
    pub fn bits(&self, r: RangeInclusive<usize>) -> (v: MemoryCell)
        requires
            r@.start <= r@.end < BITS_ADDRESS,
            bits_spec(self.care(), r@.start, r@.end) == low_mask((r@.end - r@.start + 1) as usize),
        ensures
            v == bits_spec(self.value(), r@.start, r@.end),
    {
        let start = range_start(&r);
        let end = range_end(&r);
        let (opc, _, sub) = self.pattern();
        let value: usize = opc * 1024 + sub;
        bits_of(value, start, end)
    }

    /// The instruction encoded in the word `value`: the first instruction, in
    /// instruction-set order, whose mask the 16-bit window of `value` matches.
    ///
    /// ```
    /// use icmc::isa::*;
    ///
    /// let mem = 0b1100001000100011; // LOAD
    /// assert_eq!(Instruction::LOAD, Instruction::get_instruction(mem).unwrap());
    /// ```
    pub fn get_instruction(value: MemoryCell) -> (r: Result<Instruction, InvalidInstruction>)
        ensures
            match r {
                Ok(i) => {
                    &&& word_matches(window(value as nat) as usize, i)
                    &&& forall|j: nat| j < i.index() ==> !word_matches(window(value as nat) as usize, #[trigger] instruction_at(j))
                },
                Err(e) => {
                    &&& forall|j: nat| j < NUM_INSTRUCTIONS ==> !word_matches(window(value as nat) as usize, #[trigger] instruction_at(j))
                    &&& e.code() == decimal(value as nat)
                },
            },
            match decode_word(value) {
                Some(i) => r == Ok::<Instruction, InvalidInstruction>(i),
                None => r is Err,
            },
    {
        let w = window_of(value);
        let mut k: usize = 0;
        while k < NUM_INSTRUCTIONS
            invariant
                k <= NUM_INSTRUCTIONS,
                w as nat == window(value as nat),
                forall|j: nat| j < k ==> !word_matches(w, #[trigger] instruction_at(j)),
            decreases NUM_INSTRUCTIONS - k,
        {
            let i = Instruction::at(k);
            let (opc, care, sub) = i.pattern();
            if w / 1024 == opc && (w & care) == sub {
                proof {
                    lemma_at_index(k as nat);
                    lemma_first_match_found(w, k as nat, 0);
                }
                return Ok(i);
            }
            k += 1;
        }
        proof {
            lemma_first_match_none(w, 0);
        }
        Err(InvalidInstruction { code: decimal_string(value) })
    }

    /// The instruction whose name is `s`, compared without ASCII case.
    pub fn from_str(s: &str) -> (r: Result<Instruction, InvalidInstruction>)
        ensures
            match r {
                Ok(i) => {
                    &&& eq_ignore_case(s@, i.name_spec())
                    &&& forall|j: nat| j < i.index() ==> !eq_ignore_case(s@, #[trigger] instruction_at(j).name_spec())
                },
                Err(e) => {
                    &&& forall|j: nat| j < NUM_INSTRUCTIONS ==> !eq_ignore_case(s@, #[trigger] instruction_at(j).name_spec())
                    &&& e.code() == s@
                },
            },
            match lookup_name(s@) {
                Some(i) => r == Ok::<Instruction, InvalidInstruction>(i),
                None => r is Err,
            },
    {
        let text = chars_of(s);
        let mut k: usize = 0;
        while k < NUM_INSTRUCTIONS
            invariant
                k <= NUM_INSTRUCTIONS,
                text@ == s@,
                forall|j: nat| j < k ==> !eq_ignore_case(s@, #[trigger] instruction_at(j).name_spec()),
            decreases NUM_INSTRUCTIONS - k,
        {
            let i = Instruction::at(k);
            let name = chars_of(i.name());
            if chars_eq_ignore_case(text.as_slice(), name.as_slice()) {
                proof {
                    lemma_at_index(k as nat);
                    lemma_first_name_found(s@, k as nat, 0);
                }
                return Ok(i);
            }
            k += 1;
        }
        proof {
            lemma_first_name_none(s@, 0);
        }
        Err(InvalidInstruction { code: crate::text::string_of(text.as_slice()) })
    }

    /// The name of the instruction, as it is displayed.
    pub fn to_string(&self) -> (s: String)
        ensures
            s@ == self.name_spec(),
    {
        String::from_str(self.name())
    }
}

} // verus!
