//! Errors of the processor.
use vstd::prelude::*;

use crate::isa::MemoryCell;
use crate::text::{decimal, decimal_string};

verus! {

/// Errors that the processor reports.
#[derive(Debug, PartialEq)]
pub enum ProcessorError {
    /// The program counter points to an area it may not execute.
    SegmentationFault { pc: MemoryCell, data_area: String },
    /// The stack pointer went above the top of the stack.
    StackOverflow(MemoryCell),
    /// The stack pointer went below the base of the stack.
    StackUnderflow(MemoryCell),
    /// An address outside the memory.
    InvalidAddress(MemoryCell),
    /// A word that encodes no instruction.
    InvalidInstruction(MemoryCell),
    /// A register that does not exist.
    InvalidRegister(MemoryCell),
    /// A flag that does not exist.
    InvalidFlag(usize),
    /// Any other error, with a title and a description.
    Generic { title: String, description: String },
}

/// [`ProcessorError`] with its texts seen as character sequences.
pub enum ProcessorErrorView {
    SegmentationFault { pc: MemoryCell, data_area: Seq<char> },
    StackOverflow(MemoryCell),
    StackUnderflow(MemoryCell),
    InvalidAddress(MemoryCell),
    InvalidInstruction(MemoryCell),
    InvalidRegister(MemoryCell),
    InvalidFlag(usize),
    Generic { title: Seq<char>, description: Seq<char> },
}

impl View for ProcessorError {
    type V = ProcessorErrorView;

    open spec fn view(&self) -> ProcessorErrorView {
        match self {
            ProcessorError::SegmentationFault { pc, data_area } => ProcessorErrorView::SegmentationFault {
                pc: *pc,
                data_area: data_area@,
            },
            ProcessorError::StackOverflow(a) => ProcessorErrorView::StackOverflow(*a),
            ProcessorError::StackUnderflow(a) => ProcessorErrorView::StackUnderflow(*a),
            ProcessorError::InvalidAddress(a) => ProcessorErrorView::InvalidAddress(*a),
            ProcessorError::InvalidInstruction(a) => ProcessorErrorView::InvalidInstruction(*a),
            ProcessorError::InvalidRegister(a) => ProcessorErrorView::InvalidRegister(*a),
            ProcessorError::InvalidFlag(a) => ProcessorErrorView::InvalidFlag(*a),
            ProcessorError::Generic { title, description } => ProcessorErrorView::Generic {
                title: title@,
                description: description@,
            },
        }
    }
}

impl ProcessorErrorView {
    /// The message of the error.
    pub open spec fn message(self) -> Seq<char> {
        match self {
            ProcessorErrorView::SegmentationFault { pc, data_area } => "O registrador PC("@
                + decimal(pc as nat) + ") tentou acessar uma área indevida: "@ + data_area,
            ProcessorErrorView::StackOverflow(a) => "O registrador SP("@ + decimal(a as nat)
                + ") ultrapassou seu limite. Área da pilha: 30690..=32738"@,
            ProcessorErrorView::StackUnderflow(a) => "O registrador SP("@ + decimal(a as nat)
                + ") ultrapassou seu limite. Área da pilha: 30690..=32738"@,
            ProcessorErrorView::InvalidAddress(a) => "Endereço inválido: "@ + decimal(a as nat),
            ProcessorErrorView::InvalidInstruction(a) => "Instrução inválida: "@ + decimal(
                a as nat,
            ),
            ProcessorErrorView::InvalidRegister(a) => "Registrador inválido: "@ + decimal(a as nat),
            ProcessorErrorView::InvalidFlag(a) => "Flag inválida: "@ + decimal(a as nat),
            ProcessorErrorView::Generic { title, description } => title + ": "@ + description,
        }
    }
}

/// `prefix` followed by `n` in decimal.
fn with_number(prefix: &str, n: usize) -> (s: String)
    ensures
        s@ == prefix@ + decimal(n as nat),
{
    let mut s = String::from_str(prefix);
    let d = decimal_string(n);
    s.append(d.as_str());
    s
}

impl ProcessorError {
    /// The message of the error, as it is displayed.
    pub fn to_string(&self) -> (s: String)
        ensures
            s@ == self@.message(),
    {
        match self {
            ProcessorError::SegmentationFault { pc, data_area } => {
                let mut s = with_number("O registrador PC(", *pc);
                s.append(") tentou acessar uma área indevida: ");
                s.append(data_area.as_str());
                s
            },
            ProcessorError::StackOverflow(a) | ProcessorError::StackUnderflow(a) => {
                let mut s = with_number("O registrador SP(", *a);
                s.append(") ultrapassou seu limite. Área da pilha: 30690..=32738");
                s
            },
            ProcessorError::InvalidAddress(a) => with_number("Endereço inválido: ", *a),
            ProcessorError::InvalidInstruction(a) => with_number("Instrução inválida: ", *a),
            ProcessorError::InvalidRegister(a) => with_number("Registrador inválido: ", *a),
            ProcessorError::InvalidFlag(a) => with_number("Flag inválida: ", *a),
            ProcessorError::Generic { title, description } => {
                let mut s = String::from_str(title.as_str());
                s.append(": ");
                s.append(description.as_str());
                s
            },
        }
    }
}

} // verus!
