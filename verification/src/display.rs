//! How the simulator shows an instruction held in memory: its name as a
//! link to its documentation, followed by its operands.
use vstd::prelude::*;

use crate::isa::{bits, bits_spec, Instruction, MemoryCell};
use crate::processor::{Processor, ProcessorView};
use crate::text::{decimal, decimal_string};

verus! {

/// The register field `x` of an instruction word (bits 7 to 9).
pub fn rx(mem: MemoryCell) -> (r: MemoryCell)
    ensures
        r == bits_spec(mem, 7, 9),
{
    bits(mem, 7..=9)
}

/// The register field `y` of an instruction word (bits 4 to 6).
pub fn ry(mem: MemoryCell) -> (r: MemoryCell)
    ensures
        r == bits_spec(mem, 4, 6),
{
    bits(mem, 4..=6)
}

/// The register field `z` of an instruction word (bits 1 to 3).
pub fn rz(mem: MemoryCell) -> (r: MemoryCell)
    ensures
        r == bits_spec(mem, 1, 3),
{
    bits(mem, 1..=3)
}

/// The shape of the operands that an instruction shows.
#[derive(Debug, Clone, Copy, PartialEq, Eq, Structural)]
pub enum Form {
    /// `Rx, addr` with the address in the next word.
    Load,
    /// `Rx, #value` with the value in the next word.
    LoadN,
    /// `Rx, Ry`.
    TwoRegisters,
    /// `addr, Rx` with the address in the next word.
    Store,
    /// `addr, #value` in the next two words.
    StoreN,
    /// `Rx Ry`, `Rx SP` or `SP Rx`, by the two low bits.
    Mov,
    /// `Rx, Ry, Rz`.
    ThreeRegisters,
    /// `Rx`.
    OneRegister,
    /// `Rx, n` with `n` the four low bits.
    RegisterAndBits,
    /// The address in the next word.
    Address,
    /// Nothing.
    Bare,
    /// `Rx`, or `FR` when bit 6 is set.
    Stack,
    /// Not shown (input, output and sound instructions).
    Unsupported,
}

/// The form of the operands of `i`.
pub open spec fn form_of(i: Instruction) -> Form {
    match i {
        Instruction::LOAD => Form::Load,
        Instruction::LOADN => Form::LoadN,
        Instruction::LOADI | Instruction::STOREI | Instruction::OUTCHAR | Instruction::NOT | Instruction::CMP => Form::TwoRegisters,
        Instruction::STORE => Form::Store,
        Instruction::STOREN => Form::StoreN,
        Instruction::MOV => Form::Mov,
        Instruction::ADD | Instruction::ADDC | Instruction::SUB | Instruction::SUBC | Instruction::MUL | Instruction::DIV | Instruction::MOD | Instruction::AND | Instruction::OR | Instruction::XOR => Form::ThreeRegisters,
        Instruction::INC | Instruction::DEC => Form::OneRegister,
        Instruction::SHIFTL0 | Instruction::SHIFTL1 | Instruction::SHIFTR0 | Instruction::SHIFTR1 | Instruction::ROTL | Instruction::ROTR => Form::RegisterAndBits,
        Instruction::JMP | Instruction::JEQ | Instruction::JNE | Instruction::JZ | Instruction::JNZ | Instruction::JC | Instruction::JNC | Instruction::JGR | Instruction::JLE | Instruction::JEG | Instruction::JEL | Instruction::JOV | Instruction::JNO | Instruction::JDZ | Instruction::JN | Instruction::CALL | Instruction::CEQ | Instruction::CNE | Instruction::CZ | Instruction::CNZ | Instruction::CC | Instruction::CNC | Instruction::CGR | Instruction::CLE | Instruction::CEG | Instruction::CEL | Instruction::COV | Instruction::CNO | Instruction::CDZ | Instruction::CN => Form::Address,
        Instruction::RTS | Instruction::RTI | Instruction::NOP | Instruction::HALT | Instruction::CLEARC | Instruction::SETC | Instruction::BREAKP => Form::Bare,
        Instruction::PUSH | Instruction::POP => Form::Stack,
        Instruction::INPUT | Instruction::OUTPUT | Instruction::INCHAR | Instruction::SOUND => Form::Unsupported,
    }
}

/// `name` as a bold HTML link to its entry in the documentation.
pub open spec fn link_text(name: Seq<char>) -> Seq<char> {
    "<a href=\""@ + "https://lucasstapf.github.io/Processador-ICMC-Rust-Doc/isa/enum.Instruction.html#variant."@ + name + "\"><b>"@ + name + "</b></a>"@
}

/// `n` in decimal.
pub open spec fn dec(n: usize) -> Seq<char> {
    decimal(n as nat)
}

/// The operands of form `f`, for the instruction word `w` followed by the
/// words `n1` and `n2`.
pub open spec fn operand_text(f: Form, w: usize, n1: usize, n2: usize) -> Seq<char> {
    let x = dec(bits_spec(w, 7, 9));
    let y = dec(bits_spec(w, 4, 6));
    let z = dec(bits_spec(w, 1, 3));
    match f {
        Form::Load => " R"@ + x + ", "@ + dec(n1),
        Form::LoadN => " R"@ + x + ", <i>#"@ + dec(n1) + "</i>"@,
        Form::TwoRegisters => " R"@ + x + ", R"@ + y,
        Form::Store => " "@ + dec(n1) + ", R"@ + x,
        Form::StoreN => " "@ + dec(n1) + ", #"@ + dec(n2),
        Form::Mov => if bits_spec(w, 0, 1) == 0 {
            " R"@ + x + " R"@ + y
        } else if bits_spec(w, 0, 1) == 1 {
            " R"@ + x + " SP"@
        } else {
            " SP R"@ + x
        },
        Form::ThreeRegisters => " R"@ + x + ", R"@ + y + ", R"@ + z,
        Form::OneRegister => " R"@ + x,
        Form::RegisterAndBits => " R"@ + x + ", "@ + dec(bits_spec(w, 0, 3)),
        Form::Address => " "@ + dec(n1),
        Form::Bare => Seq::empty(),
        Form::Stack => if bits_spec(w, 6, 6) == 0 {
            " R"@ + x
        } else {
            " FR"@
        },
        Form::Unsupported => Seq::empty(),
    }
}

/// How many words after the instruction word form `f` reads.
pub open spec fn words_read(f: Form) -> nat {
    match f {
        Form::Load | Form::LoadN | Form::Store | Form::Address => 1,
        Form::StoreN => 2,
        _ => 0,
    }
}

/// What the memory view shows for the instruction `i` at `addr`: its name
/// as a link, then its operands read from the word `w` at `addr` and the
/// words after it, with `Rx`, `Ry` and `Rz` the fields at bits 7..=9, 4..=6
/// and 1..=3 of `w`: `Rx, Ry` for `LOADI`, `STOREI`, `OUTCHAR`, `NOT` and
/// `CMP`; `Rx, Ry, Rz` for the arithmetic and logic instructions; `Rx` for
/// `INC` and `DEC`; `Rx, N` (N the four low bits) for shifts and rotations;
/// `Rx, END` for `LOAD`, `Rx, #NR` for `LOADN`, `END, Rx` for `STORE`,
/// `END, #NR` for `STOREN`; the address for jumps and calls; `Rx Ry`,
/// `Rx SP` or `SP Rx` for `MOV` by its two low bits; `Rx` or `FR` for `PUSH`
/// and `POP` by bit 6; nothing for the others.
pub proof fn law_display_text(i: Instruction, addr: MemoryCell, p: ProcessorView)
    requires
        i.shows(addr, p),
    ensures
        ({
            let w = p.ram[addr as int];
            let n1 = decimal(p.ram[addr + 1] as nat);
            let n2 = decimal(p.ram[addr + 2] as nat);
            let x = decimal(bits_spec(w, 7, 9) as nat);
            let y = decimal(bits_spec(w, 4, 6) as nat);
            let z = decimal(bits_spec(w, 1, 3) as nat);
            let head = link_text(i.name_spec());
            let t = i.text(addr, p);
            &&& (i == Instruction::LOADI || i == Instruction::STOREI || i == Instruction::OUTCHAR || i == Instruction::NOT || i == Instruction::CMP) ==> t == head + " R"@ + x + ", R"@ + y
            &&& (i == Instruction::ADD || i == Instruction::ADDC || i == Instruction::SUB || i == Instruction::SUBC || i == Instruction::MUL || i == Instruction::DIV || i == Instruction::MOD || i == Instruction::AND || i == Instruction::OR || i == Instruction::XOR) ==> t == head + " R"@ + x
                + ", R"@ + y + ", R"@ + z
            &&& (i == Instruction::INC || i == Instruction::DEC) ==> t == head + " R"@ + x
            &&& (i == Instruction::SHIFTL0 || i == Instruction::SHIFTL1 || i == Instruction::SHIFTR0 || i == Instruction::SHIFTR1 || i == Instruction::ROTL || i == Instruction::ROTR) ==> t == head + " R"@ + x + ", "@
                + decimal(bits_spec(w, 0, 3) as nat)
            &&& i == Instruction::LOAD ==> t == head + " R"@ + x + ", "@ + n1
            &&& i == Instruction::LOADN ==> t == head + " R"@ + x + ", <i>#"@ + n1 + "</i>"@
            &&& i == Instruction::STORE ==> t == head + " "@ + n1 + ", R"@ + x
            &&& i == Instruction::STOREN ==> t == head + " "@ + n1 + ", #"@ + n2
            &&& (i == Instruction::JMP || i == Instruction::JEQ || i == Instruction::JNE || i == Instruction::JZ || i == Instruction::JNZ || i == Instruction::JC || i == Instruction::JNC || i == Instruction::JGR || i == Instruction::JLE || i == Instruction::JEG || i == Instruction::JEL || i == Instruction::JOV || i == Instruction::JNO || i == Instruction::JDZ || i == Instruction::JN || i == Instruction::CALL || i == Instruction::CEQ || i == Instruction::CNE || i == Instruction::CZ || i == Instruction::CNZ || i == Instruction::CC || i == Instruction::CNC || i == Instruction::CGR || i == Instruction::CLE || i == Instruction::CEG || i == Instruction::CEL || i == Instruction::COV || i == Instruction::CNO || i == Instruction::CDZ || i == Instruction::CN) ==> t == head + " "@ + n1
            &&& i == Instruction::MOV ==> t == head + (if bits_spec(w, 0, 1) == 0 {
                " R"@ + x + " R"@ + y
            } else if bits_spec(w, 0, 1) == 1 {
                " R"@ + x + " SP"@
            } else {
                " SP R"@ + x
            })
            &&& (i == Instruction::PUSH || i == Instruction::POP) ==> t == head + (if bits_spec(w, 6, 6) == 0 {
                " R"@ + x
            } else {
                " FR"@
            })
            &&& (i == Instruction::RTS || i == Instruction::RTI || i == Instruction::NOP || i == Instruction::HALT || i == Instruction::CLEARC || i == Instruction::SETC || i == Instruction::BREAKP) ==> t == head
        }),
{
    let t = i.text(addr, p);
    let head = link_text(i.name_spec());
    assert(head + Seq::<char>::empty() =~= head);
}

/// Showing an instruction of the simulator's memory view.
pub trait InstructionDisplay {
    /// Showing the instruction at `addr` of `p` does not panic.
    spec fn shows(&self, addr: MemoryCell, p: ProcessorView) -> bool;

    /// The text shown for the instruction at `addr` of `p`.
    spec fn text(&self, addr: MemoryCell, p: ProcessorView) -> Seq<char>;

    /// Shows the instruction stored at `addr` of `processor`.
    fn display(&self, addr: MemoryCell, processor: &Processor) -> (s: String)
        requires
            self.shows(addr, processor@),
        ensures
            s@ == self.text(addr, processor@),
    ;
}

/// `name` as a bold HTML link to its documentation (see [`link_text`]).
fn link_string(name: &str) -> (s: String)
    ensures
        s@ == link_text(name@),
{
    let mut s = String::from_str("<a href=\"");
    s.append("https://lucasstapf.github.io/Processador-ICMC-Rust-Doc/isa/enum.Instruction.html#variant.");
    s.append(name);
    s.append("\"><b>");
    s.append(name);
    s.append("</b></a>");
    s
}

/// Appends `n` in decimal to `s`.
fn push_decimal(s: &mut String, n: usize)
    ensures
        final(s)@ == old(s)@ + dec(n),
{
    let d = decimal_string(n);
    s.append(d.as_str());
}

/// The word at `a` of the memory of `p`, which holds it.
fn word_at(p: &Processor, a: MemoryCell) -> (w: MemoryCell)
    requires
        a < p@.ram.len(),
    ensures
        w == p@.ram[a as int],
{
    match p.mem(a) {
        Ok(w) => w,
        Err(_) => 0,
    }
}

/// Exec form of [`operand_text`].
fn operands(f: Form, w: usize, n1: usize, n2: usize) -> (s: String)
    ensures
        s@ == operand_text(f, w, n1, n2),
{
    let mut s = String::new();
    match f {
        Form::Load => {
            s.append(" R");
            push_decimal(&mut s, rx(w));
            s.append(", ");
            push_decimal(&mut s, n1);
        },
        Form::LoadN => {
            s.append(" R");
            push_decimal(&mut s, rx(w));
            s.append(", <i>#");
            push_decimal(&mut s, n1);
            s.append("</i>");
        },
        Form::TwoRegisters => {
            s.append(" R");
            push_decimal(&mut s, rx(w));
            s.append(", R");
            push_decimal(&mut s, ry(w));
        },
        Form::Store => {
            s.append(" ");
            push_decimal(&mut s, n1);
            s.append(", R");
            push_decimal(&mut s, rx(w));
        },
        Form::StoreN => {
            s.append(" ");
            push_decimal(&mut s, n1);
            s.append(", #");
            push_decimal(&mut s, n2);
        },
        Form::Mov => {
            let m = bits(w, 0..=1);
            if m == 0 {
                s.append(" R");
                push_decimal(&mut s, rx(w));
                s.append(" R");
                push_decimal(&mut s, ry(w));
            } else if m == 1 {
                s.append(" R");
                push_decimal(&mut s, rx(w));
                s.append(" SP");
            } else {
                s.append(" SP R");
                push_decimal(&mut s, rx(w));
            }
        },
        Form::ThreeRegisters => {
            s.append(" R");
            push_decimal(&mut s, rx(w));
            s.append(", R");
            push_decimal(&mut s, ry(w));
            s.append(", R");
            push_decimal(&mut s, rz(w));
        },
        Form::OneRegister => {
            s.append(" R");
            push_decimal(&mut s, rx(w));
        },
        Form::RegisterAndBits => {
            s.append(" R");
            push_decimal(&mut s, rx(w));
            s.append(", ");
            push_decimal(&mut s, bits(w, 0..=3));
        },
        Form::Address => {
            s.append(" ");
            push_decimal(&mut s, n1);
        },
        Form::Bare => {},
        Form::Stack => {
            if bits(w, 6..=6) == 0 {
                s.append(" R");
                push_decimal(&mut s, rx(w));
            } else {
                s.append(" FR");
            }
        },
        Form::Unsupported => {},
    }
    assert(s@ =~= operand_text(f, w, n1, n2));
    s
}

/// Exec form of [`form_of`].
fn form(i: Instruction) -> (f: Form)
    ensures
        f == form_of(i),
{
    match i {
        Instruction::LOAD => Form::Load,
        Instruction::LOADN => Form::LoadN,
        Instruction::LOADI | Instruction::STOREI | Instruction::OUTCHAR | Instruction::NOT | Instruction::CMP => Form::TwoRegisters,
        Instruction::STORE => Form::Store,
        Instruction::STOREN => Form::StoreN,
        Instruction::MOV => Form::Mov,
        Instruction::ADD | Instruction::ADDC | Instruction::SUB | Instruction::SUBC | Instruction::MUL | Instruction::DIV | Instruction::MOD | Instruction::AND | Instruction::OR | Instruction::XOR => Form::ThreeRegisters,
        Instruction::INC | Instruction::DEC => Form::OneRegister,
        Instruction::SHIFTL0 | Instruction::SHIFTL1 | Instruction::SHIFTR0 | Instruction::SHIFTR1 | Instruction::ROTL | Instruction::ROTR => Form::RegisterAndBits,
        Instruction::JMP | Instruction::JEQ | Instruction::JNE | Instruction::JZ | Instruction::JNZ | Instruction::JC | Instruction::JNC | Instruction::JGR | Instruction::JLE | Instruction::JEG | Instruction::JEL | Instruction::JOV | Instruction::JNO | Instruction::JDZ | Instruction::JN | Instruction::CALL | Instruction::CEQ | Instruction::CNE | Instruction::CZ | Instruction::CNZ | Instruction::CC | Instruction::CNC | Instruction::CGR | Instruction::CLE | Instruction::CEG | Instruction::CEL | Instruction::COV | Instruction::CNO | Instruction::CDZ | Instruction::CN => Form::Address,
        Instruction::RTS | Instruction::RTI | Instruction::NOP | Instruction::HALT | Instruction::CLEARC | Instruction::SETC | Instruction::BREAKP => Form::Bare,
        Instruction::PUSH | Instruction::POP => Form::Stack,
        Instruction::INPUT | Instruction::OUTPUT | Instruction::INCHAR | Instruction::SOUND => Form::Unsupported,
    }
}

impl InstructionDisplay for Instruction {
    /// The instruction is shown (not an input, output or sound one) and its
    /// word, with the words its operands read, lies in memory.
    open spec fn shows(&self, addr: MemoryCell, p: ProcessorView) -> bool {
        &&& p.wf()
        &&& form_of(*self) != Form::Unsupported
        &&& addr + words_read(form_of(*self)) < p.ram.len()
    }

    /// The link of the instruction's name followed by the operands of
    /// [`form_of`].
    open spec fn text(&self, addr: MemoryCell, p: ProcessorView) -> Seq<char> {
        let w = p.ram[addr as int];
        let n1 = p.ram[addr + 1];
        let n2 = p.ram[addr + 2];
        link_text(self.name_spec()) + operand_text(form_of(*self), w, n1, n2)
    }

    fn display(&self, addr: MemoryCell, processor: &Processor) -> (s: String) {
        let f = form(*self);
        let mut s = link_string(self.name());
        let w = word_at(processor, addr);
        let n1 = if words_read_exec(f) >= 1 {
            word_at(processor, addr + 1)
        } else {
            0
        };
        let n2 = if words_read_exec(f) >= 2 {
            word_at(processor, addr + 2)
        } else {
            0
        };
        let ops = operands(f, w, n1, n2);
        s.append(ops.as_str());
        assert(operand_text(f, w, n1, n2) == operand_text(
            f,
            w,
            processor@.ram[addr + 1],
            processor@.ram[addr + 2],
        ));
        s
    }
}

/// Exec form of [`words_read`].
fn words_read_exec(f: Form) -> (n: usize)
    ensures
        n == words_read(f),
{
    match f {
        Form::Load | Form::LoadN | Form::Store | Form::Address => 1,
        Form::StoreN => 2,
        _ => 0,
    }
}

} // verus!
