//! The simulator's side of the processor: its own small processor model,
//! the data of a row of its memory view and the states of its processor
//! thread.
use vstd::prelude::*;

use crate::errors::ProcessorError;
use crate::isa::{bits, bits_spec, decode_word, Instruction, MemoryCell};
use crate::processor::bool_text;
use crate::text::{bracketed, bracketed_list, decimal, decimal_string, texts};
use crate::video::Pixelmap;

verus! {

/// Cells of memory of the simulator's processor.
pub const MEMORY_SIZE: usize = 32768;

/// Registers of the simulator's processor.
pub const NUM_REGISTERS: usize = 8;

/// The simulator's processor model.
pub struct Processor {
    pub memory: Vec<usize>,
    pub registers: [usize; NUM_REGISTERS],
    pub rx: usize,
    pub ry: usize,
    pub rz: usize,
    /// Flag register.
    pub fr: [bool; 16],
    /// Program counter.
    pub pc: usize,
    /// Instruction register.
    pub ir: usize,
    /// Stack pointer.
    pub sp: usize,
}

/// Running an instruction on the simulator's processor.
pub trait InstructionCicle {
    /// The instructions that the simulator runs.
    spec fn runs(&self) -> bool;

    /// Runs the instruction on `processor` and gives the text to print.
    fn execution(&self, processor: &mut Processor) -> (out: String)
        requires
            self.runs(),
        ensures
            *final(processor) == *old(processor),
            out@ == "Deu certo!"@,
    ;
}

impl InstructionCicle for Instruction {
    /// Only `MOV` is run (and changes nothing yet).
    open spec fn runs(&self) -> bool {
        *self == Instruction::MOV
    }

    fn execution(&self, processor: &mut Processor) -> (out: String) {
        String::from_str("Deu certo!")
    }
}

impl Processor {
    /// A processor with a zeroed memory of 32768 cells and everything else
    /// zero.
    pub fn new() -> (p: Self)
        ensures
            p.memory@ == Seq::new(MEMORY_SIZE as nat, |i: int| 0usize),
            p.registers@ == Seq::new(NUM_REGISTERS as nat, |i: int| 0usize),
            p.fr@ == Seq::new(16, |i: int| false),
            p.rx == 0 && p.ry == 0 && p.rz == 0,
            p.pc == 0 && p.ir == 0 && p.sp == 0,
    {
        let mut mem: Vec<usize> = Vec::with_capacity(MEMORY_SIZE);
        let mut k: usize = 0;
        while k < MEMORY_SIZE
            invariant
                k <= MEMORY_SIZE,
                mem@ == Seq::new(k as nat, |i: int| 0usize),
            decreases MEMORY_SIZE - k,
        {
            mem.push(0);
            k += 1;
            assert(mem@ =~= Seq::new(k as nat, |i: int| 0usize));
        }
        let p = Self {
            memory: mem,
            registers: [0; NUM_REGISTERS],
            rx: 0,
            ry: 0,
            rz: 0,
            fr: [false; 16],
            pc: 0,
            ir: 0,
            sp: 0,
        };
        assert(p.registers@ =~= Seq::new(NUM_REGISTERS as nat, |i: int| 0usize));
        assert(p.fr@ =~= Seq::new(16, |i: int| false));
        p
    }

    /// The memory cell `index`, which must lie in the memory.
    pub fn mem(&self, index: usize) -> (v: usize)
        requires
            index < self.memory@.len(),
        ensures
            v == self.memory@[index as int],
    {
        self.memory[index]
    }

    /// Stores `value` in the memory cell `index`, which must lie in the
    /// memory.
    pub fn set_mem(&mut self, index: usize, value: usize)
        requires
            index < old(self).memory@.len(),
        ensures
            *final(self) == (Processor { memory: final(self).memory, ..*old(self) }),
            final(self).memory@ == old(self).memory@.update(index as int, value),
    {
        self.memory.set(index, value);
    }

    /// The register `index`, one of the eight.
    pub fn reg(&self, index: usize) -> (v: usize)
        requires
            index < NUM_REGISTERS,
        ensures
            v == self.registers@[index as int],
    {
        self.registers[index]
    }

    /// Stores `value` in the register `index`, one of the eight.
    pub fn set_reg(&mut self, index: usize, value: usize)
        requires
            index < NUM_REGISTERS,
        ensures
            *final(self) == (Processor { registers: final(self).registers, ..*old(self) }),
            final(self).registers@ == old(self).registers@.update(index as int, value),
    {
        self.registers[index] = value;
    }

    /// Fetches the word at the program counter into the instruction
    /// register and advances the program counter.
    fn search_cicle(&mut self)
        requires
            old(self).pc < old(self).memory@.len(),
        ensures
            *final(self) == (Processor {
                ir: old(self).memory@[old(self).pc as int],
                pc: (old(self).pc + 1) as usize,
                ..*old(self)
            }),
    {
        let _len = self.memory.len();
        self.ir = self.memory[self.pc];
        self.pc += 1;
    }

    /// Decodes the register fields of the instruction register and runs the
    /// instruction it holds, giving what it prints.
    fn execution_cicle(&mut self) -> (out: String)
        requires
            decode_word(old(self).ir) == Some(Instruction::MOV),
        ensures
            *final(self) == (Processor {
                rx: bits_spec(old(self).ir, 7, 9),
                ry: bits_spec(old(self).ir, 4, 6),
                rz: bits_spec(old(self).ir, 1, 3),
                ..*old(self)
            }),
            out@ == "Deu certo!"@,
    {
        self.rx = bits(self.ir, 7..=9);
        self.ry = bits(self.ir, 4..=6);
        self.rz = bits(self.ir, 1..=3);
        match Instruction::get_instruction(self.ir) {
            Ok(instruction) => instruction.execution(self),
            Err(_) => String::new(),
        }
    }

    /// One step: fetch and run the instruction at the program counter,
    /// giving what it prints. Only `MOV` runs yet, and the program counter
    /// must lie in the memory.
    pub fn next(&mut self) -> (out: String)
        requires
            old(self).pc < old(self).memory@.len(),
            decode_word(old(self).memory@[old(self).pc as int]) == Some(Instruction::MOV),
        ensures
            ({
                let w = old(self).memory@[old(self).pc as int];
                *final(self) == (Processor {
                    ir: w,
                    pc: (old(self).pc + 1) as usize,
                    rx: bits_spec(w, 7, 9),
                    ry: bits_spec(w, 4, 6),
                    rz: bits_spec(w, 1, 3),
                    ..*old(self)
                })
            }),
            out@ == "Deu certo!"@,
    {
        self.search_cicle();
        self.execution_cicle()
    }

    /// The registers `R0` to `R7`, then the program counter, the stack
    /// pointer and the instruction register.
    pub fn info(&self) -> (r: (usize, usize, usize, usize, usize, usize, usize, usize, usize, usize, usize))
        ensures
            r == (
                self.registers@[0],
                self.registers@[1],
                self.registers@[2],
                self.registers@[3],
                self.registers@[4],
                self.registers@[5],
                self.registers@[6],
                self.registers@[7],
                self.pc,
                self.sp,
                self.ir,
            ),
    {
        (
            self.registers[0],
            self.registers[1],
            self.registers[2],
            self.registers[3],
            self.registers[4],
            self.registers[5],
            self.registers[6],
            self.registers[7],
            self.pc,
            self.sp,
            self.ir,
        )
    }
}

/// How the simulator's processor is displayed: its registers and flags as
/// lists, then `IR`, `SP` and `PC` in decimal.
pub open spec fn sim_processor_text(p: Processor) -> Seq<char> {
    "[Registers "@ + bracketed(p.registers@.map_values(|r: usize| decimal(r as nat)))
        + "] [FR "@ + bracketed(p.fr@.map_values(|b: bool| bool_text(b))) + "] [IR "@
        + decimal(p.ir as nat) + "] [SP "@ + decimal(p.sp as nat) + "] [PC "@ + decimal(
        p.pc as nat,
    ) + "]"@
}

impl Processor {
    /// The processor as it is displayed (see [`sim_processor_text`]).
    pub fn to_string(&self) -> (t: String)
        ensures
            t@ == sim_processor_text(*self),
    {
        let mut regs: Vec<String> = Vec::new();
        let mut k: usize = 0;
        while k < NUM_REGISTERS
            invariant
                k <= NUM_REGISTERS,
                regs@.len() == k,
                forall|j: int| 0 <= j < k ==> #[trigger] regs@[j]@ == decimal(
                    self.registers@[j] as nat,
                ),
            decreases NUM_REGISTERS - k,
        {
            regs.push(decimal_string(self.registers[k]));
            k += 1;
        }
        assert(texts(regs@) =~= self.registers@.map_values(|r: usize| decimal(r as nat)));
        let mut flags: Vec<String> = Vec::new();
        let mut f: usize = 0;
        while f < 16
            invariant
                f <= 16,
                flags@.len() == f,
                forall|j: int| 0 <= j < f ==> #[trigger] flags@[j]@ == bool_text(self.fr@[j]),
            decreases 16 - f,
        {
            flags.push(
                if self.fr[f] {
                    String::from_str("true")
                } else {
                    String::from_str("false")
                },
            );
            f += 1;
        }
        assert(texts(flags@) =~= self.fr@.map_values(|b: bool| bool_text(b)));
        let mut t = String::from_str("[Registers ");
        let r = bracketed_list(&regs);
        t.append(r.as_str());
        t.append("] [FR ");
        let fl = bracketed_list(&flags);
        t.append(fl.as_str());
        t.append("] [IR ");
        let ir = decimal_string(self.ir);
        t.append(ir.as_str());
        t.append("] [SP ");
        let sp = decimal_string(self.sp);
        t.append(sp.as_str());
        t.append("] [PC ");
        let pc = decimal_string(self.pc);
        t.append(pc.as_str());
        t.append("]");
        t
    }
}

/// The data of a row of the memory view.
#[derive(Default)]
pub struct MemData {
    pub addr: String,
    pub faddr: String,
    pub inst: String,
    pub raw: String,
    pub float: Option<String>,
    pub visible: bool,
}

/// The state of the simulator's processor thread.
#[derive(Debug, Clone, Copy, PartialEq, Eq, Structural)]
pub enum State {
    /// Waits for a new state before each step.
    Stopped,
    /// Runs one step, then stops.
    Debug,
    /// Runs step after step.
    Running,
}

impl State {
    /// Whether the thread waits for a message before its next step.
    pub fn waits(&self) -> (b: bool)
        ensures
            b == (*self == State::Stopped),
    {
        *self == State::Stopped
    }

    /// The state in which the next step runs, given the message received
    /// when waiting (`None` when the channel is closed, which ends the
    /// thread): a stopped thread takes the state received, a debugging one
    /// stops after this step, a running one keeps running.
    pub fn transition(self, received: Option<State>) -> (next: Option<State>)
        ensures
            next == (match self {
                State::Stopped => received,
                State::Debug => Some(State::Stopped),
                State::Running => Some(State::Running),
            }),
    {
        match self {
            State::Stopped => received,
            State::Debug => Some(State::Stopped),
            State::Running => Some(State::Running),
        }
    }
}

/// How the processor of the simulator runs: step after step, or one step
/// at a time.
#[derive(Debug, Clone, Copy, PartialEq, Eq, Structural)]
pub enum RunMode {
    Run,
    Debug,
}

impl Default for RunMode {
    fn default() -> (m: Self)
        ensures
            m == RunMode::Debug,
    {
        RunMode::Debug
    }
}

/// A message from the processor thread to the interface.
pub enum Notice {
    /// Redraw the registers and the memory view.
    UpdateUI,
    /// Draw the character written at a position of the screen.
    UpdateScreen(Pixelmap, usize),
    /// The step failed.
    Error(ProcessorError),
}

/// The mode in which the next step runs, taken from the mode asked for:
/// `Run` stays, `Debug` is used up (the next turn waits for a new mode), and
/// with no mode no step runs.
pub fn take_mode(mode: &mut Option<RunMode>) -> (ran: Option<RunMode>)
    ensures
        ran == *old(mode),
        *final(mode) == (match *old(mode) {
            Some(RunMode::Run) => Some(RunMode::Run),
            _ => None,
        }),
{
    match *mode {
        Some(RunMode::Run) => Some(RunMode::Run),
        Some(RunMode::Debug) => {
            *mode = None;
            Some(RunMode::Debug)
        },
        None => None,
    }
}

/// The messages after a step that ran in mode `ran` with result `step`,
/// `written` being the character the processor last wrote: a failed step
/// sends its error (and the thread stops); otherwise a debugging step asks
/// for the interface to be redrawn, and a written character is drawn.
pub fn step_notices(
    ran: RunMode,
    step: Result<(), ProcessorError>,
    written: Option<(Pixelmap, usize)>,
) -> (notices: Vec<Notice>)
    ensures
        match step {
            Err(e) => notices@.len() == 1 && (notices@[0] matches Notice::Error(f) && f@ == e@),
            Ok(_) => {
                let n: int = if ran == RunMode::Debug { 1 } else { 0 };
                &&& notices@.len() == n + (if written is Some { 1int } else { 0int })
                &&& ran == RunMode::Debug ==> notices@[0] is UpdateUI
                &&& written matches Some((m, i)) ==> notices@[n] == Notice::UpdateScreen(m, i)
            },
        },
{
    let mut notices: Vec<Notice> = Vec::new();
    match step {
        Err(e) => {
            notices.push(Notice::Error(e));
        },
        Ok(_) => {
            if ran == RunMode::Debug {
                notices.push(Notice::UpdateUI);
            }
            match written {
                Some((m, i)) => notices.push(Notice::UpdateScreen(m, i)),
                None => {},
            }
        },
    }
    notices
}

} // verus!
