//! The ICMC processor: memory, video memory, registers, the special
//! registers (PC, SP, IR, FR) and the instruction cycle.
use vstd::prelude::*;

use crate::errors::{ProcessorError, ProcessorErrorView};
use crate::isa::{bits_of, bits_spec, decode_word, FlagIndex, Instruction, MemoryCell};
use crate::layout::{
    data_area, data_area_spec, ADDR_PROG_AND_VAR_END, ADDR_PROG_AND_VAR_START, ADDR_STACK_END,
    ADDR_STACK_START,
};
use crate::text::{
    bracketed, bracketed_list, decimal, decimal_string, hex_lower, hex_lower_chars, pad_zeros,
    string_of, texts, zero_padded,
};
use crate::video::Pixelmap;

verus! {

/// Size of the processor memory: the number of addresses available.
pub const MEMORY_SIZE: usize = 32768;

/// Size of the video memory of the processor (30 x 40 cells of 8 x 8 RGBA pixels).
pub const VRAM_SIZE: usize = 307200;

/// Number of general purpose registers.
pub const NUM_REGISTERS: usize = 8;

/// Number of bits of the *flag register*.
pub const NUM_FLAGS: usize = 16;

/// State of execution of the processor.
#[derive(Clone, Copy, Debug, PartialEq, Eq, Structural)]
pub enum ProcessorStatus {
    Running,
    Debug,
    Halted,
}

/// The ICMC processor.
pub struct Processor {
    ram: Vec<usize>,
    vram: Vec<usize>,
    registers: Vec<usize>,
    rx: usize,
    ry: usize,
    rz: usize,
    // Flag Register
    fr: Vec<bool>,
    // Program Counter
    pc: usize,
    // Instruction Register
    ir: usize,
    // Stack Pointer
    sp: usize,
    status: ProcessorStatus,
    // Character written by the last `OUTCHAR`, with its screen position.
    written: Option<(Pixelmap, usize)>,
}

/// The state of a [`Processor`].
#[verifier::ext_equal]
pub struct ProcessorView {
    pub ram: Seq<usize>,
    pub vram: Seq<usize>,
    pub registers: Seq<usize>,
    pub rx: usize,
    pub ry: usize,
    pub rz: usize,
    pub fr: Seq<bool>,
    pub pc: usize,
    pub ir: usize,
    pub sp: usize,
    pub status: ProcessorStatus,
    pub written: Option<(Pixelmap, usize)>,
}

/// The state after a step of the processor and what the step returned.
pub type Step = (ProcessorView, Result<(), ProcessorErrorView>);

/// The error of `r` seen through its view.
pub open spec fn res_view<T>(r: Result<T, ProcessorError>) -> Result<T, ProcessorErrorView> {
    match r {
        Ok(v) => Ok(v),
        Err(e) => Err(e@),
    }
}

impl View for Processor {
    type V = ProcessorView;

    closed spec fn view(&self) -> ProcessorView {
        ProcessorView {
            ram: self.ram@,
            vram: self.vram@,
            registers: self.registers@,
            rx: self.rx,
            ry: self.ry,
            rz: self.rz,
            fr: self.fr@,
            pc: self.pc,
            ir: self.ir,
            sp: self.sp,
            status: self.status,
            written: self.written,
        }
    }
}

/// The flags that an arithmetic or logic operation clears.
pub open spec fn is_ula_flag(i: int) -> bool {
    i == FlagIndex::GREATER || i == FlagIndex::LESSER || i == FlagIndex::EQUAL || i
        == FlagIndex::ZERO || i == FlagIndex::CARRY || i == FlagIndex::ARITHMETIC_OVERFLOW || i
        == FlagIndex::DIV_BY_ZERO || i == FlagIndex::NEGATIVE
}

impl ProcessorView {
    /// The sizes that every processor keeps: eight registers, sixteen flags,
    /// a video memory of [`VRAM_SIZE`] cells, and register fields `RX`, `RY`
    /// and `RZ` that name registers.
    pub open spec fn wf(self) -> bool {
        &&& self.registers.len() == NUM_REGISTERS
        &&& self.fr.len() == NUM_FLAGS
        &&& self.vram.len() == VRAM_SIZE
        &&& self.rx < NUM_REGISTERS
        &&& self.ry < NUM_REGISTERS
        &&& self.rz < NUM_REGISTERS
        &&& self.ram.len() <= usize::MAX
    }

    /// What reading address `a` of the memory gives.
    pub open spec fn read_mem(self, a: usize) -> Result<usize, ProcessorErrorView> {
        if a < self.ram.len() {
            Ok(self.ram[a as int])
        } else {
            Err(ProcessorErrorView::InvalidAddress(a))
        }
    }

    /// Writing `v` at address `a` of the memory.
    pub open spec fn write_mem(self, a: usize, v: usize) -> Step {
        if a < self.ram.len() {
            (ProcessorView { ram: self.ram.update(a as int, v), ..self }, Ok(()))
        } else {
            (self, Err(ProcessorErrorView::InvalidAddress(a)))
        }
    }

    /// What reading register `n` gives.
    pub open spec fn read_reg(self, n: usize) -> Result<usize, ProcessorErrorView> {
        if n < self.registers.len() {
            Ok(self.registers[n as int])
        } else {
            Err(ProcessorErrorView::InvalidRegister(n))
        }
    }

    /// Writing `v` to register `n`.
    pub open spec fn write_reg(self, n: usize, v: usize) -> Step {
        if n < self.registers.len() {
            (ProcessorView { registers: self.registers.update(n as int, v), ..self }, Ok(()))
        } else {
            (self, Err(ProcessorErrorView::InvalidRegister(n)))
        }
    }

    /// What reading flag `i` gives.
    pub open spec fn read_flag(self, i: usize) -> Result<bool, ProcessorErrorView> {
        if i < self.fr.len() {
            Ok(self.fr[i as int])
        } else {
            Err(ProcessorErrorView::InvalidFlag(i))
        }
    }

    /// Writing `b` to flag `i`.
    pub open spec fn write_flag(self, i: usize, b: bool) -> Step {
        if i < self.fr.len() {
            (ProcessorView { fr: self.fr.update(i as int, b), ..self }, Ok(()))
        } else {
            (self, Err(ProcessorErrorView::InvalidFlag(i)))
        }
    }

    /// The state with flag `i` (a valid flag) set to `b`.
    pub open spec fn with_flag(self, i: usize, b: bool) -> ProcessorView {
        ProcessorView { fr: self.fr.update(i as int, b), ..self }
    }

    /// The state with register `n` (a valid register) set to `v`.
    pub open spec fn with_reg(self, n: usize, v: usize) -> ProcessorView {
        ProcessorView { registers: self.registers.update(n as int, v), ..self }
    }

    /// Setting the stack pointer to `a`: the pointer always takes the value;
    /// the result tells whether it lies in the stack.
    pub open spec fn write_sp(self, a: usize) -> Step {
        let s = ProcessorView { sp: a, ..self };
        if ADDR_STACK_START <= a <= ADDR_STACK_END {
            (s, Ok(()))
        } else if a < ADDR_STACK_START {
            (s, Err(ProcessorErrorView::StackOverflow(a)))
        } else {
            (s, Err(ProcessorErrorView::StackUnderflow(a)))
        }
    }

    /// Decrementing the stack pointer by `v`.
    pub open spec fn dec_sp_by(self, v: usize) -> Step {
        if self.sp >= v {
            self.write_sp((self.sp - v) as usize)
        } else {
            (self, Err(ProcessorErrorView::InvalidAddress(0)))
        }
    }

    /// Setting the program counter to `a`: the counter always takes the
    /// value; the result tells whether it lies in the program area.
    pub open spec fn write_pc(self, a: usize) -> Step {
        let s = ProcessorView { pc: a, ..self };
        if ADDR_PROG_AND_VAR_START <= a <= ADDR_PROG_AND_VAR_END {
            (s, Ok(()))
        } else {
            (s, Err(ProcessorErrorView::SegmentationFault { pc: a, data_area: data_area_spec(a) }))
        }
    }

    /// The state with the flags of arithmetic and logic operations cleared.
    pub open spec fn clear_ula_flags(self) -> ProcessorView {
        ProcessorView {
            fr: Seq::new(self.fr.len(), |i: int| if is_ula_flag(i) { false } else { self.fr[i] }),
            ..self
        }
    }

    /// The fetch stage: `IR` takes the word at `PC` and `PC` advances.
    pub open spec fn fetch(self) -> Step {
        match self.read_mem(self.pc) {
            Ok(w) => ProcessorView { ir: w, ..self }.write_pc((self.pc + 1) as usize),
            Err(e) => (self, Err(e)),
        }
    }

    /// The register fields of `IR` copied into `RX`, `RY` and `RZ`.
    pub open spec fn with_fields(self) -> ProcessorView {
        ProcessorView {
            rx: bits_spec(self.ir, 7, 9),
            ry: bits_spec(self.ir, 4, 6),
            rz: bits_spec(self.ir, 1, 3),
            ..self
        }
    }

    /// The instruction in `IR`, or the error for a word that encodes none.
    pub open spec fn decoded(self) -> Result<Instruction, ProcessorErrorView> {
        match decode_word(self.ir) {
            Some(i) => Ok(i),
            None => Err(ProcessorErrorView::InvalidInstruction(self.ir)),
        }
    }

    /// The fields reset by a reset of the processor.
    pub open spec fn reset_fields(self) -> ProcessorView {
        ProcessorView {
            pc: ADDR_PROG_AND_VAR_START,
            ir: 0,
            sp: ADDR_STACK_END,
            fr: Seq::new(NUM_FLAGS as nat, |i: int| false),
            rx: 0,
            ry: 0,
            rz: 0,
            status: ProcessorStatus::Debug,
            ..self
        }
    }
}

/// The state of a newly created processor with memory `ram`.
pub open spec fn initial_state(ram: Seq<usize>) -> ProcessorView {
    ProcessorView {
        ram,
        vram: Seq::new(VRAM_SIZE as nat, |i: int| 0usize),
        registers: Seq::new(NUM_REGISTERS as nat, |i: int| 0usize),
        rx: 0,
        ry: 0,
        rz: 0,
        fr: Seq::new(NUM_FLAGS as nat, |i: int| false),
        pc: ADDR_PROG_AND_VAR_START,
        ir: 0,
        sp: ADDR_STACK_END,
        status: ProcessorStatus::Debug,
        written: None,
    }
}

/// `n` cells holding zero.
fn zeros(n: usize) -> (v: Vec<usize>)
    ensures
        v@ == Seq::new(n as nat, |i: int| 0usize),
{
    let mut v: Vec<usize> = Vec::with_capacity(n);
    let mut k: usize = 0;
    while k < n
        invariant
            k <= n,
            v@ == Seq::new(k as nat, |i: int| 0usize),
        decreases n - k,
    {
        v.push(0);
        k += 1;
        assert(v@ =~= Seq::new(k as nat, |i: int| 0usize));
    }
    v
}

/// `n` flags holding `false`.
fn cleared_flags() -> (v: Vec<bool>)
    ensures
        v@ == Seq::new(NUM_FLAGS as nat, |i: int| false),
{
    let mut v: Vec<bool> = Vec::new();
    let mut k: usize = 0;
    while k < NUM_FLAGS
        invariant
            k <= NUM_FLAGS,
            v@ == Seq::new(k as nat, |i: int| false),
        decreases NUM_FLAGS - k,
    {
        v.push(false);
        k += 1;
        assert(v@ =~= Seq::new(k as nat, |i: int| false));
    }
    v
}

impl Processor {
    /// Creates a processor with [`NUM_REGISTERS`] registers and a memory of
    /// [`MEMORY_SIZE`] cells, all zero, with PC = 0, SP = 32738 (the base of
    /// the stack), IR = 0, every flag clear and status `Debug`.
    pub fn new() -> (p: Self)
        ensures
            p@ == initial_state(Seq::new(MEMORY_SIZE as nat, |i: int| 0usize)),
    {
        Self::with_capacity(MEMORY_SIZE)
    }

    /// Like [`Processor::new`], with a memory of `s` cells (meant for tests).
    pub fn with_capacity(s: usize) -> (p: Self)
        ensures
            p@ == initial_state(Seq::new(s as nat, |i: int| 0usize)),
    {
        let ram = zeros(s);
        let vram = zeros(VRAM_SIZE);
        let registers = zeros(NUM_REGISTERS);
        let fr = cleared_flags();
        Self {
            ram,
            vram,
            registers,
            rx: 0,
            ry: 0,
            rz: 0,
            fr,
            pc: ADDR_PROG_AND_VAR_START,
            ir: 0,
            sp: ADDR_STACK_END,
            status: ProcessorStatus::Debug,
            written: None,
        }
    }

    /// The value at address `addr` of the memory.
    ///
    /// # Errors
    ///
    /// [`ProcessorError::InvalidAddress`] when `addr` is not an address of the memory.
    pub fn mem(&self, addr: MemoryCell) -> (r: Result<MemoryCell, ProcessorError>)
        ensures
            res_view(r) == self@.read_mem(addr),
    {
        if addr < self.ram.len() {
            Ok(self.ram[addr])
        } else {
            Err(ProcessorError::InvalidAddress(addr))
        }
    }

    /// Stores `v` at address `adrr` of the memory.
    ///
    /// # Errors
    ///
    /// [`ProcessorError::InvalidAddress`] when `adrr` is not an address of the
    /// memory; nothing changes then.
    pub fn set_mem(&mut self, adrr: MemoryCell, v: MemoryCell) -> (r: Result<(), ProcessorError>)
        ensures
            (final(self)@, res_view(r)) == old(self)@.write_mem(adrr, v),
    {
        if adrr < self.ram.len() {
            self.ram.set(adrr, v);
            Ok(())
        } else {
            Err(ProcessorError::InvalidAddress(adrr))
        }
    }

    /// The four RGBA values of the video memory starting at `index`, which
    /// must be a multiple of four inside the video memory.
    ///
    /// # Errors
    ///
    /// [`ProcessorError::InvalidAddress`] for any other `index`.
    pub fn pixel(&self, index: usize) -> (r: Result<(usize, usize, usize, usize), ProcessorError>)
        requires
            self@.wf(),
        ensures
            index % 4 == 0 && index < VRAM_SIZE ==> (r matches Ok(p) && p == (
                self@.vram[index as int],
                self@.vram[index + 1],
                self@.vram[index + 2],
                self@.vram[index + 3],
            )),
            !(index % 4 == 0 && index < VRAM_SIZE) ==> (r matches Err(e) && e@
                == ProcessorErrorView::InvalidAddress(index)),
    {
        if index % 4 == 0 && index < self.vram.len() {
            Ok((self.vram[index], self.vram[index + 1], self.vram[index + 2], self.vram[index + 3]))
        } else {
            Err(ProcessorError::InvalidAddress(index))
        }
    }

    /// Stores the four RGBA values `rgba` in the video memory from `index`,
    /// which must be a multiple of four inside the video memory.
    ///
    /// # Errors
    ///
    /// [`ProcessorError::InvalidAddress`] for any other `index`; nothing changes then.
    pub fn set_pixel(&mut self, index: usize, rgba: (usize, usize, usize, usize)) -> (r: Result<(), ProcessorError>)
        requires
            old(self)@.wf(),
        ensures
            index % 4 == 0 && index < VRAM_SIZE ==> {
                &&& r is Ok
                &&& final(self)@ == ProcessorView {
                    vram: old(self)@.vram.update(index as int, rgba.0).update(index + 1, rgba.1).update(
                        index + 2,
                        rgba.2,
                    ).update(index + 3, rgba.3),
                    ..old(self)@
                }
            },
            !(index % 4 == 0 && index < VRAM_SIZE) ==> {
                &&& (r matches Err(e) && e@ == ProcessorErrorView::InvalidAddress(index))
                &&& final(self)@ == old(self)@
            },
    {
        if index % 4 == 0 && index < self.vram.len() {
            self.vram.set(index, rgba.0);
            self.vram.set(index + 1, rgba.1);
            self.vram.set(index + 2, rgba.2);
            self.vram.set(index + 3, rgba.3);
            Ok(())
        } else {
            Err(ProcessorError::InvalidAddress(index))
        }
    }

    /// The value of register `n`.
    ///
    /// # Errors
    ///
    /// [`ProcessorError::InvalidRegister`] when there is no register `n`.
    pub fn reg(&self, n: MemoryCell) -> (r: Result<MemoryCell, ProcessorError>)
        ensures
            res_view(r) == self@.read_reg(n),
    {
        if n < self.registers.len() {
            Ok(self.registers[n])
        } else {
            Err(ProcessorError::InvalidRegister(n))
        }
    }

    /// Sets register `n` to `v`.
    ///
    /// # Errors
    ///
    /// [`ProcessorError::InvalidRegister`] when there is no register `n`;
    /// nothing changes then.
    pub fn set_reg(&mut self, n: MemoryCell, v: MemoryCell) -> (r: Result<(), ProcessorError>)
        ensures
            (final(self)@, res_view(r)) == old(self)@.write_reg(n, v),
    {
        if n < self.registers.len() {
            self.registers.set(n, v);
            Ok(())
        } else {
            Err(ProcessorError::InvalidRegister(n))
        }
    }

    /// The `RX` field of the instruction register (bits 7 to 9).
    pub fn rx(&self) -> (r: MemoryCell)
        ensures
            r == self@.rx,
    {
        self.rx
    }

    /// The `RY` field of the instruction register (bits 4 to 6).
    pub fn ry(&self) -> (r: MemoryCell)
        ensures
            r == self@.ry,
    {
        self.ry
    }

    /// The `RZ` field of the instruction register (bits 1 to 3).
    pub fn rz(&self) -> (r: MemoryCell)
        ensures
            r == self@.rz,
    {
        self.rz
    }

    /// The `i`-th flag of the *flag register* (see [`FlagIndex`]).
    ///
    /// # Errors
    ///
    /// [`ProcessorError::InvalidFlag`] when there is no flag `i`.
    pub fn fr(&self, i: usize) -> (r: Result<bool, ProcessorError>)
        ensures
            res_view(r) == self@.read_flag(i),
    {
        if i < self.fr.len() {
            Ok(self.fr[i])
        } else {
            Err(ProcessorError::InvalidFlag(i))
        }
    }

    /// Sets flag `i` of the *flag register* to `v`.
    ///
    /// # Errors
    ///
    /// [`ProcessorError::InvalidFlag`] when there is no flag `i`; nothing changes then.
    pub fn set_fr(&mut self, i: usize, v: bool) -> (r: Result<(), ProcessorError>)
        ensures
            (final(self)@, res_view(r)) == old(self)@.write_flag(i, v),
    {
        if i < self.fr.len() {
            self.fr.set(i, v);
            Ok(())
        } else {
            Err(ProcessorError::InvalidFlag(i))
        }
    }

    /// The *Instruction Register*.
    pub fn ir(&self) -> (r: MemoryCell)
        ensures
            r == self@.ir,
    {
        self.ir
    }

    /// The *Stack Pointer*.
    pub fn sp(&self) -> (r: MemoryCell)
        ensures
            r == self@.sp,
    {
        self.sp
    }

    /// Sets the *Stack Pointer* to `addr`; the pointer takes the value even
    /// when it is outside the stack.
    ///
    /// # Errors
    ///
    /// - [`ProcessorError::StackOverflow`] when `addr` is above the top of the stack.
    /// - [`ProcessorError::StackUnderflow`] when `addr` is below the base of the stack.
    pub fn set_sp(&mut self, addr: MemoryCell) -> (r: Result<(), ProcessorError>)
        ensures
            (final(self)@, res_view(r)) == old(self)@.write_sp(addr),
    {
        self.sp = addr;
        if ADDR_STACK_START <= addr && addr <= ADDR_STACK_END {
            Ok(())
        } else if addr < ADDR_STACK_START {
            Err(ProcessorError::StackOverflow(addr))
        } else {
            Err(ProcessorError::StackUnderflow(addr))
        }
    }

    /// Adds `v` to the *Stack Pointer* (as [`Processor::set_sp`]).
    pub fn inc_sp(&mut self, v: MemoryCell) -> (r: Result<(), ProcessorError>)
        requires
            old(self)@.sp + v <= usize::MAX,
        ensures
            (final(self)@, res_view(r)) == old(self)@.write_sp((old(self)@.sp + v) as usize),
    {
        let a = self.sp + v;
        self.set_sp(a)
    }

    /// Subtracts `v` from the *Stack Pointer* (as [`Processor::set_sp`]).
    ///
    /// # Errors
    ///
    /// [`ProcessorError::InvalidAddress`] (with address 0) when the result
    /// would be negative; nothing changes then.
    pub fn dec_sp(&mut self, v: usize) -> (r: Result<(), ProcessorError>)
        ensures
            (final(self)@, res_view(r)) == old(self)@.dec_sp_by(v),
    {
        match self.sp.checked_sub(v) {
            Some(a) => self.set_sp(a),
            None => Err(ProcessorError::InvalidAddress(0)),
        }
    }

    /// The *Program Counter*.
    pub fn pc(&self) -> (r: MemoryCell)
        ensures
            r == self@.pc,
    {
        self.pc
    }

    /// Sets the *Program Counter* to `addr`; the counter takes the value even
    /// when it is outside the program area.
    ///
    /// # Errors
    ///
    /// [`ProcessorError::SegmentationFault`] when `addr` is outside the area of
    /// program and variables, naming the area of `addr`.
    pub fn set_pc(&mut self, addr: usize) -> (r: Result<(), ProcessorError>)
        ensures
            (final(self)@, res_view(r)) == old(self)@.write_pc(addr),
    {
        self.pc = addr;
        if ADDR_PROG_AND_VAR_START <= addr && addr <= ADDR_PROG_AND_VAR_END {
            Ok(())
        } else {
            Err(ProcessorError::SegmentationFault { pc: addr, data_area: data_area(addr) })
        }
    }

    /// Adds `v` to the *Program Counter* (as [`Processor::set_pc`]).
    pub fn inc_pc(&mut self, v: usize) -> (r: Result<(), ProcessorError>)
        requires
            old(self)@.pc + v <= usize::MAX,
        ensures
            (final(self)@, res_view(r)) == old(self)@.write_pc((old(self)@.pc + v) as usize),
    {
        let a = self.pc + v;
        self.set_pc(a)
    }

    /// Sets the state of execution.
    pub fn set_status(&mut self, status: ProcessorStatus)
        ensures
            final(self)@ == (ProcessorView { status, ..old(self)@ }),
    {
        self.status = status;
    }

    /// The state of execution.
    pub fn status(&self) -> (s: ProcessorStatus)
        ensures
            s == self@.status,
    {
        self.status
    }

    /// The character written by the last `OUTCHAR` and its position on the
    /// screen, if any.
    pub fn written_char(&self) -> (w: Option<(Pixelmap, usize)>)
        ensures
            w == self@.written,
    {
        self.written
    }

    /// Records the character written by `OUTCHAR`.
    pub(crate) fn set_written(&mut self, w: Option<(Pixelmap, usize)>)
        ensures
            final(self)@ == (ProcessorView { written: w, ..old(self)@ }),
    {
        self.written = w;
    }

    /// Clears the flags that arithmetic and logic operations set: greater,
    /// lesser, equal, zero, carry, overflow, division by zero and negative.
    pub fn ula_operation(&mut self) -> (r: Result<(), ProcessorError>)
        requires
            old(self)@.wf(),
        ensures
            r is Ok,
            final(self)@ == old(self)@.clear_ula_flags(),
    {
        self.fr.set(FlagIndex::GREATER, false);
        self.fr.set(FlagIndex::LESSER, false);
        self.fr.set(FlagIndex::EQUAL, false);
        self.fr.set(FlagIndex::ZERO, false);
        self.fr.set(FlagIndex::CARRY, false);
        self.fr.set(FlagIndex::ARITHMETIC_OVERFLOW, false);
        self.fr.set(FlagIndex::DIV_BY_ZERO, false);
        self.fr.set(FlagIndex::NEGATIVE, false);
        assert(self.fr@ =~= old(self)@.clear_ula_flags().fr);
        assert(self@ =~= old(self)@.clear_ula_flags());
        Ok(())
    }

    /// The fetch stage: reads the word at `PC` into `IR` and advances `PC`.
    ///
    /// # Errors
    ///
    /// [`ProcessorError::InvalidAddress`] when `PC` is outside the memory, or
    /// the error of [`Processor::set_pc`] for the advanced counter.
    pub(crate) fn fetch_stage(&mut self) -> (r: Result<(), ProcessorError>)
        requires
            old(self)@.wf(),
        ensures
            final(self)@.wf(),
            (final(self)@, res_view(r)) == old(self)@.fetch(),
    {
        match self.mem(self.pc) {
            Ok(w) => {
                let n = self.ram.len();
                assert(self.pc < n);
                self.ir = w;
                self.inc_pc(1)
            },
            Err(e) => Err(e),
        }
    }

    /// The decode stage: copies the register fields of `IR` and decodes it.
    ///
    /// # Errors
    ///
    /// [`ProcessorError::InvalidInstruction`] when `IR` encodes no instruction.
    pub(crate) fn decode_stage(&mut self) -> (r: Result<Instruction, ProcessorError>)
        requires
            old(self)@.wf(),
        ensures
            final(self)@.wf(),
            final(self)@ == old(self)@.with_fields(),
            res_view(r) == old(self)@.decoded(),
    {
        proof {
            let ir = self.ir;
            assert(bits_spec(ir, 7, 9) < 8 && bits_spec(ir, 4, 6) < 8 && bits_spec(ir, 1, 3) < 8) by (bit_vector);
        }
        self.rx = bits_of(self.ir, 7, 9);
        self.ry = bits_of(self.ir, 4, 6);
        self.rz = bits_of(self.ir, 1, 3);
        match Instruction::get_instruction(self.ir) {
            Ok(i) => Ok(i),
            Err(_) => Err(ProcessorError::InvalidInstruction(self.ir)),
        }
    }

    /// Meant to copy `memory` into the memory of the processor. A memory of
    /// [`MEMORY_SIZE`] cells cannot be copied (the memory is emptied before
    /// the copy, whose lengths then differ), so only other sizes are accepted
    /// here, and they are refused.
    ///
    /// # Errors
    ///
    /// [`ProcessorError::Generic`] for a memory of any other size; nothing changes.
    pub fn load_memory(&mut self, memory: &[MemoryCell]) -> (r: Result<(), ProcessorError>)
        requires
            memory@.len() != MEMORY_SIZE,
        ensures
            final(self)@ == old(self)@,
            res_view(r) == Err::<(), ProcessorErrorView>(invalid_memory_size_error()),
    {
        Err(invalid_memory_size())
    }

    /// Resets PC, IR, SP, the flags, the register fields and the status.
    fn reset_fields(&mut self)
        ensures
            final(self)@ == old(self)@.reset_fields(),
    {
        self.pc = ADDR_PROG_AND_VAR_START;
        self.ir = 0;
        self.sp = ADDR_STACK_END;
        self.fr = cleared_flags();
        self.rx = 0;
        self.ry = 0;
        self.rz = 0;
        self.status = ProcessorStatus::Debug;
    }

    /// Resets the special registers and then loads `memory` as
    /// [`Processor::load_memory`] does (only sizes other than
    /// [`MEMORY_SIZE`] are accepted, as that size cannot be copied).
    ///
    /// # Errors
    ///
    /// [`ProcessorError::Generic`] for a memory of any other size.
    pub fn reset(&mut self, memory: &[MemoryCell]) -> (r: Result<(), ProcessorError>)
        requires
            memory@.len() != MEMORY_SIZE,
        ensures
            final(self)@ == old(self)@.reset_fields(),
            res_view(r) == Err::<(), ProcessorErrorView>(invalid_memory_size_error()),
    {
        self.reset_fields();
        Err(invalid_memory_size())
    }
}

impl Default for Processor {
    /// The same processor as [`Processor::new`].
    fn default() -> (p: Self)
        ensures
            p@ == initial_state(Seq::new(MEMORY_SIZE as nat, |i: int| 0usize)),
    {
        Self::new()
    }
}

/// `true` or `false`, as `{:?}` prints a `bool`.
pub open spec fn bool_text(b: bool) -> Seq<char> {
    if b {
        "true"@
    } else {
        "false"@
    }
}

/// `0x` and at least four lower-case hexadecimal digits of `n` (what
/// `{:#06x}` prints).
pub open spec fn hex_word(n: usize) -> Seq<char> {
    "0x"@ + zero_padded(hex_lower(n as nat), 4)
}

/// How a processor in state `s` is displayed: its registers and flags as
/// lists, `IR` in decimal, `SP` and `PC` in hexadecimal.
pub open spec fn processor_text(s: ProcessorView) -> Seq<char> {
    "[Registers "@ + bracketed(s.registers.map_values(|r: usize| decimal(r as nat)))
        + "] [FR "@ + bracketed(s.fr.map_values(|b: bool| bool_text(b))) + "] [IR "@
        + decimal(s.ir as nat) + "] [SP "@ + hex_word(s.sp) + "] [PC "@ + hex_word(s.pc)
        + "]"@
}

/// Exec form of [`hex_word`].
fn hex_word_text(n: usize) -> (s: String)
    ensures
        s@ == hex_word(n),
{
    let mut s = String::from_str("0x");
    let digits = pad_zeros(hex_lower_chars(n), 4);
    let d = string_of(digits.as_slice());
    s.append(d.as_str());
    s
}

impl Processor {
    /// The processor as it is displayed (see [`processor_text`]).
    pub fn to_string(&self) -> (t: String)
        ensures
            t@ == processor_text(self@),
    {
        let mut regs: Vec<String> = Vec::new();
        let mut k: usize = 0;
        while k < self.registers.len()
            invariant
                k <= self.registers@.len(),
                regs@.len() == k,
                forall|j: int| 0 <= j < k ==> #[trigger] regs@[j]@ == decimal(
                    self.registers@[j] as nat,
                ),
            decreases self.registers.len() - k,
        {
            regs.push(decimal_string(self.registers[k]));
            k += 1;
        }
        assert(texts(regs@) =~= self.registers@.map_values(|r: usize| decimal(r as nat)));
        let mut flags: Vec<String> = Vec::new();
        let mut f: usize = 0;
        while f < self.fr.len()
            invariant
                f <= self.fr@.len(),
                flags@.len() == f,
                forall|j: int| 0 <= j < f ==> #[trigger] flags@[j]@ == bool_text(self.fr@[j]),
            decreases self.fr.len() - f,
        {
            flags.push(
                if self.fr[f] {
                    String::from_str("true")
                } else {
                    String::from_str("false")
                },
            );
            f += 1;
        }
        assert(texts(flags@) =~= self.fr@.map_values(|b: bool| bool_text(b)));
        let mut t = String::from_str("[Registers ");
        let r = bracketed_list(&regs);
        t.append(r.as_str());
        t.append("] [FR ");
        let fl = bracketed_list(&flags);
        t.append(fl.as_str());
        t.append("] [IR ");
        let ir = decimal_string(self.ir);
        t.append(ir.as_str());
        t.append("] [SP ");
        let sp = hex_word_text(self.sp);
        t.append(sp.as_str());
        t.append("] [PC ");
        let pc = hex_word_text(self.pc);
        t.append(pc.as_str());
        t.append("]");
        t
    }
}

/// The error for a memory of a size that the processor does not accept.
pub open spec fn invalid_memory_size_error() -> ProcessorErrorView {
    ProcessorErrorView::Generic {
        title: "Tamanho inválido de memória"@,
        description: "Uma memória de tamanho não permitido tentou ser carregada no processador."@,
    }
}

/// Exec form of [`invalid_memory_size_error`].
fn invalid_memory_size() -> (e: ProcessorError)
    ensures
        e@ == invalid_memory_size_error(),
{
    ProcessorError::Generic {
        title: String::from_str("Tamanho inválido de memória"),
        description: String::from_str(
            "Uma memória de tamanho não permitido tentou ser carregada no processador.",
        ),
    }
}

} // verus!
