//! The execution stage: what each instruction does to the processor.
//!
//! The meaning of every instruction is stated as a spec function from the
//! processor state (after fetch and decode) to the state after execution and
//! the result; [`InstructionCicle::execution`] is proved to follow it.
use vstd::prelude::*;

use crate::errors::{ProcessorError, ProcessorErrorView};
use crate::isa::{bits_of, bits_spec, low_mask, FlagIndex, Instruction, MAX_VALUE_MEMORY};
use crate::layout::{ADDR_PROG_AND_VAR_END, ADDR_STACK_END};
use crate::processor::{res_view, Processor, ProcessorStatus, ProcessorView, Step, NUM_FLAGS};
use crate::text::{decimal, decimal_string};
use crate::video::{color_of_code, Color, VIDEO_BUFFER_LENGHT};

verus! {

/// Runs `next` on the state after `first` when `first` succeeded; otherwise
/// stops with the state and error of `first`.
pub open spec fn and_then(first: Step, next: spec_fn(ProcessorView) -> Step) -> Step {
    match first.1 {
        Ok(_) => next(first.0),
        Err(e) => (first.0, Err(e)),
    }
}

/// Runs `next` with the value read, or stops in `s` with the error of the read.
pub open spec fn with_value<T>(
    s: ProcessorView,
    r: Result<T, ProcessorErrorView>,
    next: spec_fn(T) -> Step,
) -> Step {
    match r {
        Ok(v) => next(v),
        Err(e) => (s, Err(e)),
    }
}

/// Register `n` of `s`.
pub open spec fn reg_of(s: ProcessorView, n: usize) -> usize {
    s.registers[n as int]
}

/// Flag `i` of `s` as the number 0 or 1.
pub open spec fn flag_num(s: ProcessorView, i: usize) -> usize {
    if s.fr[i as int] {
        1
    } else {
        0
    }
}

/// `2` to the power `k`.
pub open spec fn two_pow(k: nat) -> nat
    decreases k,
{
    if k == 0 {
        1
    } else {
        2 * two_pow((k - 1) as nat)
    }
}

/// The flags `k..16` of `fr` read as a binary number, flag `k` being the
/// lowest bit; `flags_from(fr, 0)` is the whole *flag register* with flag `i`
/// as bit `i`.
pub open spec fn flags_from(fr: Seq<bool>, k: nat) -> nat
    decreases NUM_FLAGS - k,
{
    if k >= NUM_FLAGS {
        0
    } else {
        (if fr[k as int] { 1nat } else { 0nat }) + 2 * flags_from(fr, k + 1)
    }
}

// ---------------------------------------------------------------- data movement

/// `LOAD Rx, END`: `Rx` ← MEM(END), where END is the word after the instruction.
pub open spec fn spec_load(s: ProcessorView) -> Step {
    with_value(
        s,
        s.read_mem(s.pc),
        |a: usize|
            with_value(
                s,
                s.read_mem(a),
                |v: usize| s.with_reg(s.rx, v).write_pc((s.pc + 1) as usize),
            ),
    )
}

/// `LOADN Rx, #NR`: `Rx` ← NR, the word after the instruction.
pub open spec fn spec_loadn(s: ProcessorView) -> Step {
    with_value(s, s.read_mem(s.pc), |v: usize| s.with_reg(s.rx, v).write_pc((s.pc + 1) as usize))
}

/// `LOADI Rx, Ry`: `Rx` ← MEM(`Ry`), the word at the address that `Ry` holds.
pub open spec fn spec_loadi(s: ProcessorView) -> Step {
    with_value(s, s.read_mem(reg_of(s, s.ry)), |v: usize| (s.with_reg(s.rx, v), Ok(())))
}

/// `STORE END, Rx`: MEM(END) ← `Rx`.
pub open spec fn spec_store(s: ProcessorView) -> Step {
    with_value(
        s,
        s.read_mem(s.pc),
        |a: usize|
            and_then(
                s.write_mem(a, reg_of(s, s.rx)),
                |t: ProcessorView| t.write_pc((s.pc + 1) as usize),
            ),
    )
}

/// `STOREN END, #NR`: MEM(END) ← NR; both words follow the instruction.
pub open spec fn spec_storen(s: ProcessorView) -> Step {
    with_value(
        s,
        s.read_mem(s.pc),
        |a: usize|
            with_value(
                s,
                s.read_mem((s.pc + 1) as usize),
                |v: usize| and_then(s.write_mem(a, v), |t: ProcessorView| t.write_pc((s.pc + 2) as usize)),
            ),
    )
}

/// `STOREI Rx, Ry`: MEM(`Rx`) ← `Ry`.
pub open spec fn spec_storei(s: ProcessorView) -> Step {
    s.write_mem(reg_of(s, s.rx), reg_of(s, s.ry))
}

/// `MOV`: bits 0..=1 of IR select `Rx` ← `Ry` (0), `Rx` ← `SP` (1) or `SP` ← `Rx`.
pub open spec fn spec_mov(s: ProcessorView) -> Step {
    let m = bits_spec(s.ir, 0, 1);
    if m == 0 {
        (s.with_reg(s.rx, reg_of(s, s.ry)), Ok(()))
    } else if m == 1 {
        (s.with_reg(s.rx, s.sp), Ok(()))
    } else {
        s.write_sp(reg_of(s, s.rx))
    }
}

// ---------------------------------------------------------------- output

/// The description of the error for a screen position `index` outside the screen.
pub open spec fn index_message(index: usize) -> Seq<char> {
    "O índice "@ + decimal(index as nat) + " não pertence ao intervalo de 0 a "@ + decimal(
        VIDEO_BUFFER_LENGHT as nat,
    ) + "."@
}

/// The description of the error for a colour code that names no colour.
pub open spec fn color_message(code: usize) -> Seq<char> {
    "O código "@ + decimal(code as nat) + " não representa nenhuma cor mapeada."@
}

/// `OUTCHAR Rx, Ry`: writes at screen position `Ry` the character whose
/// code is the low byte of `Rx`, in the colour coded by its high byte.
/// Positions above [`VIDEO_BUFFER_LENGHT`] and unknown colours are errors.
pub open spec fn spec_outchar(s: ProcessorView) -> Step {
    let index = reg_of(s, s.ry);
    if index > VIDEO_BUFFER_LENGHT {
        (
            s,
            Err(
                ProcessorErrorView::Generic {
                    title: "Índice inválido na Mémoria de Vídeo"@,
                    description: index_message(index),
                },
            ),
        )
    } else {
        let x = reg_of(s, s.rx);
        let code = bits_spec(x, 8, 15);
        match color_of_code(code) {
            Some(color) => (
                ProcessorView { written: Some(((bits_spec(x, 0, 7) as u8, color), index)), ..s },
                Ok(()),
            ),
            None => (
                s,
                Err(
                    ProcessorErrorView::Generic {
                        title: "Cor inválida"@,
                        description: color_message(code),
                    },
                ),
            ),
        }
    }
}

// ---------------------------------------------------------------- arithmetic

/// `ADD Rx, Ry, Rz` (`Rx` ← `Ry` + `Rz`) and, with `with_carry`, `ADDC`
/// (`Rx` ← `Ry` + `Rz` + C). The arithmetic flags are cleared; a result above
/// [`MAX_VALUE_MEMORY`] sets carry and overflow and is reduced by
/// [`MAX_VALUE_MEMORY`].
pub open spec fn spec_add(s: ProcessorView, with_carry: bool) -> Step {
    let t1 = s.with_reg(s.rx, (reg_of(s, s.ry) + reg_of(s, s.rz)) as usize);
    let t2 = if with_carry {
        t1.with_reg(t1.rx, (reg_of(t1, t1.rx) + flag_num(t1, FlagIndex::CARRY)) as usize)
    } else {
        t1
    };
    let u = t2.clear_ula_flags();
    let r = reg_of(u, u.rx);
    if r > MAX_VALUE_MEMORY {
        (
            u.with_flag(FlagIndex::CARRY, true).with_flag(
                FlagIndex::ARITHMETIC_OVERFLOW,
                true,
            ).with_reg(u.rx, (r - MAX_VALUE_MEMORY) as usize),
            Ok(()),
        )
    } else {
        (u, Ok(()))
    }
}

/// The sum of `ADD`/`ADDC` fits in a machine integer (a larger one overflows).
pub open spec fn add_safe(s: ProcessorView, with_carry: bool) -> bool {
    reg_of(s, s.ry) + reg_of(s, s.rz) + (if with_carry { flag_num(s, FlagIndex::CARRY) } else { 0 })
        <= usize::MAX
}

/// The difference that `SUB` (`Ry` - `Rz`) or, with `with_carry`, `SUBC`
/// (`Ry` - `Rz` + C) computes.
pub open spec fn sub_value(s: ProcessorView, with_carry: bool) -> int {
    reg_of(s, s.ry) - reg_of(s, s.rz) + if with_carry {
        flag_num(s, FlagIndex::CARRY) as int
    } else {
        0int
    }
}

/// `SUB Rx, Ry, Rz` (`Rx` ← `Ry` - `Rz`) and, with `with_carry`, `SUBC`
/// (`Rx` ← `Ry` - `Rz` + C). A negative result stores 0 and sets the
/// negative flag; a zero result sets the zero flag.
pub open spec fn spec_sub(s: ProcessorView, with_carry: bool) -> Step {
    let d = sub_value(s, with_carry);
    let u = s.clear_ula_flags();
    if d >= 0 {
        let x = d as usize;
        let v = u.with_reg(u.rx, x).with_flag(FlagIndex::ZERO, false).with_flag(FlagIndex::NEGATIVE, false);
        (if x == 0 { v.with_flag(FlagIndex::ZERO, true) } else { v }, Ok(()))
    } else {
        (
            u.with_flag(FlagIndex::ZERO, false).with_flag(FlagIndex::NEGATIVE, true).with_reg(u.rx, 0),
            Ok(()),
        )
    }
}

/// The difference of `SUBC` fits in a machine integer (a larger one overflows).
pub open spec fn sub_safe(s: ProcessorView, with_carry: bool) -> bool {
    sub_value(s, with_carry) <= usize::MAX
}

/// `INC Rx` (`Rx` ← `Rx` + 1) and, with `!inc`, `DEC Rx` (`Rx` ← `Rx` - 1).
/// A result above [`MAX_VALUE_MEMORY`] sets carry and overflow and is reduced
/// by [`MAX_VALUE_MEMORY`]; zero sets the zero flag; a result that is negative
/// or does not fit in a machine integer stores 0 and sets the negative flag.
pub open spec fn spec_inc_dec(s: ProcessorView, inc: bool) -> Step {
    let x = reg_of(s, s.rx);
    let result: Option<int> = if inc {
        if x + 1 <= usize::MAX { Some(x + 1) } else { None }
    } else {
        if x >= 1 { Some(x - 1) } else { None }
    };
    let u = s.clear_ula_flags();
    match result {
        Some(r) => if r > MAX_VALUE_MEMORY {
            (
                u.with_flag(FlagIndex::CARRY, true).with_flag(
                    FlagIndex::ARITHMETIC_OVERFLOW,
                    true,
                ).with_reg(u.rx, (r - MAX_VALUE_MEMORY) as usize),
                Ok(()),
            )
        } else if r == 0 {
            (u.with_flag(FlagIndex::ZERO, true).with_reg(u.rx, 0), Ok(()))
        } else {
            (u.with_reg(u.rx, r as usize), Ok(()))
        },
        None => (u.with_flag(FlagIndex::NEGATIVE, true).with_reg(u.rx, 0), Ok(())),
    }
}

/// `MOD Rx, Ry, Rz`: `Rx` ← `Ry` % `Rz`; zero sets the zero flag.
pub open spec fn spec_mod(s: ProcessorView) -> Step {
    let t = s.with_reg(s.rx, (reg_of(s, s.ry) % reg_of(s, s.rz)) as usize);
    let u = t.clear_ula_flags();
    if reg_of(u, u.rx) == 0 {
        (u.with_flag(FlagIndex::ZERO, true), Ok(()))
    } else {
        (u, Ok(()))
    }
}

// ---------------------------------------------------------------- logic

/// The value that a logic instruction computes from `Ry` and `Rz`.
pub open spec fn logic_value(i: Instruction, y: usize, z: usize) -> usize {
    match i {
        Instruction::AND => y & z,
        Instruction::OR => y | z,
        Instruction::XOR => y ^ z,
        _ => !y,
    }
}

/// `AND`, `OR`, `XOR` (`Rx` ← `Ry` op `Rz`) and `NOT` (`Rx` ← !`Ry`); the
/// zero flag tells whether the result is zero. Other flags are kept.
pub open spec fn spec_logic(s: ProcessorView, i: Instruction) -> Step {
    let t = s.with_reg(s.rx, logic_value(i, reg_of(s, s.ry), reg_of(s, s.rz))).with_flag(
        FlagIndex::ZERO,
        false,
    );
    if reg_of(t, t.rx) == 0 {
        (t.with_flag(FlagIndex::ZERO, true), Ok(()))
    } else {
        (t, Ok(()))
    }
}

/// The value that a shift instruction computes from the 16-bit word of
/// `Rx` and the amount `n`: the bits shifted past either end of the word
/// disappear, and the vacated ones are zeros (`SHIFTL0`, `SHIFTR0`) or ones
/// (`SHIFTL1`, `SHIFTR1`).
pub open spec fn shift_value(i: Instruction, x: usize, n: usize) -> usize {
    let w = x & 0xffff;
    match i {
        Instruction::SHIFTL0 => (w << n) & 0xffff,
        Instruction::SHIFTL1 => (!((!w) << n)) & 0xffff,
        Instruction::SHIFTR0 => w >> n,
        _ => (!(((!w) & 0xffff) >> n)) & 0xffff,
    }
}

/// `SHIFTL0`, `SHIFTL1`, `SHIFTR0`, `SHIFTR1 Rx, N` with N in bits 0..=3 of
/// IR (see [`shift_value`]); zero sets the zero flag.
pub open spec fn spec_shift(s: ProcessorView, i: Instruction) -> Step {
    let u = s.clear_ula_flags();
    let r2 = shift_value(i, reg_of(u, u.rx), bits_spec(u.ir, 0, 3));
    let t = u.with_reg(u.rx, r2);
    if r2 == 0 {
        (t.with_flag(FlagIndex::ZERO, true), Ok(()))
    } else {
        (t, Ok(()))
    }
}

/// The value that a rotation computes from the 16-bit word of `Rx` and the
/// amount `n`: the bits that leave one end of the word come back at the
/// other.
pub open spec fn rotate_value(i: Instruction, x: usize, n: usize) -> usize {
    let w = x & 0xffff;
    match i {
        Instruction::ROTL => ((w << n) | (w >> ((16 - n) as usize))) & 0xffff,
        _ => ((w >> n) | (w << ((16 - n) as usize))) & 0xffff,
    }
}

/// `ROTL` and `ROTR Rx, N` with N in bits 0..=3 of IR; zero sets the zero flag.
pub open spec fn spec_rotate(s: ProcessorView, i: Instruction) -> Step {
    let u = s.clear_ula_flags();
    let r = rotate_value(i, reg_of(u, u.rx), bits_spec(u.ir, 0, 3));
    let t = u.with_reg(u.rx, r);
    if r == 0 {
        (t.with_flag(FlagIndex::ZERO, true), Ok(()))
    } else {
        (t, Ok(()))
    }
}

/// `CMP Rx, Ry`: clears the arithmetic flags and sets lesser, equal or
/// greater as `Rx` compares with `Ry`.
pub open spec fn spec_cmp(s: ProcessorView) -> Step {
    let u = s.clear_ula_flags();
    let a = reg_of(s, s.rx);
    let b = reg_of(s, s.ry);
    if a < b {
        (u.with_flag(FlagIndex::LESSER, true), Ok(()))
    } else if a == b {
        (u.with_flag(FlagIndex::EQUAL, true), Ok(()))
    } else {
        (u.with_flag(FlagIndex::GREATER, true), Ok(()))
    }
}

// ---------------------------------------------------------------- control flow

/// Whether the condition of a jump or call holds for the flags of `s`
/// (`JMP` and `CALL` always jump).
pub open spec fn jump_taken(i: Instruction, s: ProcessorView) -> bool {
    let eq = s.fr[FlagIndex::EQUAL as int];
    let zero = s.fr[FlagIndex::ZERO as int];
    let carry = s.fr[FlagIndex::CARRY as int];
    let greater = s.fr[FlagIndex::GREATER as int];
    let lesser = s.fr[FlagIndex::LESSER as int];
    let overflow = s.fr[FlagIndex::ARITHMETIC_OVERFLOW as int];
    let div_zero = s.fr[FlagIndex::DIV_BY_ZERO as int];
    let negative = s.fr[FlagIndex::NEGATIVE as int];
    match i {
        Instruction::JMP | Instruction::CALL => true,
        Instruction::JEQ | Instruction::CEQ => eq,
        Instruction::JNE | Instruction::CNE => !eq,
        Instruction::JZ | Instruction::CZ => zero,
        Instruction::JNZ | Instruction::CNZ => !zero,
        Instruction::JC | Instruction::CC => carry,
        Instruction::JNC | Instruction::CNC => !carry,
        Instruction::JGR | Instruction::CGR => greater,
        Instruction::JLE | Instruction::CLE => lesser,
        Instruction::JEG | Instruction::CEG => eq || greater,
        Instruction::JEL | Instruction::CEL => eq || lesser,
        Instruction::JOV | Instruction::COV => overflow,
        Instruction::JNO | Instruction::CNO => !overflow,
        Instruction::JDZ | Instruction::CDZ => div_zero,
        Instruction::JN | Instruction::CN => negative,
        _ => false,
    }
}

/// The conditional jumps `JMP`, `JEQ`, ... `JN`.
pub open spec fn is_jump(i: Instruction) -> bool {
    match i {
        Instruction::JMP | Instruction::JEQ | Instruction::JNE | Instruction::JZ | Instruction::JNZ
        | Instruction::JC | Instruction::JNC | Instruction::JGR | Instruction::JLE | Instruction::JEG
        | Instruction::JEL | Instruction::JOV | Instruction::JNO | Instruction::JDZ
        | Instruction::JN => true,
        _ => false,
    }
}

/// The conditional calls `CALL`, `CEQ`, ... `CN`.
pub open spec fn is_call(i: Instruction) -> bool {
    match i {
        Instruction::CALL | Instruction::CEQ | Instruction::CNE | Instruction::CZ | Instruction::CNZ
        | Instruction::CC | Instruction::CNC | Instruction::CGR | Instruction::CLE | Instruction::CEG
        | Instruction::CEL | Instruction::COV | Instruction::CNO | Instruction::CDZ
        | Instruction::CN => true,
        _ => false,
    }
}

/// A jump: `PC` ← END (the word after the instruction) when the condition
/// holds, otherwise `PC` skips that word.
pub open spec fn spec_jump(s: ProcessorView, i: Instruction) -> Step {
    if jump_taken(i, s) {
        with_value(s, s.read_mem(s.pc), |a: usize| s.write_pc(a))
    } else {
        s.write_pc((s.pc + 1) as usize)
    }
}

/// A call: when the condition holds, MEM(`SP`) ← `PC`, `SP` ← `SP` - 1 and
/// `PC` ← END; otherwise `PC` skips the address word.
pub open spec fn spec_call(s: ProcessorView, i: Instruction) -> Step {
    if jump_taken(i, s) {
        and_then(
            s.write_mem(s.sp, s.pc),
            |t: ProcessorView|
                and_then(
                    t.dec_sp_by(1),
                    |u: ProcessorView| with_value(u, u.read_mem(u.pc), |a: usize| u.write_pc(a)),
                ),
        )
    } else {
        s.write_pc((s.pc + 1) as usize)
    }
}

/// `RTS`: `SP` ← `SP` + 1, `PC` ← MEM(`SP`), `PC` ← `PC` + 1.
pub open spec fn spec_rts(s: ProcessorView) -> Step {
    and_then(
        s.write_sp((s.sp + 1) as usize),
        |t: ProcessorView|
            with_value(
                t,
                t.read_mem(t.sp),
                |a: usize| and_then(t.write_pc(a), |u: ProcessorView| u.write_pc((u.pc + 1) as usize)),
            ),
    )
}

/// `RTI`: `SP` ← `SP` + 1, `PC` ← MEM(`SP`).
pub open spec fn spec_rti(s: ProcessorView) -> Step {
    and_then(
        s.write_sp((s.sp + 1) as usize),
        |t: ProcessorView| with_value(t, t.read_mem(t.sp), |a: usize| t.write_pc(a)),
    )
}

/// `PUSH Rx` (bit 6 of IR clear) or `PUSH FR` (bit 6 set): MEM(`SP`) ← the
/// value, `SP` ← `SP` - 1.
pub open spec fn spec_push(s: ProcessorView) -> Step {
    let v = if bits_spec(s.ir, 6, 6) == 0 {
        reg_of(s, s.rx)
    } else {
        flags_from(s.fr, 0) as usize
    };
    and_then(s.write_mem(s.sp, v), |t: ProcessorView| t.dec_sp_by(1))
}

/// The flags read back from the word `m`: flag `i` is bit `i` of `m`.
pub open spec fn flags_of_word(m: usize) -> Seq<bool> {
    Seq::new(NUM_FLAGS as nat, |i: int| bits_spec(m, i as usize, i as usize) != 0)
}

/// `POP Rx` (bit 6 of IR clear) or `POP FR` (bit 6 set): `SP` ← `SP` + 1,
/// then the register or the flags take MEM(`SP`).
pub open spec fn spec_pop(s: ProcessorView) -> Step {
    and_then(
        s.write_sp((s.sp + 1) as usize),
        |t: ProcessorView|
            with_value(
                t,
                t.read_mem(t.sp),
                |m: usize|
                    if bits_spec(t.ir, 6, 6) == 0 {
                        (t.with_reg(t.rx, m), Ok(()))
                    } else {
                        (ProcessorView { fr: flags_of_word(m), ..t }, Ok(()))
                    },
            ),
    )
}

// ---------------------------------------------------------------- dispatch

/// The instructions whose execution is not implemented (the processor
/// cannot run them): `INPUT`, `OUTPUT`, `INCHAR`, `SOUND`, `MUL` and `DIV`.
pub open spec fn is_unimplemented(i: Instruction) -> bool {
    match i {
        Instruction::INPUT | Instruction::OUTPUT | Instruction::INCHAR | Instruction::SOUND
        | Instruction::MUL | Instruction::DIV => true,
        _ => false,
    }
}

/// What executing `i` does to the processor in state `s` (after fetch and
/// decode), and what it returns.
pub open spec fn execute(i: Instruction, s: ProcessorView) -> Step {
    match i {
        Instruction::LOAD => spec_load(s),
        Instruction::LOADN => spec_loadn(s),
        Instruction::LOADI => spec_loadi(s),
        Instruction::STORE => spec_store(s),
        Instruction::STOREN => spec_storen(s),
        Instruction::STOREI => spec_storei(s),
        Instruction::MOV => spec_mov(s),
        Instruction::OUTCHAR => spec_outchar(s),
        Instruction::ADD => spec_add(s, false),
        Instruction::ADDC => spec_add(s, true),
        Instruction::SUB => spec_sub(s, false),
        Instruction::SUBC => spec_sub(s, true),
        Instruction::INC => spec_inc_dec(s, true),
        Instruction::DEC => spec_inc_dec(s, false),
        Instruction::MOD => spec_mod(s),
        Instruction::AND | Instruction::OR | Instruction::XOR | Instruction::NOT => spec_logic(s, i),
        Instruction::SHIFTL0 | Instruction::SHIFTL1 | Instruction::SHIFTR0
        | Instruction::SHIFTR1 => spec_shift(s, i),
        Instruction::ROTL | Instruction::ROTR => spec_rotate(s, i),
        Instruction::CMP => spec_cmp(s),
        Instruction::RTS => spec_rts(s),
        Instruction::RTI => spec_rti(s),
        Instruction::PUSH => spec_push(s),
        Instruction::POP => spec_pop(s),
        Instruction::NOP => (s, Ok(())),
        Instruction::HALT => (ProcessorView { status: ProcessorStatus::Halted, ..s }, Ok(())),
        Instruction::CLEARC => (s.with_flag(FlagIndex::CARRY, false), Ok(())),
        Instruction::SETC => (s.with_flag(FlagIndex::CARRY, true), Ok(())),
        Instruction::BREAKP => (ProcessorView { status: ProcessorStatus::Debug, ..s }, Ok(())),
        _ => if is_jump(i) {
            spec_jump(s, i)
        } else if is_call(i) {
            spec_call(s, i)
        } else {
            (s, Ok(()))
        },
    }
}

/// Executing `i` in state `s` is defined: `i` is
/// implemented, sums fit in a machine integer, `MOD` does not divide by zero,
/// and `PC` or `SP` is not incremented past the largest machine integer.
pub open spec fn exec_safe(i: Instruction, s: ProcessorView) -> bool {
    &&& !is_unimplemented(i)
    &&& match i {
        Instruction::ADD => add_safe(s, false),
        Instruction::ADDC => add_safe(s, true),
        Instruction::SUBC => sub_safe(s, true),
        Instruction::MOD => reg_of(s, s.rz) != 0,
        Instruction::RTS | Instruction::RTI | Instruction::POP => s.sp + 1 <= usize::MAX,
        _ => (is_jump(i) || is_call(i)) ==> (jump_taken(i, s) || s.pc + 1 <= usize::MAX),
    }
}

/// One instruction cycle: fetch, decode, then execute the decoded instruction.
pub open spec fn cycle(s: ProcessorView) -> Step {
    and_then(
        s.fetch(),
        |t: ProcessorView|
            match t.decoded() {
                Ok(i) => execute(i, t.with_fields()),
                Err(e) => (t.with_fields(), Err(e)),
            },
    )
}

/// An instruction cycle from state `s` is defined (see [`exec_safe`]).
pub open spec fn cycle_safe(s: ProcessorView) -> bool {
    let t = s.fetch().0;
    s.fetch().1 is Ok ==> (t.decoded() matches Ok(i) ==> exec_safe(i, t.with_fields()))
}

/// Execution of an instruction on the processor.
pub trait InstructionCicle {
    /// The executions that do not panic.
    spec fn safe_on(&self, s: ProcessorView) -> bool;

    /// The state after execution and the result.
    spec fn effect(&self, s: ProcessorView) -> Step;

    /// Executes the instruction on `processor`.
    fn execution(&self, processor: &mut Processor) -> (r: Result<(), ProcessorError>)
        requires
            old(processor)@.wf(),
            self.safe_on(old(processor)@),
        ensures
            (final(processor)@, res_view(r)) == self.effect(old(processor)@),
            final(processor)@.wf(),
    ;
}

/// Exec form of [`spec_load`].
fn exec_load(p: &mut Processor) -> (r: Result<(), ProcessorError>)
    requires
        old(p)@.wf(),
    ensures
        (final(p)@, res_view(r)) == spec_load(old(p)@),
        final(p)@.wf(),
{
    let pc = p.pc();
    let a = p.mem(pc)?;
    let v = p.mem(a)?;
    let rx = p.rx();
    p.set_reg(rx, v)?;
    p.inc_pc(1)?;
    Ok(())
}

/// Exec form of [`spec_loadn`].
fn exec_loadn(p: &mut Processor) -> (r: Result<(), ProcessorError>)
    requires
        old(p)@.wf(),
    ensures
        (final(p)@, res_view(r)) == spec_loadn(old(p)@),
        final(p)@.wf(),
{
    let pc = p.pc();
    let v = p.mem(pc)?;
    let rx = p.rx();
    p.set_reg(rx, v)?;
    p.inc_pc(1)?;
    Ok(())
}

/// Exec form of [`spec_loadi`].
fn exec_loadi(p: &mut Processor) -> (r: Result<(), ProcessorError>)
    requires
        old(p)@.wf(),
    ensures
        (final(p)@, res_view(r)) == spec_loadi(old(p)@),
        final(p)@.wf(),
{
    let ry = p.ry();
    let a = p.reg(ry)?;
    let v = p.mem(a)?;
    let rx = p.rx();
    p.set_reg(rx, v)?;
    Ok(())
}

/// Exec form of [`spec_store`].
fn exec_store(p: &mut Processor) -> (r: Result<(), ProcessorError>)
    requires
        old(p)@.wf(),
    ensures
        (final(p)@, res_view(r)) == spec_store(old(p)@),
        final(p)@.wf(),
{
    let pc = p.pc();
    let a = p.mem(pc)?;
    let v = p.reg(p.rx())?;
    p.set_mem(a, v)?;
    p.inc_pc(1)?;
    Ok(())
}

/// Exec form of [`spec_storen`].
fn exec_storen(p: &mut Processor) -> (r: Result<(), ProcessorError>)
    requires
        old(p)@.wf(),
    ensures
        (final(p)@, res_view(r)) == spec_storen(old(p)@),
        final(p)@.wf(),
{
    let pc = p.pc();
    let a = p.mem(pc)?;
    let v = p.mem(pc + 1)?;
    p.set_mem(a, v)?;
    p.inc_pc(2)?;
    Ok(())
}

/// Exec form of [`spec_storei`].
fn exec_storei(p: &mut Processor) -> (r: Result<(), ProcessorError>)
    requires
        old(p)@.wf(),
    ensures
        (final(p)@, res_view(r)) == spec_storei(old(p)@),
        final(p)@.wf(),
{
    let a = p.reg(p.rx())?;
    let v = p.reg(p.ry())?;
    p.set_mem(a, v)?;
    Ok(())
}

/// Exec form of [`spec_mov`].
fn exec_mov(p: &mut Processor) -> (r: Result<(), ProcessorError>)
    requires
        old(p)@.wf(),
    ensures
        (final(p)@, res_view(r)) == spec_mov(old(p)@),
        final(p)@.wf(),
{
    let rx = p.rx();
    match bits_of(p.ir(), 0, 1) {
        0 => {
            let v = p.reg(p.ry())?;
            p.set_reg(rx, v)?
        },
        1 => {
            let v = p.sp();
            p.set_reg(rx, v)?
        },
        _ => {
            let v = p.reg(rx)?;
            p.set_sp(v)?
        },
    }
    Ok(())
}


/// The description of the error for screen position `index`.
fn index_text(index: usize) -> (t: String)
    ensures
        t@ == index_message(index),
{
    let mut t = String::from_str("O índice ");
    let d = decimal_string(index);
    t.append(d.as_str());
    t.append(" não pertence ao intervalo de 0 a ");
    let d2 = decimal_string(VIDEO_BUFFER_LENGHT);
    t.append(d2.as_str());
    t.append(".");
    t
}

/// The description of the error for colour code `code`.
fn color_text(code: usize) -> (t: String)
    ensures
        t@ == color_message(code),
{
    let mut t = String::from_str("O código ");
    let d = decimal_string(code);
    t.append(d.as_str());
    t.append(" não representa nenhuma cor mapeada.");
    t
}

/// Exec form of [`spec_outchar`].
fn exec_outchar(p: &mut Processor) -> (r: Result<(), ProcessorError>)
    requires
        old(p)@.wf(),
    ensures
        (final(p)@, res_view(r)) == spec_outchar(old(p)@),
        final(p)@.wf(),
{
    let index = p.reg(p.ry())?;
    if index > VIDEO_BUFFER_LENGHT {
        return Err(
            ProcessorError::Generic {
                title: String::from_str("Índice inválido na Mémoria de Vídeo"),
                description: index_text(index),
            },
        );
    }
    let x = p.reg(p.rx())?;
    let low = bits_of(x, 0, 7);
    proof {
        assert(bits_spec(x, 0, 7) < 256) by (bit_vector);
    }
    let c = low as u8;
    let color_code = bits_of(p.reg(p.rx())?, 8, 15);
    match Color::color(color_code) {
        Some(color) => {
            p.set_written(Some(((c, color), index)));
            Ok(())
        },
        None => Err(
            ProcessorError::Generic {
                title: String::from_str("Cor inválida"),
                description: color_text(color_code),
            },
        ),
    }
}

/// Exec form of [`spec_add`].
fn exec_add(p: &mut Processor, with_carry: bool) -> (r: Result<(), ProcessorError>)
    requires
        old(p)@.wf(),
        add_safe(old(p)@, with_carry),
    ensures
        (final(p)@, res_view(r)) == spec_add(old(p)@, with_carry),
        final(p)@.wf(),
{
    let a = p.reg(p.ry())?;
    let b = p.reg(p.rz())?;
    let rx = p.rx();
    p.set_reg(rx, a + b)?;
    if with_carry {
        let x = p.reg(rx)?;
        let c = p.fr(FlagIndex::CARRY)?;
        let ci: usize = if c { 1 } else { 0 };
        p.set_reg(rx, x + ci)?;
    }
    p.ula_operation()?;
    let v = p.reg(rx)?;
    if v > MAX_VALUE_MEMORY {
        p.set_fr(FlagIndex::CARRY, true)?;
        p.set_fr(FlagIndex::ARITHMETIC_OVERFLOW, true)?;
        p.set_reg(rx, v - MAX_VALUE_MEMORY)?;
    }
    Ok(())
}

/// Exec form of [`spec_sub`].
fn exec_sub(p: &mut Processor, with_carry: bool) -> (r: Result<(), ProcessorError>)
    requires
        old(p)@.wf(),
        sub_safe(old(p)@, with_carry),
    ensures
        (final(p)@, res_view(r)) == spec_sub(old(p)@, with_carry),
        final(p)@.wf(),
{
    let a = p.reg(p.ry())?;
    let b = p.reg(p.rz())?;
    let ci: usize = if with_carry {
        if p.fr(FlagIndex::CARRY)? {
            1
        } else {
            0
        }
    } else {
        0
    };
    let sub: Option<usize> = if a >= b {
        Some((a - b) + ci)
    } else if ci == 1 && a + 1 == b {
        Some(0)
    } else {
        None
    };
    p.ula_operation()?;
    let rx = p.rx();
    match sub {
        Some(x) => {
            p.set_reg(rx, x)?;
            p.set_fr(FlagIndex::ZERO, false)?;
            p.set_fr(FlagIndex::NEGATIVE, false)?;
            if x == 0 {
                p.set_fr(FlagIndex::ZERO, true)?;
            }
        },
        None => {
            p.set_fr(FlagIndex::ZERO, false)?;
            p.set_fr(FlagIndex::NEGATIVE, true)?;
            p.set_reg(rx, 0)?;
        },
    }
    Ok(())
}

/// Exec form of [`spec_inc_dec`].
fn exec_inc_dec(p: &mut Processor, inc: bool) -> (r: Result<(), ProcessorError>)
    requires
        old(p)@.wf(),
    ensures
        (final(p)@, res_view(r)) == spec_inc_dec(old(p)@, inc),
        final(p)@.wf(),
{
    let x = p.reg(p.rx())?;
    let result = if inc {
        x.checked_add(1)
    } else {
        x.checked_sub(1)
    };
    p.ula_operation()?;
    let v = match result {
        Some(v) => if v > MAX_VALUE_MEMORY {
            p.set_fr(FlagIndex::CARRY, true)?;
            p.set_fr(FlagIndex::ARITHMETIC_OVERFLOW, true)?;
            v - MAX_VALUE_MEMORY
        } else if v == 0 {
            p.set_fr(FlagIndex::ZERO, true)?;
            v
        } else {
            v
        },
        None => {
            p.set_fr(FlagIndex::NEGATIVE, true)?;
            0
        },
    };
    let rx = p.rx();
    p.set_reg(rx, v)?;
    Ok(())
}

/// Exec form of [`spec_mod`].
fn exec_mod(p: &mut Processor) -> (r: Result<(), ProcessorError>)
    requires
        old(p)@.wf(),
        reg_of(old(p)@, old(p)@.rz) != 0,
    ensures
        (final(p)@, res_view(r)) == spec_mod(old(p)@),
        final(p)@.wf(),
{
    let a = p.reg(p.ry())?;
    let b = p.reg(p.rz())?;
    let rx = p.rx();
    p.set_reg(rx, a % b)?;
    p.ula_operation()?;
    if p.reg(rx)? == 0 {
        p.set_fr(FlagIndex::ZERO, true)?;
    }
    Ok(())
}

/// Exec form of [`logic_value`].
fn logic_of(i: Instruction, y: usize, z: usize) -> (v: usize)
    ensures
        v == logic_value(i, y, z),
{
    match i {
        Instruction::AND => y & z,
        Instruction::OR => y | z,
        Instruction::XOR => y ^ z,
        _ => !y,
    }
}

/// Exec form of [`spec_logic`].
fn exec_logic(p: &mut Processor, i: Instruction) -> (r: Result<(), ProcessorError>)
    requires
        old(p)@.wf(),
    ensures
        (final(p)@, res_view(r)) == spec_logic(old(p)@, i),
        final(p)@.wf(),
{
    let y = p.reg(p.ry())?;
    let z = p.reg(p.rz())?;
    let rx = p.rx();
    p.set_reg(rx, logic_of(i, y, z))?;
    p.set_fr(FlagIndex::ZERO, false)?;
    if p.reg(rx)? == 0 {
        p.set_fr(FlagIndex::ZERO, true)?;
    }
    Ok(())
}

/// Exec form of [`shift_value`].
fn shift_of(i: Instruction, x: usize, n: usize) -> (v: usize)
    requires
        n < 16,
    ensures
        v == shift_value(i, x, n),
{
    let w = x & 0xffff;
    match i {
        Instruction::SHIFTL0 => (w << n) & 0xffff,
        Instruction::SHIFTL1 => (!((!w) << n)) & 0xffff,
        Instruction::SHIFTR0 => w >> n,
        _ => (!(((!w) & 0xffff) >> n)) & 0xffff,
    }
}

/// Exec form of [`spec_shift`].
fn exec_shift(p: &mut Processor, i: Instruction) -> (r: Result<(), ProcessorError>)
    requires
        old(p)@.wf(),
    ensures
        (final(p)@, res_view(r)) == spec_shift(old(p)@, i),
        final(p)@.wf(),
{
    p.ula_operation()?;
    let ir = p.ir();
    let n = bits_of(ir, 0, 3);
    proof {
        assert(bits_spec(ir, 0, 3) < 16) by (bit_vector);
    }
    let x = p.reg(p.rx())?;
    let v = shift_of(i, x, n);
    let rx = p.rx();
    p.set_reg(rx, v)?;
    if p.reg(rx)? == 0 {
        p.set_fr(FlagIndex::ZERO, true)?;
    }
    Ok(())
}

/// Exec form of [`rotate_value`].
fn rotate_of(i: Instruction, x: usize, n: usize) -> (v: usize)
    requires
        n < 16,
    ensures
        v == rotate_value(i, x, n),
{
    let w = x & 0xffff;
    match i {
        Instruction::ROTL => ((w << n) | (w >> (16 - n))) & 0xffff,
        _ => ((w >> n) | (w << (16 - n))) & 0xffff,
    }
}

/// Exec form of [`spec_rotate`].
fn exec_rotate(p: &mut Processor, i: Instruction) -> (r: Result<(), ProcessorError>)
    requires
        old(p)@.wf(),
    ensures
        (final(p)@, res_view(r)) == spec_rotate(old(p)@, i),
        final(p)@.wf(),
{
    p.ula_operation()?;
    let ir = p.ir();
    let n = bits_of(ir, 0, 3);
    proof {
        assert(bits_spec(ir, 0, 3) < 16) by (bit_vector);
    }
    let x = p.reg(p.rx())?;
    let v = rotate_of(i, x, n);
    let rx = p.rx();
    p.set_reg(rx, v)?;
    if p.reg(rx)? == 0 {
        p.set_fr(FlagIndex::ZERO, true)?;
    }
    Ok(())
}

/// Exec form of [`spec_cmp`].
fn exec_cmp(p: &mut Processor) -> (r: Result<(), ProcessorError>)
    requires
        old(p)@.wf(),
    ensures
        (final(p)@, res_view(r)) == spec_cmp(old(p)@),
        final(p)@.wf(),
{
    p.ula_operation()?;
    let a = p.reg(p.rx())?;
    let b = p.reg(p.ry())?;
    if a < b {
        p.set_fr(FlagIndex::LESSER, true)?;
    } else if a == b {
        p.set_fr(FlagIndex::EQUAL, true)?;
    } else {
        p.set_fr(FlagIndex::GREATER, true)?;
    }
    Ok(())
}


/// Exec form of [`jump_taken`].
fn condition(p: &Processor, i: Instruction) -> (b: bool)
    requires
        p@.wf(),
    ensures
        b == jump_taken(i, p@),
{
    let eq = flag(p, FlagIndex::EQUAL);
    let zero = flag(p, FlagIndex::ZERO);
    let carry = flag(p, FlagIndex::CARRY);
    let greater = flag(p, FlagIndex::GREATER);
    let lesser = flag(p, FlagIndex::LESSER);
    let overflow = flag(p, FlagIndex::ARITHMETIC_OVERFLOW);
    let div_zero = flag(p, FlagIndex::DIV_BY_ZERO);
    let negative = flag(p, FlagIndex::NEGATIVE);
    match i {
        Instruction::JMP | Instruction::CALL => true,
        Instruction::JEQ | Instruction::CEQ => eq,
        Instruction::JNE | Instruction::CNE => !eq,
        Instruction::JZ | Instruction::CZ => zero,
        Instruction::JNZ | Instruction::CNZ => !zero,
        Instruction::JC | Instruction::CC => carry,
        Instruction::JNC | Instruction::CNC => !carry,
        Instruction::JGR | Instruction::CGR => greater,
        Instruction::JLE | Instruction::CLE => lesser,
        Instruction::JEG | Instruction::CEG => eq || greater,
        Instruction::JEL | Instruction::CEL => eq || lesser,
        Instruction::JOV | Instruction::COV => overflow,
        Instruction::JNO | Instruction::CNO => !overflow,
        Instruction::JDZ | Instruction::CDZ => div_zero,
        Instruction::JN | Instruction::CN => negative,
        _ => false,
    }
}

/// Flag `k` (one of the sixteen flags) of `p`.
fn flag(p: &Processor, k: usize) -> (b: bool)
    requires
        p@.wf(),
        k < NUM_FLAGS,
    ensures
        b == p@.fr[k as int],
{
    match p.fr(k) {
        Ok(b) => b,
        Err(_) => false,
    }
}

/// Exec form of [`spec_jump`].
fn exec_jump(p: &mut Processor, i: Instruction) -> (r: Result<(), ProcessorError>)
    requires
        old(p)@.wf(),
        !jump_taken(i, old(p)@) ==> old(p)@.pc + 1 <= usize::MAX,
    ensures
        (final(p)@, res_view(r)) == spec_jump(old(p)@, i),
        final(p)@.wf(),
{
    if condition(p, i) {
        let a = p.mem(p.pc())?;
        p.set_pc(a)?;
    } else {
        p.inc_pc(1)?;
    }
    Ok(())
}

/// Exec form of [`spec_call`].
fn exec_call(p: &mut Processor, i: Instruction) -> (r: Result<(), ProcessorError>)
    requires
        old(p)@.wf(),
        !jump_taken(i, old(p)@) ==> old(p)@.pc + 1 <= usize::MAX,
    ensures
        (final(p)@, res_view(r)) == spec_call(old(p)@, i),
        final(p)@.wf(),
{
    if condition(p, i) {
        let sp = p.sp();
        let pc = p.pc();
        p.set_mem(sp, pc)?;
        p.dec_sp(1)?;
        let a = p.mem(p.pc())?;
        p.set_pc(a)?;
    } else {
        p.inc_pc(1)?;
    }
    Ok(())
}

/// Exec form of [`spec_rts`].
fn exec_rts(p: &mut Processor) -> (r: Result<(), ProcessorError>)
    requires
        old(p)@.wf(),
        old(p)@.sp + 1 <= usize::MAX,
    ensures
        (final(p)@, res_view(r)) == spec_rts(old(p)@),
        final(p)@.wf(),
{
    p.inc_sp(1)?;
    let a = p.mem(p.sp())?;
    p.set_pc(a)?;
    p.inc_pc(1)?;
    Ok(())
}

/// Exec form of [`spec_rti`].
fn exec_rti(p: &mut Processor) -> (r: Result<(), ProcessorError>)
    requires
        old(p)@.wf(),
        old(p)@.sp + 1 <= usize::MAX,
    ensures
        (final(p)@, res_view(r)) == spec_rti(old(p)@),
        final(p)@.wf(),
{
    p.inc_sp(1)?;
    let a = p.mem(p.sp())?;
    p.set_pc(a)?;
    Ok(())
}

/// `two_pow` does not decrease.
proof fn lemma_two_pow_mono(a: nat, b: nat)
    requires
        a <= b,
    ensures
        two_pow(a) <= two_pow(b),
    decreases b,
{
    if a < b {
        lemma_two_pow_mono(a, (b - 1) as nat);
    }
}

/// The flag register as a number ([`flags_from`] from flag 0).
fn flags_value(p: &Processor) -> (v: usize)
    requires
        p@.wf(),
    ensures
        v == flags_from(p@.fr, 0),
{
    let mut v: usize = 0;
    let mut k: usize = NUM_FLAGS;
    proof {
        reveal_with_fuel(two_pow, 17);
    }
    while k > 0
        invariant
            k <= NUM_FLAGS,
            p@.wf(),
            v == flags_from(p@.fr, k as nat),
            v < two_pow((NUM_FLAGS - k) as nat),
            two_pow(16) == 65536,
        decreases k,
    {
        k = k - 1;
        proof {
            lemma_two_pow_mono((NUM_FLAGS - k - 1) as nat, 15);
            reveal_with_fuel(two_pow, 2);
        }
        let b: usize = if flag(p, k) { 1 } else { 0 };
        v = b + 2 * v;
    }
    v
}

/// Exec form of [`spec_push`].
fn exec_push(p: &mut Processor) -> (r: Result<(), ProcessorError>)
    requires
        old(p)@.wf(),
    ensures
        (final(p)@, res_view(r)) == spec_push(old(p)@),
        final(p)@.wf(),
{
    let ir = p.ir();
    let sel = bits_of(ir, 6, 6);
    if sel == 0 {
        let v = p.reg(p.rx())?;
        p.set_mem(p.sp(), v)?;
    } else {
        let v = flags_value(p);
        p.set_mem(p.sp(), v)?;
    }
    p.dec_sp(1)?;
    Ok(())
}

/// Exec form of [`spec_pop`].
fn exec_pop(p: &mut Processor) -> (r: Result<(), ProcessorError>)
    requires
        old(p)@.wf(),
        old(p)@.sp + 1 <= usize::MAX,
    ensures
        (final(p)@, res_view(r)) == spec_pop(old(p)@),
        final(p)@.wf(),
{
    p.inc_sp(1)?;
    let ir = p.ir();
    let sel = bits_of(ir, 6, 6);
    if sel == 0 {
        let m = p.mem(p.sp())?;
        let rx = p.rx();
        p.set_reg(rx, m)?;
    } else {
        let m = p.mem(p.sp())?;
        let ghost t = p@;
        let mut k: usize = 0;
        while k < NUM_FLAGS
            invariant
                k <= NUM_FLAGS,
                p@ == (ProcessorView {
                    fr: Seq::new(
                        NUM_FLAGS as nat,
                        |i: int| if i < k { bits_spec(m, i as usize, i as usize) != 0 } else { t.fr[i] },
                    ),
                    ..t
                }),
                t.wf(),
            decreases NUM_FLAGS - k,
        {
            let b = bits_of(m, k, k) != 0;
            p.set_fr(k, b)?;
            k += 1;
            assert(p@.fr =~= Seq::new(
                NUM_FLAGS as nat,
                |i: int| if i < k { bits_spec(m, i as usize, i as usize) != 0 } else { t.fr[i] },
            ));
        }
        assert(p@.fr =~= flags_of_word(m));
    }
    Ok(())
}


impl InstructionCicle for Instruction {
    open spec fn safe_on(&self, s: ProcessorView) -> bool {
        exec_safe(*self, s)
    }

    open spec fn effect(&self, s: ProcessorView) -> Step {
        execute(*self, s)
    }

    fn execution(&self, p: &mut Processor) -> (r: Result<(), ProcessorError>) {
        let i = *self;
        match i {
            Instruction::LOAD => exec_load(p),
            Instruction::LOADN => exec_loadn(p),
            Instruction::LOADI => exec_loadi(p),
            Instruction::STORE => exec_store(p),
            Instruction::STOREN => exec_storen(p),
            Instruction::STOREI => exec_storei(p),
            Instruction::MOV => exec_mov(p),
            Instruction::OUTCHAR => exec_outchar(p),
            Instruction::ADD => exec_add(p, false),
            Instruction::ADDC => exec_add(p, true),
            Instruction::SUB => exec_sub(p, false),
            Instruction::SUBC => exec_sub(p, true),
            Instruction::INC => exec_inc_dec(p, true),
            Instruction::DEC => exec_inc_dec(p, false),
            Instruction::MOD => exec_mod(p),
            Instruction::AND | Instruction::OR | Instruction::XOR | Instruction::NOT => exec_logic(p, i),
            Instruction::SHIFTL0 | Instruction::SHIFTL1 | Instruction::SHIFTR0
            | Instruction::SHIFTR1 => exec_shift(p, i),
            Instruction::ROTL | Instruction::ROTR => exec_rotate(p, i),
            Instruction::CMP => exec_cmp(p),
            Instruction::JMP | Instruction::JEQ | Instruction::JNE | Instruction::JZ
            | Instruction::JNZ | Instruction::JC | Instruction::JNC | Instruction::JGR
            | Instruction::JLE | Instruction::JEG | Instruction::JEL | Instruction::JOV
            | Instruction::JNO | Instruction::JDZ | Instruction::JN => exec_jump(p, i),
            Instruction::CALL | Instruction::CEQ | Instruction::CNE | Instruction::CZ
            | Instruction::CNZ | Instruction::CC | Instruction::CNC | Instruction::CGR
            | Instruction::CLE | Instruction::CEG | Instruction::CEL | Instruction::COV
            | Instruction::CNO | Instruction::CDZ | Instruction::CN => exec_call(p, i),
            Instruction::RTS => exec_rts(p),
            Instruction::RTI => exec_rti(p),
            Instruction::PUSH => exec_push(p),
            Instruction::POP => exec_pop(p),
            Instruction::NOP => Ok(()),
            Instruction::HALT => {
                p.set_status(ProcessorStatus::Halted);
                Ok(())
            },
            Instruction::CLEARC => {
                p.set_fr(FlagIndex::CARRY, false)?;
                Ok(())
            },
            Instruction::SETC => {
                p.set_fr(FlagIndex::CARRY, true)?;
                Ok(())
            },
            Instruction::BREAKP => {
                p.set_status(ProcessorStatus::Debug);
                Ok(())
            },
            // INPUT, OUTPUT, INCHAR, SOUND, MUL and DIV: excluded by `safe_on`.
            _ => Ok(()),
        }
    }
}

impl Processor {
    /// Whether the next instruction cycle can run without panicking (see
    /// [`cycle_safe`]): a caller that cannot prove [`cycle_safe`] tests it
    /// here before calling [`Processor::instruction_cicle`].
    pub fn cycle_is_safe(&self) -> (b: bool)
        requires
            self@.wf(),
        ensures
            b == cycle_safe(self@),
    {
        let pc = self.pc();
        let w = match self.mem(pc) {
            Ok(w) => w,
            Err(_) => {
                return true;
            },
        };
        if pc + 1 > ADDR_PROG_AND_VAR_END {
            return true;
        }
        let i = match Instruction::get_instruction(w) {
            Ok(i) => i,
            Err(_) => {
                return true;
            },
        };
        proof {
            assert(bits_spec(w, 7, 9) < 8 && bits_spec(w, 4, 6) < 8 && bits_spec(w, 1, 3) < 8) by (bit_vector);
        }
        let y = bits_of(w, 4, 6);
        let z = bits_of(w, 1, 3);
        let ry = match self.reg(y) {
            Ok(v) => v,
            Err(_) => 0,
        };
        let rz = match self.reg(z) {
            Ok(v) => v,
            Err(_) => 0,
        };
        let carry: usize = if flag(self, FlagIndex::CARRY) { 1 } else { 0 };
        let sp = self.sp();
        match i {
            Instruction::INPUT | Instruction::OUTPUT | Instruction::INCHAR | Instruction::SOUND
            | Instruction::MUL | Instruction::DIV => false,
            Instruction::ADD => ry <= usize::MAX - rz,
            Instruction::ADDC => ry <= usize::MAX - rz && ry + rz <= usize::MAX - carry,
            Instruction::SUBC => !(carry == 1 && ry >= rz && ry - rz == usize::MAX),
            Instruction::MOD => rz != 0,
            Instruction::RTS | Instruction::RTI | Instruction::POP => sp < usize::MAX,
            Instruction::JMP | Instruction::JEQ | Instruction::JNE | Instruction::JZ
            | Instruction::JNZ | Instruction::JC | Instruction::JNC | Instruction::JGR
            | Instruction::JLE | Instruction::JEG | Instruction::JEL | Instruction::JOV
            | Instruction::JNO | Instruction::JDZ | Instruction::JN | Instruction::CALL
            | Instruction::CEQ | Instruction::CNE | Instruction::CZ | Instruction::CNZ
            | Instruction::CC | Instruction::CNC | Instruction::CGR | Instruction::CLE
            | Instruction::CEG | Instruction::CEL | Instruction::COV | Instruction::CNO
            | Instruction::CDZ | Instruction::CN => condition(self, i) || pc + 1 < usize::MAX,
            _ => true,
        }
    }

    /// The execution stage: executes `instruction`.
    fn execution_stage(&mut self, instruction: Instruction) -> (r: Result<(), ProcessorError>)
        requires
            old(self)@.wf(),
            exec_safe(instruction, old(self)@),
        ensures
            (final(self)@, res_view(r)) == execute(instruction, old(self)@),
            final(self)@.wf(),
    {
        instruction.execution(self)
    }

    /// One instruction cycle: fetch, decode and execute.
    ///
    /// # Errors
    ///
    /// Any [`ProcessorError`] of the three stages; the state is then the one
    /// the failing stage left.
    pub fn instruction_cicle(&mut self) -> (r: Result<(), ProcessorError>)
        requires
            old(self)@.wf(),
            cycle_safe(old(self)@),
        ensures
            (final(self)@, res_view(r)) == cycle(old(self)@),
            final(self)@.wf(),
    {
        self.fetch_stage()?;
        let inst = self.decode_stage()?;
        self.execution_stage(inst)
    }
}

// ---------------------------------------------------------------- laws

/// `POP` undoes `PUSH`: pushing register `Rx` (bit 6 of `IR` clear) from a
/// stack pointer inside the stack stores `Rx` at the stack pointer and moves
/// the pointer down. Any later `POP Ry` (bit 6 clear, any register field),
/// run when the stack pointer is back where the push left it and the pushed
/// word is still in its cell (whatever ran in between), succeeds, puts the
/// pushed value in `Ry`, leaves the other registers as they are and
/// restores the stack pointer.
pub proof fn law_push_then_pop(s: ProcessorView, u: ProcessorView)
    requires
        s.wf(),
        u.wf(),
        s.sp <= ADDR_STACK_END,
        bits_spec(s.ir, 6, 6) == 0,
        execute(Instruction::PUSH, s).1 is Ok,
        bits_spec(u.ir, 6, 6) == 0,
        u.sp == execute(Instruction::PUSH, s).0.sp,
        s.sp < u.ram.len(),
        u.ram[s.sp as int] == execute(Instruction::PUSH, s).0.ram[s.sp as int],
    ensures
        execute(Instruction::PUSH, s).0.ram[s.sp as int] == reg_of(s, s.rx),
        execute(Instruction::PUSH, s).0.sp == s.sp - 1,
        execute(Instruction::POP, u).1 is Ok,
        execute(Instruction::POP, u).0.sp == s.sp,
        execute(Instruction::POP, u).0.registers == u.registers.update(u.rx as int, reg_of(s, s.rx)),
{
}

/// `RTS` returns from `CALL`: a taken call from a stack pointer inside the
/// stack that succeeds saves the address of its address word at the stack
/// pointer, moves the pointer down and jumps. Any later `RTS`, run when the
/// callee has left the stack pointer where the call put it and the saved
/// word in its cell, succeeds, goes to the word after the call's address
/// word and restores the stack pointer.
pub proof fn law_call_then_rts(s: ProcessorView, i: Instruction, u: ProcessorView)
    requires
        s.wf(),
        is_call(i),
        jump_taken(i, s),
        s.sp <= ADDR_STACK_END,
        s.pc + 1 <= ADDR_PROG_AND_VAR_END,
        execute(i, s).1 is Ok,
        u.sp == execute(i, s).0.sp,
        s.sp < u.ram.len(),
        u.ram[s.sp as int] == execute(i, s).0.ram[s.sp as int],
    ensures
        execute(i, s).0.ram[s.sp as int] == s.pc,
        execute(i, s).0.sp == s.sp - 1,
        execute(i, s).0.pc == s.ram[s.pc as int],
        execute(Instruction::RTS, u).1 is Ok,
        execute(Instruction::RTS, u).0.pc == s.pc + 1,
        execute(Instruction::RTS, u).0.sp == s.sp,
{
    assert(is_call(i) ==> !is_jump(i));
}

/// Reading register `m` after writing `v` to a valid register `n` gives `v`
/// when `m` is `n`, and what it gave before otherwise.
pub proof fn law_register_read_after_write(s: ProcessorView, n: usize, v: usize, m: usize)
    requires
        n < s.registers.len(),
    ensures
        s.write_reg(n, v).1 is Ok,
        s.write_reg(n, v).0.read_reg(m) == if m == n {
            Ok(v)
        } else {
            s.read_reg(m)
        },
{
}

/// Reading address `b` after writing `v` at a valid address `a` gives `v`
/// when `b` is `a`, and what it gave before otherwise.
pub proof fn law_memory_read_after_write(s: ProcessorView, a: usize, v: usize, b: usize)
    requires
        a < s.ram.len(),
    ensures
        s.write_mem(a, v).1 is Ok,
        s.write_mem(a, v).0.read_mem(b) == if b == a {
            Ok(v)
        } else {
            s.read_mem(b)
        },
{
}

/// Halving `b + 2y` (with `b` a bit) gives `y`, and its low bit is `b`.
proof fn lemma_half(b: usize, y: usize)
    requires
        b <= 1,
        y < 0x10000,
    ensures
        (b + 2 * y) as usize >> 1usize == y,
        (b + 2 * y) as usize & 1usize == b,
{
    assert((b + 2 * y) as usize >> 1usize == y && (b + 2 * y) as usize & 1usize == b) by (bit_vector)
        requires
            b <= 1,
            y < 0x10000,
    ;
}

/// The flags `k..16` read as a number are below `2^(16-k)`.
proof fn lemma_flags_bound(fr: Seq<bool>, k: nat)
    requires
        k <= NUM_FLAGS,
    ensures
        flags_from(fr, k) < two_pow((NUM_FLAGS - k) as nat),
    decreases NUM_FLAGS - k,
{
    if k < NUM_FLAGS {
        lemma_flags_bound(fr, k + 1);
        assert(two_pow((NUM_FLAGS - k) as nat) == 2 * two_pow((NUM_FLAGS - (k + 1)) as nat));
    }
}

/// `2^k` for `k <= 16` is at most `2^16`.
proof fn lemma_two_pow_small(k: nat)
    requires
        k <= 16,
    ensures
        two_pow(k) <= 0x10000,
{
    lemma_two_pow_mono(k, 16);
    reveal_with_fuel(two_pow, 17);
}

/// Shifting the flag word right by `k` leaves the flags `k..16`.
proof fn lemma_flags_shift(fr: Seq<bool>, k: nat)
    requires
        k <= NUM_FLAGS,
    ensures
        (flags_from(fr, 0) as usize) >> (k as usize) == flags_from(fr, k) as usize,
    decreases k,
{
    lemma_flags_bound(fr, 0);
    lemma_two_pow_small(16);
    let m = flags_from(fr, 0) as usize;
    if k == 0 {
        assert(m >> 0usize == m) by (bit_vector);
    } else {
        let j = (k - 1) as nat;
        lemma_flags_shift(fr, j);
        let ju = j as usize;
        assert((m >> ju) >> 1usize == m >> ((ju + 1) as usize)) by (bit_vector)
            requires
                ju < 16,
        ;
        lemma_flags_bound(fr, k);
        lemma_two_pow_small((NUM_FLAGS - k) as nat);
        let b: usize = if fr[j as int] { 1 } else { 0 };
        assert(flags_from(fr, j) == b + 2 * flags_from(fr, k));
        lemma_half(b, flags_from(fr, k) as usize);
        assert(((ju + 1) as usize) == k as usize);
    }
}

/// Reading the flag word back flag by flag gives the flags.
proof fn lemma_flags_round_trip(fr: Seq<bool>)
    requires
        fr.len() == NUM_FLAGS,
    ensures
        flags_of_word(flags_from(fr, 0) as usize) == fr,
{
    let m = flags_from(fr, 0) as usize;
    assert(low_mask(1) == 1) by {
        assert((1usize << 1usize) == 2usize) by (bit_vector);
    }
    assert forall|i: int| 0 <= i < NUM_FLAGS implies #[trigger] flags_of_word(m)[i] == fr[i] by {
        lemma_flags_shift(fr, i as nat);
        lemma_flags_bound(fr, (i + 1) as nat);
        lemma_two_pow_small((NUM_FLAGS - (i + 1)) as nat);
        let b: usize = if fr[i] { 1 } else { 0 };
        lemma_half(b, flags_from(fr, (i + 1) as nat) as usize);
    }
    assert(flags_of_word(m) =~= fr);
}

/// `POP FR` undoes `PUSH FR`: pushing the flags (bit 6 of `IR` set) from a
/// stack pointer inside the stack moves the pointer down; any later
/// `POP FR` (bit 6 set), run when the stack pointer is back where the push
/// left it and the pushed word is still in its cell, succeeds and restores
/// the flags and the stack pointer.
pub proof fn law_push_then_pop_flags(s: ProcessorView, u: ProcessorView)
    requires
        s.wf(),
        u.wf(),
        s.sp <= ADDR_STACK_END,
        bits_spec(s.ir, 6, 6) != 0,
        execute(Instruction::PUSH, s).1 is Ok,
        bits_spec(u.ir, 6, 6) != 0,
        u.sp == execute(Instruction::PUSH, s).0.sp,
        s.sp < u.ram.len(),
        u.ram[s.sp as int] == execute(Instruction::PUSH, s).0.ram[s.sp as int],
    ensures
        execute(Instruction::PUSH, s).0.sp == s.sp - 1,
        execute(Instruction::POP, u).1 is Ok,
        execute(Instruction::POP, u).0.fr == s.fr,
        execute(Instruction::POP, u).0.sp == s.sp,
{
    lemma_flags_round_trip(s.fr);
    lemma_flags_bound(s.fr, 0);
    lemma_two_pow_small(16);
}

/// `CMP` orders `Rx` and `Ry`: after a compare, the lesser flag is set
/// exactly when `Rx` < `Ry`, the equal flag exactly when they are equal and
/// the greater flag exactly when `Rx` > `Ry`; so a following `JLE` jumps
/// exactly when `Rx` < `Ry`, `JGR` when `Rx` > `Ry`, `JEQ` when they are
/// equal, `JEL` when `Rx` <= `Ry` and `JEG` when `Rx` >= `Ry`. Registers,
/// memory and the special registers are left as they were.
pub proof fn law_compare(s: ProcessorView)
    requires
        s.wf(),
    ensures
        ({
            let (t, r) = execute(Instruction::CMP, s);
            let x = s.registers[s.rx as int];
            let y = s.registers[s.ry as int];
            &&& r is Ok
            &&& t.fr[FlagIndex::LESSER as int] == (x < y)
            &&& t.fr[FlagIndex::EQUAL as int] == (x == y)
            &&& t.fr[FlagIndex::GREATER as int] == (x > y)
            &&& jump_taken(Instruction::JLE, t) == (x < y)
            &&& jump_taken(Instruction::JGR, t) == (x > y)
            &&& jump_taken(Instruction::JEQ, t) == (x == y)
            &&& jump_taken(Instruction::JNE, t) == (x != y)
            &&& jump_taken(Instruction::JEL, t) == (x <= y)
            &&& jump_taken(Instruction::JEG, t) == (x >= y)
            &&& t.registers == s.registers
            &&& t.ram == s.ram
            &&& t.pc == s.pc
            &&& t.sp == s.sp
        }),
{
}

} // verus!
