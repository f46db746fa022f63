//! What the simulator's memory view and register panel show: which memory
//! words hold instructions, addresses or data, the rows of the view, and
//! the texts of the registers.
use vstd::prelude::*;

use crate::display::InstructionDisplay;
use crate::isa::{decode_word, Instruction, MemoryCell};
use crate::layout::{data_area, data_area_spec, ADDR_PROG_AND_VAR_END, ADDR_RETURN};
use crate::processor::{Processor, ProcessorView, MEMORY_SIZE, NUM_REGISTERS};
use crate::number::{parse_radix, parse_radix_chars};
use crate::token::{
    address_patterns, address_syntax, lemma_decimal_syntax_parses, pattern_texts, regex_set_matches,
};
use crate::text::{
    ascii_digit, ascii_hexdigit, binary, binary_chars, chars_of, decimal, decimal_string,
    hex_chars, hex_upper, pad_zeros, string_of, zero_padded,
};
use vstd::slice::slice_subrange;

verus! {

/// What a word of memory holds, for the memory view.
#[derive(Debug, Clone, Copy, PartialEq, Eq, Structural)]
pub enum MemoryValue {
    Instruction,
    Address,
    Data,
}

/// The words that follow an instruction word as its operands: an address
/// after loads, stores, jumps and calls, a value after `LOADN`, both after
/// `STOREN`.
pub open spec fn operand_values(i: Instruction) -> Seq<MemoryValue> {
    match i {
        Instruction::LOAD | Instruction::STORE | Instruction::JMP | Instruction::JEQ | Instruction::JNE | Instruction::JZ | Instruction::JNZ | Instruction::JC | Instruction::JNC | Instruction::JGR | Instruction::JLE | Instruction::JEG | Instruction::JEL | Instruction::JOV | Instruction::JNO | Instruction::JDZ | Instruction::JN | Instruction::CALL | Instruction::CEQ | Instruction::CNE | Instruction::CZ | Instruction::CNZ | Instruction::CC | Instruction::CNC | Instruction::CGR | Instruction::CLE | Instruction::CEG | Instruction::CEL | Instruction::COV | Instruction::CNO | Instruction::CDZ | Instruction::CN => seq![MemoryValue::Address],
        Instruction::LOADN => seq![MemoryValue::Data],
        Instruction::STOREN => seq![MemoryValue::Address, MemoryValue::Data],
        _ => Seq::empty(),
    }
}

/// The instructions the memory view does not classify (input, output and
/// sound).
pub open spec fn unclassified(i: Instruction) -> bool {
    i == Instruction::INPUT || i == Instruction::OUTPUT || i == Instruction::SOUND
}

/// The operand words that follow the word `mem[a]` read as an instruction
/// (none for a word that decodes to no instruction).
#[verifier::opaque]
pub open spec fn operands_at(mem: Seq<usize>, a: int) -> Seq<MemoryValue> {
    match decode_word(mem[a]) {
        Some(i) => operand_values(i),
        None => Seq::empty(),
    }
}

/// What the words from address `a` on hold: in the program area each word
/// is read as an instruction, followed by its operand words (a word that
/// decodes to no instruction still counts as one); every other word up to
/// the return address is data.
pub open spec fn values_from(mem: Seq<usize>, a: nat) -> Seq<MemoryValue>
    decreases ADDR_RETURN + 1 - a,
{
    if a <= ADDR_PROG_AND_VAR_END {
        proof {
            lemma_operands_not_instruction(mem, a as int);
        }
        seq![MemoryValue::Instruction] + operands_at(mem, a as int) + values_from(
            mem,
            a + 1 + operands_at(mem, a as int).len(),
        )
    } else if a <= ADDR_RETURN {
        seq![MemoryValue::Data] + values_from(mem, a + 1)
    } else {
        Seq::empty()
    }
}

/// Classifying from address `a` on does not panic: every word read lies in
/// memory and decodes to no instruction that the view leaves unclassified.
pub open spec fn values_safe(mem: Seq<usize>, a: nat) -> bool
    decreases ADDR_RETURN + 1 - a,
{
    if a <= ADDR_PROG_AND_VAR_END {
        &&& a < mem.len()
        &&& (decode_word(mem[a as int]) matches Some(i) ==> !unclassified(i))
        &&& {
            proof {
                lemma_operands_not_instruction(mem, a as int);
            }
            values_safe(mem, a + 1 + operands_at(mem, a as int).len())
        }
    } else if a <= ADDR_RETURN {
        values_safe(mem, a + 1)
    } else {
        true
    }
}

/// The classification from address `a` on has one entry per address up to
/// the return address.
proof fn lemma_values_len(mem: Seq<usize>, a: nat)
    requires
        a <= ADDR_RETURN + 1,
    ensures
        values_from(mem, a).len() == ADDR_RETURN + 1 - a,
    decreases ADDR_RETURN + 1 - a,
{
    if a <= ADDR_PROG_AND_VAR_END {
        lemma_operands_not_instruction(mem, a as int);
        lemma_values_len(mem, a + 1 + operands_at(mem, a as int).len());
    } else if a <= ADDR_RETURN {
        lemma_values_len(mem, a + 1)
    }
}

/// No operand word is an instruction.
pub proof fn lemma_operands_not_instruction(mem: Seq<usize>, a: int)
    ensures
        operands_at(mem, a).len() <= 2,
        forall|k: int| 0 <= k < operands_at(mem, a).len() ==> #[trigger] operands_at(mem, a)[k]
            != MemoryValue::Instruction,
{
    reveal(operands_at);
}

/// What the classification from address `b` says of address `a`: an
/// instruction in the program area is followed by its operand words and,
/// still in the program area, by the next instruction; from three past the
/// program area on, every address is data.
pub open spec fn kind_facts(mem: Seq<usize>, b: nat, a: int) -> bool {
    let v = values_from(mem, b);
    let ops = operands_at(mem, a);
    let next = a + 1 + ops.len();
    &&& (a <= ADDR_PROG_AND_VAR_END && v[a - b] == MemoryValue::Instruction ==> {
        &&& (ops.len() > 0 ==> v[a - b + 1] == ops[0])
        &&& (ops.len() > 1 ==> v[a - b + 2] == ops[1])
        &&& (next <= ADDR_PROG_AND_VAR_END ==> v[next - b] == MemoryValue::Instruction)
    })
    &&& (ADDR_PROG_AND_VAR_END + 3 <= a ==> v[a - b] == MemoryValue::Data)
}

/// The classification from `b` starts with an instruction and its operand
/// words in the program area, with data after it.
proof fn lemma_values_split(mem: Seq<usize>, b: nat)
    requires
        b <= ADDR_RETURN,
    ensures
        b <= ADDR_PROG_AND_VAR_END ==> values_from(mem, b) == seq![MemoryValue::Instruction]
            + operands_at(mem, b as int) + values_from(mem, b + 1 + operands_at(mem, b as int).len()),
        b > ADDR_PROG_AND_VAR_END ==> values_from(mem, b) == seq![MemoryValue::Data] + values_from(
            mem,
            b + 1,
        ),
{
}

/// [`kind_facts`] holds of every address `a` from `b` to the return address.
proof fn lemma_kind_at(mem: Seq<usize>, b: nat, a: int)
    requires
        b <= a <= ADDR_RETURN,
    ensures
        kind_facts(mem, b, a),
    decreases a - b,
{
    let v = values_from(mem, b);
    lemma_values_split(mem, b);
    lemma_values_len(mem, b);
    if b <= ADDR_PROG_AND_VAR_END {
        let ops = operands_at(mem, b as int);
        lemma_operands_not_instruction(mem, b as int);
        let next = (b + 1 + ops.len()) as nat;
        let w = values_from(mem, next);
        lemma_values_len(mem, next);
        if a == b {
            assert(v[0] == MemoryValue::Instruction);
            if ops.len() > 0 {
                assert(v[1] == ops[0]);
            }
            if ops.len() > 1 {
                assert(v[2] == ops[1]);
            }
            if next <= ADDR_PROG_AND_VAR_END {
                lemma_values_split(mem, next);
                assert(v[next - b] == w[0]);
            }
        } else if a < next {
            assert(v[a - b] == ops[a - b - 1]);
            assert(ops[a - b - 1] != MemoryValue::Instruction);
        } else {
            lemma_kind_at(mem, next, a);
            let opsa = operands_at(mem, a);
            lemma_operands_not_instruction(mem, a);
            assert(v[a - b] == w[a - next]);
            if a - next + 1 < w.len() {
                assert(v[a - b + 1] == w[a - next + 1]);
            }
            if a - next + 2 < w.len() {
                assert(v[a - b + 2] == w[a - next + 2]);
            }
            if a + 1 + opsa.len() <= ADDR_PROG_AND_VAR_END {
                assert(v[a + 1 + opsa.len() - b] == w[a + 1 + opsa.len() - next]);
            }
        }
    } else {
        let w = values_from(mem, b + 1);
        if a > b {
            lemma_kind_at(mem, b + 1, a);
            assert(v[a - b] == w[a - (b + 1)]);
        }
    }
}

/// What [`memory_info`] says of each address: address 0 holds an
/// instruction; an instruction in the program area is followed by its
/// operand words (an address after loads, stores, jumps and calls, a value
/// after `LOADN`, both after `STOREN`) and then, still in the program area,
/// by the next instruction; every address from three past the program area
/// to the return address is data; and there is one entry per address.
pub proof fn law_memory_info_kinds(mem: Seq<usize>)
    ensures
        values_from(mem, 0).len() == ADDR_RETURN + 1,
        values_from(mem, 0)[0] == MemoryValue::Instruction,
        forall|a: int|
            0 <= a <= ADDR_PROG_AND_VAR_END && #[trigger] values_from(mem, 0)[a]
                == MemoryValue::Instruction ==> {
                &&& forall|k: int| 0 <= k < operands_at(mem, a).len() ==> values_from(mem, 0)[a + 1 + k]
                    == #[trigger] operands_at(mem, a)[k]
                &&& a + 1 + operands_at(mem, a).len() <= ADDR_PROG_AND_VAR_END ==> values_from(mem, 0)[a
                    + 1 + operands_at(mem, a).len()] == MemoryValue::Instruction
            },
        forall|a: int|
            ADDR_PROG_AND_VAR_END + 3 <= a <= ADDR_RETURN ==> #[trigger] values_from(mem, 0)[a]
                == MemoryValue::Data,
{
    lemma_values_len(mem, 0);
    lemma_values_split(mem, 0);
    let v = values_from(mem, 0);
    assert forall|a: int|
        0 <= a <= ADDR_PROG_AND_VAR_END && #[trigger] v[a] == MemoryValue::Instruction implies {
            &&& forall|k: int| 0 <= k < operands_at(mem, a).len() ==> v[a + 1 + k]
                == #[trigger] operands_at(mem, a)[k]
            &&& a + 1 + operands_at(mem, a).len() <= ADDR_PROG_AND_VAR_END ==> v[a + 1
                + operands_at(mem, a).len()] == MemoryValue::Instruction
        } by {
        lemma_kind_at(mem, 0, a);
        lemma_operands_not_instruction(mem, a);
        assert forall|k: int| 0 <= k < operands_at(mem, a).len() implies v[a + 1 + k]
            == #[trigger] operands_at(mem, a)[k] by {
            if k == 1 {
                assert(v[a - 0 + 2] == operands_at(mem, a)[1]);
            } else {
                assert(v[a - 0 + 1] == operands_at(mem, a)[0]);
            }
        }
    }
    assert forall|a: int| ADDR_PROG_AND_VAR_END + 3 <= a <= ADDR_RETURN implies #[trigger] v[a]
        == MemoryValue::Data by {
        lemma_kind_at(mem, 0, a);
    }
}

/// The memory view classifies every address from 0 to the return address
/// exactly once: entry `a` of [`memory_info`] tells what address `a` holds.
pub proof fn law_one_value_per_address(mem: Seq<usize>)
    ensures
        values_from(mem, 0).len() == ADDR_RETURN + 1,
{
    lemma_values_len(mem, 0);
}

/// Exec form of [`operand_values`].
fn operand_values_of(i: Instruction) -> (v: Vec<MemoryValue>)
    ensures
        v@ == operand_values(i),
{
    let v = match i {
        Instruction::LOAD | Instruction::STORE | Instruction::JMP | Instruction::JEQ | Instruction::JNE | Instruction::JZ | Instruction::JNZ | Instruction::JC | Instruction::JNC | Instruction::JGR | Instruction::JLE | Instruction::JEG | Instruction::JEL | Instruction::JOV | Instruction::JNO | Instruction::JDZ | Instruction::JN | Instruction::CALL | Instruction::CEQ | Instruction::CNE | Instruction::CZ | Instruction::CNZ | Instruction::CC | Instruction::CNC | Instruction::CGR | Instruction::CLE | Instruction::CEG | Instruction::CEL | Instruction::COV | Instruction::CNO | Instruction::CDZ | Instruction::CN => vec![MemoryValue::Address],
        Instruction::LOADN => vec![MemoryValue::Data],
        Instruction::STOREN => vec![MemoryValue::Address, MemoryValue::Data],
        _ => Vec::new(),
    };
    assert(v@ =~= operand_values(i));
    v
}

/// The word at `a` of the memory of `p`, which holds it.
fn word(p: &Processor, a: MemoryCell) -> (w: MemoryCell)
    requires
        a < p@.ram.len(),
    ensures
        w == p@.ram[a as int],
{
    match p.mem(a) {
        Ok(w) => w,
        Err(_) => 0,
    }
}

/// What each word of memory holds, from address 0 to the return address
/// (see [`values_from`]).
pub fn memory_info(p: &Processor) -> (v: Vec<MemoryValue>)
    requires
        values_safe(p@.ram, 0),
    ensures
        v@ == values_from(p@.ram, 0),
{
    let ghost mem = p@.ram;
    let mut v: Vec<MemoryValue> = Vec::new();
    let mut a: usize = 0;
    while a <= ADDR_RETURN
        invariant
            mem == p@.ram,
            a <= ADDR_RETURN + 1,
            v@ + values_from(mem, a as nat) == values_from(mem, 0),
            values_safe(mem, a as nat),
        decreases ADDR_RETURN + 1 - a,
    {
        let ghost before = v@;
        proof {
            reveal(operands_at);
        }
        if a <= ADDR_PROG_AND_VAR_END {
            let w = word(p, a);
            match Instruction::get_instruction(w) {
                Ok(i) => {
                    let ops = operand_values_of(i);
                    v.push(MemoryValue::Instruction);
                    let mut k: usize = 0;
                    while k < ops.len()
                        invariant
                            k <= ops@.len(),
                            v@ == before.push(MemoryValue::Instruction) + ops@.take(k as int),
                        decreases ops.len() - k,
                    {
                        v.push(ops[k]);
                        k += 1;
                        assert(v@ =~= before.push(MemoryValue::Instruction) + ops@.take(k as int));
                    }
                    assert(ops@.take(k as int) =~= ops@);
                    assert(v@ + values_from(mem, (a + 1 + ops.len()) as nat) =~= before + (seq![
                        MemoryValue::Instruction,
                    ] + ops@ + values_from(mem, (a + 1 + ops.len()) as nat)));
                    a = a + 1 + ops.len();
                },
                Err(_) => {
                    v.push(MemoryValue::Instruction);
                    assert(v@ + values_from(mem, (a + 1) as nat) =~= before + (seq![
                        MemoryValue::Instruction,
                    ] + values_from(mem, (a + 1) as nat)));
                    a = a + 1;
                },
            }
        } else {
            v.push(MemoryValue::Data);
            assert(v@ + values_from(mem, (a + 1) as nat) =~= before + (seq![MemoryValue::Data]
                + values_from(mem, (a + 1) as nat)));
            a = a + 1;
        }
    }
    assert(v@ + Seq::<MemoryValue>::empty() =~= v@);
    v
}

/// A row of the memory view.
pub struct MemoryRow {
    /// `<b>PC</b>` or `<b>SP</b>` when the row's address is the program
    /// counter or the stack pointer.
    pub marker: Option<String>,
    /// The instruction shown, when the row holds a word that decodes to one.
    pub instruction: Option<Instruction>,
    pub address: usize,
    pub text: String,
    pub raw: usize,
    /// `Instruction`, `Address` or `Data`.
    pub kind: String,
    /// The row holds a word that should be an instruction and is none.
    pub error: bool,
    /// The name of the memory area of the address.
    pub area: String,
}

/// [`MemoryRow`] with its texts seen as character sequences.
pub struct MemoryRowView {
    pub marker: Option<Seq<char>>,
    pub instruction: Option<Instruction>,
    pub address: usize,
    pub text: Seq<char>,
    pub raw: usize,
    pub kind: Seq<char>,
    pub error: bool,
    pub area: Seq<char>,
}

impl View for MemoryRow {
    type V = MemoryRowView;

    open spec fn view(&self) -> MemoryRowView {
        MemoryRowView {
            marker: match self.marker {
                Some(m) => Some(m@),
                None => None,
            },
            instruction: self.instruction,
            address: self.address,
            text: self.text@,
            raw: self.raw,
            kind: self.kind@,
            error: self.error,
            area: self.area@,
        }
    }
}

/// The row of address `i`, given what each word holds (`info`): marked when
/// it is the program counter (first) or the stack pointer; an instruction
/// shows its text, a word that decodes to none shows `Invalid Instruction`
/// and is an error; addresses and data show `#0x` and their hexadecimal
/// value.
pub open spec fn row_spec(p: ProcessorView, info: Seq<MemoryValue>, i: usize) -> MemoryRowView {
    let raw = p.ram[i as int];
    let marker = if i == p.pc {
        Some("<b>PC</b>"@)
    } else if i == p.sp {
        Some("<b>SP</b>"@)
    } else {
        None
    };
    let area = data_area_spec(i);
    let hex = "#0x"@ + hex_upper(raw as nat);
    match info[i as int] {
        MemoryValue::Instruction => match decode_word(raw) {
            Some(inst) => MemoryRowView {
                marker,
                instruction: Some(inst),
                address: i,
                text: inst.text(i, p),
                raw,
                kind: "Instruction"@,
                error: false,
                area,
            },
            None => MemoryRowView {
                marker,
                instruction: None,
                address: i,
                text: "Invalid Instruction"@,
                raw,
                kind: "Instruction"@,
                error: true,
                area,
            },
        },
        MemoryValue::Address => MemoryRowView {
            marker,
            instruction: None,
            address: i,
            text: hex,
            raw,
            kind: "Address"@,
            error: false,
            area,
        },
        MemoryValue::Data => MemoryRowView {
            marker,
            instruction: None,
            address: i,
            text: hex,
            raw,
            kind: "Data"@,
            error: false,
            area,
        },
    }
}

/// Building the row of address `i` does not panic: `i` is classified and
/// lies in memory, and an instruction there can be shown.
pub open spec fn row_safe(p: ProcessorView, info: Seq<MemoryValue>, i: usize) -> bool {
    &&& p.wf()
    &&& i < info.len()
    &&& i < p.ram.len()
    &&& (info[i as int] == MemoryValue::Instruction ==> match decode_word(p.ram[i as int]) {
        Some(inst) => inst.shows(i, p),
        None => true,
    })
}

/// The address of the row after `i`: the next one, but never past the
/// last cell of memory.
pub open spec fn next_row(i: usize) -> usize {
    if i < MEMORY_SIZE - 1 {
        (i + 1) as usize
    } else {
        (MEMORY_SIZE - 1) as usize
    }
}

/// The `count` rows from address `i` on.
pub open spec fn rows_spec(p: ProcessorView, info: Seq<MemoryValue>, i: usize, count: nat) -> Seq<
    MemoryRowView,
>
    decreases count,
{
    if count == 0 {
        Seq::empty()
    } else {
        seq![row_spec(p, info, i)] + rows_spec(p, info, next_row(i), (count - 1) as nat)
    }
}

/// Building the `count` rows from address `i` on does not panic.
pub open spec fn rows_safe(p: ProcessorView, info: Seq<MemoryValue>, i: usize, count: nat) -> bool
    decreases count,
{
    count == 0 || (row_safe(p, info, i) && rows_safe(p, info, next_row(i), (count - 1) as nat))
}

/// The first row shown for a view asked to start at `addr`: `addr`, but
/// never past the last cell of memory.
pub open spec fn first_row(addr: usize) -> usize {
    if addr < MEMORY_SIZE - 1 {
        addr
    } else {
        (MEMORY_SIZE - 1) as usize
    }
}

/// There are `count` rows.
proof fn lemma_rows_len(p: ProcessorView, info: Seq<MemoryValue>, i: usize, count: nat)
    ensures
        rows_spec(p, info, i, count).len() == count,
    decreases count,
{
    if count > 0 {
        lemma_rows_len(p, info, next_row(i), (count - 1) as nat);
    }
}

/// Row `k` from address `i` on shows address `i + k`, but never one past
/// the last cell of memory.
proof fn lemma_rows_address(p: ProcessorView, info: Seq<MemoryValue>, i: usize, count: nat, k: int)
    requires
        0 <= k < count,
        i < MEMORY_SIZE,
    ensures
        rows_spec(p, info, i, count)[k].address == if i + k < MEMORY_SIZE - 1 {
            i + k
        } else {
            MEMORY_SIZE - 1
        },
    decreases count,
{
    lemma_rows_len(p, info, next_row(i), (count - 1) as nat);
    if k > 0 {
        lemma_rows_address(p, info, next_row(i), (count - 1) as nat, k - 1);
        assert(rows_spec(p, info, i, count)[k] == rows_spec(p, info, next_row(i), (count - 1) as nat)[k - 1]);
    }
}

/// `#0x` and the upper-case hexadecimal digits of `n`.
fn hex_text(n: usize) -> (s: String)
    ensures
        s@ == "#0x"@ + hex_upper(n as nat),
{
    let mut s = String::from_str("#0x");
    let digits = hex_chars(n);
    let d = string_of(digits.as_slice());
    s.append(d.as_str());
    s
}

/// The row of address `i` (see [`row_spec`]).
pub fn memory_row(p: &Processor, info: &[MemoryValue], i: usize) -> (r: MemoryRow)
    requires
        row_safe(p@, info@, i),
    ensures
        r@ == row_spec(p@, info@, i),
{
    let raw = word(p, i);
    let marker = if i == p.pc() {
        Some(String::from_str("<b>PC</b>"))
    } else if i == p.sp() {
        Some(String::from_str("<b>SP</b>"))
    } else {
        None
    };
    let area = data_area(i);
    match info[i] {
        MemoryValue::Instruction => match Instruction::get_instruction(raw) {
            Ok(inst) => MemoryRow {
                marker,
                instruction: Some(inst),
                address: i,
                text: inst.display(i, p),
                raw,
                kind: String::from_str("Instruction"),
                error: false,
                area,
            },
            Err(_) => MemoryRow {
                marker,
                instruction: None,
                address: i,
                text: String::from_str("Invalid Instruction"),
                raw,
                kind: String::from_str("Instruction"),
                error: true,
                area,
            },
        },
        MemoryValue::Address => MemoryRow {
            marker,
            instruction: None,
            address: i,
            text: hex_text(raw),
            raw,
            kind: String::from_str("Address"),
            error: false,
            area,
        },
        MemoryValue::Data => MemoryRow {
            marker,
            instruction: None,
            address: i,
            text: hex_text(raw),
            raw,
            kind: String::from_str("Data"),
            error: false,
            area,
        },
    }
}

/// The `count` rows of the memory view from address `addr` on (see
/// [`rows_spec`] and [`first_row`]).
pub fn memory_rows(p: &Processor, info: &[MemoryValue], addr: usize, count: usize) -> (rows: Vec<
    MemoryRow,
>)
    requires
        rows_safe(p@, info@, first_row(addr), count as nat),
    ensures
        rows@.len() == count,
        forall|k: int| 0 <= k < count ==> #[trigger] rows@[k]@ == rows_spec(
            p@,
            info@,
            first_row(addr),
            count as nat,
        )[k],
        forall|k: int| 0 <= k < count ==> #[trigger] rows@[k].address == if first_row(addr) + k
            < MEMORY_SIZE - 1 {
            first_row(addr) + k
        } else {
            MEMORY_SIZE - 1
        },
{
    let mut rows: Vec<MemoryRow> = Vec::new();
    let mut i: usize = if addr < MEMORY_SIZE - 1 {
        addr
    } else {
        MEMORY_SIZE - 1
    };
    let mut n: usize = 0;
    while n < count
        invariant
            n <= count,
            rows@.len() == n,
            rows_safe(p@, info@, i, (count - n) as nat),
            forall|k: int| 0 <= k < n ==> #[trigger] rows@[k]@ == rows_spec(
                p@,
                info@,
                first_row(addr),
                count as nat,
            )[k],
            rows_spec(p@, info@, first_row(addr), count as nat).skip(n as int) == rows_spec(
                p@,
                info@,
                i,
                (count - n) as nat,
            ),
        decreases count - n,
    {
        let ghost rest = rows_spec(p@, info@, i, (count - n) as nat);
        let row = memory_row(p, info, i);
        proof {
            assert(rest[0] == row_spec(p@, info@, i));
            assert(rest.skip(1) =~= rows_spec(p@, info@, next_row(i), (count - n - 1) as nat));
            let all = rows_spec(p@, info@, first_row(addr), count as nat);
            lemma_rows_len(p@, info@, first_row(addr), count as nat);
            assert(all[n as int] == all.skip(n as int)[0]);
            assert(all.skip(n as int).skip(1) =~= all.skip(n + 1));
        }
        rows.push(row);
        i = if i < MEMORY_SIZE - 1 {
            i + 1
        } else {
            MEMORY_SIZE - 1
        };
        n += 1;
    }
    assert forall|k: int| 0 <= k < count implies #[trigger] rows@[k].address == if first_row(addr)
        + k < MEMORY_SIZE - 1 {
        first_row(addr) + k
    } else {
        MEMORY_SIZE - 1
    } by {
        lemma_rows_address(p@, info@, first_row(addr), count as nat, k);
        assert(rows@[k]@.address == rows@[k].address);
    }
    rows
}

/// The texts of the register panel.
pub struct RegisterTexts {
    /// `R0` to `R7` in decimal.
    pub registers: Vec<String>,
    /// The program counter as `{:#06X}` writes it.
    pub pc: String,
    /// The stack pointer as `{:#06X}` writes it.
    pub sp: String,
    /// The instruction register in sixteen binary digits.
    pub ir: String,
    /// The flags from `GREATER` to `NEGATIVE`, each `0` or `1`.
    pub flags: Vec<String>,
}

/// Number of flags that the panel shows.
pub const SHOWN_FLAGS: usize = 10;

/// `0x` and at least four upper-case hexadecimal digits of `n`.
pub open spec fn hex4(n: usize) -> Seq<char> {
    "0x"@ + zero_padded(hex_upper(n as nat), 4)
}

/// Exec form of [`hex4`].
fn hex4_text(n: usize) -> (s: String)
    ensures
        s@ == hex4(n),
{
    let mut s = String::from_str("0x");
    let digits = pad_zeros(hex_chars(n), 4);
    let d = string_of(digits.as_slice());
    s.append(d.as_str());
    s
}

/// The texts of the register panel for the processor `p`.
pub fn register_texts(p: &Processor) -> (t: RegisterTexts)
    requires
        p@.wf(),
    ensures
        t.registers@.len() == NUM_REGISTERS,
        forall|k: int| 0 <= k < NUM_REGISTERS ==> #[trigger] t.registers@[k]@ == decimal(
            p@.registers[k] as nat,
        ),
        t.pc@ == hex4(p@.pc),
        t.sp@ == hex4(p@.sp),
        t.ir@ == zero_padded(binary(p@.ir as nat), 16),
        t.flags@.len() == SHOWN_FLAGS,
        forall|k: int| 0 <= k < SHOWN_FLAGS ==> #[trigger] t.flags@[k]@ == (if p@.fr[k] {
            "1"@
        } else {
            "0"@
        }),
{
    let mut registers: Vec<String> = Vec::new();
    let mut k: usize = 0;
    while k < NUM_REGISTERS
        invariant
            p@.wf(),
            k <= NUM_REGISTERS,
            registers@.len() == k,
            forall|j: int| 0 <= j < k ==> #[trigger] registers@[j]@ == decimal(
                p@.registers[j] as nat,
            ),
        decreases NUM_REGISTERS - k,
    {
        let v = match p.reg(k) {
            Ok(v) => v,
            Err(_) => 0,
        };
        registers.push(decimal_string(v));
        k += 1;
    }
    let mut flags: Vec<String> = Vec::new();
    let mut f: usize = 0;
    while f < SHOWN_FLAGS
        invariant
            p@.wf(),
            f <= SHOWN_FLAGS,
            flags@.len() == f,
            forall|j: int| 0 <= j < f ==> #[trigger] flags@[j]@ == (if p@.fr[j] {
                "1"@
            } else {
                "0"@
            }),
        decreases SHOWN_FLAGS - f,
    {
        let b = match p.fr(f) {
            Ok(b) => b,
            Err(_) => false,
        };
        flags.push(if b { String::from_str("1") } else { String::from_str("0") });
        f += 1;
    }
    let ir_digits = pad_zeros(binary_chars(p.ir()), 16);
    RegisterTexts {
        registers,
        pc: hex4_text(p.pc()),
        sp: hex4_text(p.sp()),
        ir: string_of(ir_digits.as_slice()),
        flags,
    }
}

/// The texts of the labels of a row of the memory view.
pub struct RowLabels {
    /// The address, as `{:#06X}` writes it.
    pub address: String,
    /// The text of the row.
    pub instruction: String,
    /// The word in sixteen binary digits, the bits that the instruction's
    /// mask fixes in bold.
    pub raw: String,
    /// The memory area, in bold.
    pub float_address: String,
    /// The kind of the row, in bold.
    pub float_instruction: String,
    /// The PC or SP marker, if any.
    pub float_raw: Option<String>,
}

/// The bits `bits` under the mask `mask`, character by character while
/// both last: a bit that the mask fixes is set in bold.
pub open spec fn marked_bits(mask: Seq<char>, bits: Seq<char>) -> Seq<char>
    decreases mask.len(),
{
    if mask.len() == 0 || bits.len() == 0 {
        Seq::empty()
    } else {
        (if mask[0] != '-' {
            "<b>"@ + seq![bits[0]] + "</b>"@
        } else {
            seq![bits[0]]
        }) + marked_bits(mask.drop_first(), bits.drop_first())
    }
}

/// `s` in bold.
pub open spec fn bold(s: Seq<char>) -> Seq<char> {
    "<b>"@ + s + "</b>"@
}

/// The label texts of `row`.
pub open spec fn labels_spec(row: MemoryRowView) -> (Seq<char>, Seq<char>, Seq<char>, Seq<char>, Seq<char>, Option<Seq<char>>) {
    let bits = zero_padded(binary(row.raw as nat), 16);
    (
        hex4(row.address),
        row.text,
        match row.instruction {
            Some(i) => marked_bits(i.mask_spec(), bits),
            None => bits,
        },
        bold(row.area),
        bold(row.kind),
        row.marker,
    )
}

/// `s` in bold.
fn bold_text(s: &String) -> (b: String)
    ensures
        b@ == bold(s@),
{
    let mut b = String::from_str("<b>");
    b.append(s.as_str());
    b.append("</b>");
    b
}

/// Exec form of [`marked_bits`].
fn marked_bits_text(mask: &Vec<char>, bits: &Vec<char>) -> (s: String)
    ensures
        s@ == marked_bits(mask@, bits@),
{
    let mut s = String::new();
    let mut k: usize = 0;
    assert(mask@.skip(0) =~= mask@);
    assert(bits@.skip(0) =~= bits@);
    assert(s@ + marked_bits(mask@, bits@) =~= marked_bits(mask@, bits@));
    while k < mask.len() && k < bits.len()
        invariant
            k <= mask@.len(),
            k <= bits@.len(),
            s@ + marked_bits(mask@.skip(k as int), bits@.skip(k as int)) == marked_bits(mask@, bits@),
        decreases mask.len() - k,
    {
        let ghost before = s@;
        let ghost m = mask@.skip(k as int);
        let ghost b = bits@.skip(k as int);
        assert(m[0] == mask@[k as int]);
        assert(b[0] == bits@[k as int]);
        assert(m.drop_first() =~= mask@.skip(k + 1));
        assert(b.drop_first() =~= bits@.skip(k + 1));
        let mut one: Vec<char> = Vec::new();
        one.push(bits[k]);
        let c = string_of(one.as_slice());
        if mask[k] != '-' {
            s.append("<b>");
            s.append(c.as_str());
            s.append("</b>");
        } else {
            s.append(c.as_str());
        }
        assert(c@ =~= seq![b[0]]);
        assert(s@ + marked_bits(m.drop_first(), b.drop_first()) =~= before + marked_bits(m, b));
        k += 1;
    }
    proof {
        let m = mask@.skip(k as int);
        let b = bits@.skip(k as int);
        assert(m.len() == 0 || b.len() == 0);
        assert(s@ + Seq::<char>::empty() =~= s@);
    }
    s
}

/// The label texts of `row` (see [`labels_spec`]).
pub fn row_labels(row: &MemoryRow) -> (l: RowLabels)
    ensures
        (l.address@, l.instruction@, l.raw@, l.float_address@, l.float_instruction@, match l.float_raw {
            Some(m) => Some(m@),
            None => None,
        }) == labels_spec(row@),
{
    let bits = pad_zeros(binary_chars(row.raw), 16);
    let raw = match row.instruction {
        Some(i) => {
            let mask = chars_of(i.mask());
            marked_bits_text(&mask, &bits)
        },
        None => string_of(bits.as_slice()),
    };
    let instruction = String::from_str(row.text.as_str());
    let float_raw = match &row.marker {
        Some(m) => Some(String::from_str(m.as_str())),
        None => None,
    };
    RowLabels {
        address: hex4_text(row.address),
        instruction,
        raw,
        float_address: bold_text(&row.area),
        float_instruction: bold_text(&row.kind),
        float_raw,
    }
}

/// What the search field of the memory view asks for.
#[derive(Debug, Clone, Copy, PartialEq, Eq, Structural)]
pub enum Search {
    /// The field is empty.
    Empty,
    /// Show the memory from this address.
    Address(usize),
    /// The text is no address.
    Invalid,
}

/// What the search text `s` asks for: an address written in decimal, or
/// else in hexadecimal after its first two characters (0 when neither
/// reads).
pub open spec fn search_spec(s: Seq<char>) -> Search {
    if s.len() == 0 {
        Search::Empty
    } else if address_syntax(s) {
        Search::Address(
            match parse_radix(s, 10) {
                Some(n) => n,
                None => match parse_radix(s.skip(2), 16) {
                    Some(n) => n,
                    None => 0,
                },
            },
        )
    } else {
        Search::Invalid
    }
}

/// What the search text `text` asks for (see [`search_spec`]).
pub fn search_address(text: &str) -> (r: Search)
    ensures
        r == search_spec(text@),
{
    let c = chars_of(text);
    if c.len() == 0 {
        return Search::Empty;
    }
    let patterns: [&str; 2] = [r"^[[:digit:]]{1,6}$", r"^0[xX][[:xdigit:]]{1,4}$"];
    assert(pattern_texts(patterns@) =~= address_patterns());
    if !regex_set_matches(&patterns, text) {
        return Search::Invalid;
    }
    match parse_radix_chars(c.as_slice(), 10) {
        Some(n) => Search::Address(n),
        None => {
            proof {
                if 1 <= c@.len() <= 6 && forall|k: int| 0 <= k < c@.len() ==> ascii_digit(#[trigger] c@[k]) {
                    lemma_decimal_syntax_parses(c@);
                }
            }
            let rest = slice_subrange(c.as_slice(), 2, c.len());
            assert(rest@ =~= text@.skip(2));
            match parse_radix_chars(rest, 16) {
                Some(n) => Search::Address(n),
                None => Search::Address(0),
            }
        },
    }
}

} // verus!
