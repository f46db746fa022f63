//! Random access memory that holds the instructions and data of programs.
use vstd::prelude::*;

use crate::text::{decimal, decimal_string};

verus! {

/// Error of a memory access.
#[derive(Debug, PartialEq, Eq, Structural)]
pub enum RamError {
    /// `index` is not an address of the memory.
    InvalidAddress { index: usize },
}

/// RAM (Random Access Memory) used to hold the instructions and data of programs.
pub struct Ram {
    memory: Vec<usize>,
}

impl View for Ram {
    type V = Seq<usize>;

    closed spec fn view(&self) -> Seq<usize> {
        self.memory@
    }
}

/// What [`Ram::get`] returns for the contents `mem`.
pub open spec fn ram_get(mem: Seq<usize>, addr: usize) -> Result<usize, RamError> {
    if addr < mem.len() {
        Ok(mem[addr as int])
    } else {
        Err(RamError::InvalidAddress { index: addr })
    }
}

/// The contents after [`Ram::set`] and what it returns.
pub open spec fn ram_set(mem: Seq<usize>, addr: usize, value: usize) -> (Seq<usize>, Result<(), RamError>) {
    if addr < mem.len() {
        (mem.update(addr as int, value), Ok(()))
    } else {
        (mem, Err(RamError::InvalidAddress { index: addr }))
    }
}

impl Ram {
    /// Creates an empty RAM.
    pub fn new() -> (r: Self)
        ensures
            r@ == Seq::<usize>::empty(),
    {
        Self { memory: Vec::new() }
    }

    /// Creates an empty RAM with room for `capacity` cells.
    pub fn with_capacity(capacity: usize) -> (r: Self)
        ensures
            r@ == Seq::<usize>::empty(),
    {
        Self { memory: Vec::with_capacity(capacity) }
    }

    /// Loads new data into the memory; whatever was stored before is dropped.
    pub fn load(&mut self, data: &[usize])
        ensures
            final(self)@ == data@,
    {
        self.memory.clear();
        let mut k: usize = 0;
        while k < data.len()
            invariant
                k <= data@.len(),
                self.memory@ == data@.subrange(0, k as int),
            decreases data.len() - k,
        {
            self.memory.push(data[k]);
            k += 1;
            assert(self.memory@ =~= data@.subrange(0, k as int));
        }
        assert(self.memory@ =~= data@);
    }

    /// The value at address `addr`.
    ///
    /// # Errors
    ///
    /// [`RamError::InvalidAddress`] when `addr` is not an address of the memory.
    pub fn get(&self, addr: usize) -> (r: Result<usize, RamError>)
        ensures
            r == ram_get(self@, addr),
    {
        if addr < self.memory.len() {
            Ok(self.memory[addr])
        } else {
            Err(RamError::InvalidAddress { index: addr })
        }
    }

    /// Stores `value` at address `addr`.
    ///
    /// # Errors
    ///
    /// [`RamError::InvalidAddress`] when `addr` is not an address of the memory;
    /// the memory is then left unchanged.
    pub fn set(&mut self, addr: usize, value: usize) -> (r: Result<(), RamError>)
        ensures
            (final(self)@, r) == ram_set(old(self)@, addr, value),
    {
        if addr < self.memory.len() {
            self.memory.set(addr, value);
            Ok(())
        } else {
            Err(RamError::InvalidAddress { index: addr })
        }
    }
}

/// A read at an address gives back the value that the last write there stored,
/// a write to a valid address succeeds, and a write leaves every other address
/// as it was.
pub proof fn law_ram_read_after_write(mem: Seq<usize>, addr: usize, value: usize, other: usize)
    requires
        addr < mem.len(),
    ensures
        ram_set(mem, addr, value).1 == Ok::<(), RamError>(()),
        ram_get(ram_set(mem, addr, value).0, addr) == Ok::<usize, RamError>(value),
        other != addr ==> ram_get(ram_set(mem, addr, value).0, other) == ram_get(mem, other),
{
}

/// A write to an address outside the memory fails and changes nothing.
pub proof fn law_ram_write_out_of_range(mem: Seq<usize>, addr: usize, value: usize)
    requires
        addr >= mem.len(),
    ensures
        ram_set(mem, addr, value) == (mem, Err::<(), RamError>(RamError::InvalidAddress { index: addr })),
{
}

/// After a load, every address of the loaded data reads back its value.
pub proof fn law_ram_load_then_get(data: Seq<usize>, addr: usize)
    ensures
        addr < data.len() ==> ram_get(data, addr) == Ok::<usize, RamError>(data[addr as int]),
        addr >= data.len() ==> ram_get(data, addr) is Err,
{
}

impl RamError {
    /// The message of the error, as it is displayed.
    pub fn to_string(&self) -> (s: String)
        ensures
            s@ == (match *self {
                RamError::InvalidAddress { index } => "Endereço inválido: "@ + decimal(index as nat),
            }),
    {
        match self {
            RamError::InvalidAddress { index } => {
                let mut s = String::from_str("Endereço inválido: ");
                let d = decimal_string(*index);
                s.append(d.as_str());
                s
            },
        }
    }
}

} // verus!
