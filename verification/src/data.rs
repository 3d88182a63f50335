//! The mutable substrate of execution: program memory, the eight
//! registers, and the operand stack. The abstract model is [`DataModel`],
//! three plain sequences of words; every operation is specified against
//! it.
//!
//! Register writes store their value reduced modulo 32768, so a register
//! never holds more than 32767 — the central invariant of the machine.

use vstd::prelude::*;
use vstd::slice::slice_to_vec;

use crate::errors::VmError;

verus! {

/// The mathematical state of the machine's data: memory, registers and
/// stack as sequences of 16-bit words.
#[verifier::ext_equal]
pub ghost struct DataModel {
    pub mem: Seq<u16>,
    pub regs: Seq<u16>,
    pub stack: Seq<u16>,
}

/// Well-formedness: eight registers, each within the 15-bit value range,
/// and a memory no longer than the largest valid image.
pub open spec fn dm_wf(m: DataModel) -> bool {
    &&& m.regs.len() == 8
    &&& forall|j: int| 0 <= j < 8 ==> #[trigger] m.regs[j] <= 32767
    &&& m.mem.len() <= 32768
}

/// Reading the word at address `a`, as `read_memory` does.
pub open spec fn spec_read(m: DataModel, a: int) -> Result<u16, VmError> {
    if 0 <= a < m.mem.len() {
        Ok(m.mem[a])
    } else {
        Err(VmError::ReadOutOfRange { addr: a as u16 })
    }
}

/// Resolving the operand word at address `i` to a numeric value: a
/// literal denotes itself, a register reference denotes the register's
/// contents, and anything above 32775 is a fault.
pub open spec fn spec_resolve(m: DataModel, i: int) -> Result<u16, VmError> {
    match spec_read(m, i) {
        Err(e) => Err(e),
        Ok(v) => if v > 32775 {
            Err(VmError::OperandTooLarge { at: i as usize, value: v })
        } else if v > 32767 {
            Ok(m.regs[v - 32768])
        } else {
            Ok(v)
        },
    }
}

/// Storing `value`, reduced modulo 32768, into the register that the
/// word at address `r` names; a fault if that word is not a register
/// reference.
pub open spec fn reg_store(m: DataModel, r: int, value: u16) -> Result<DataModel, VmError> {
    match spec_read(m, r) {
        Err(e) => Err(e),
        Ok(w) => if 32767 < w < 32776 {
            Ok(DataModel { regs: m.regs.update(w - 32768, (value % 32768) as u16), ..m })
        } else {
            Err(VmError::NotARegister { at: r as usize, value: w })
        },
    }
}

/// Program memory, registers and stack.
///
/// Memory is a dense copy of the loaded image; writes land in place, so a
/// read after a write at the same address returns the written word.
#[derive(Clone)]
pub struct Data {
    memory: Vec<u16>,
    registers: Vec<u16>,
    stack: Vec<u16>,
}

impl View for Data {
    type V = DataModel;

    closed spec fn view(&self) -> DataModel {
        DataModel { mem: self.memory@, regs: self.registers@, stack: self.stack@ }
    }
}

impl Data {
    /// A fresh machine over the given image: registers all zero, stack
    /// empty.
    pub fn new(memory: &[u16]) -> (d: Data)
        requires
            memory@.len() <= 32768,
        ensures
            d@.mem == memory@,
            d@.regs =~= Seq::new(8, |j: int| 0u16),
            d@.stack == Seq::<u16>::empty(),
            dm_wf(d@),
    {
        let d = Data { memory: slice_to_vec(memory), registers: vec![0u16;8], stack: Vec::new() };
        proof {
            assert(d@.regs =~= Seq::new(8, |j: int| 0u16));
        }
        d
    }

    /// The operand at address `i`, resolved to a numeric value. A
    /// literal word is returned as it stands; a register reference
    /// yields the register's contents; a word above 32775 is a fault.
    /// Every value returned fits in 15 bits.
    pub fn get_number(&self, i: usize) -> (r: Result<u16, VmError>)
        requires
            dm_wf(self@),
            i <= 65535,
        ensures
            r == spec_resolve(self@, i as int),
            r is Ok ==> r.unwrap() <= 32767,
    {
        let value = match self.read_memory(i as u16) {
            Ok(v) => v,
            Err(e) => {
                return Err(e);
            },
        };
        if value > 32775 {
            Err(VmError::OperandTooLarge { at: i, value })
        } else if value > 32767 {
            Ok(self.registers[(value - 32768) as usize])
        } else {
            Ok(value)
        }
    }

    /// Stores `value`, reduced modulo 32768, into the register named by
    /// the operand word at address `r`. The operand must be a register
    /// reference; a literal or an out-of-range word is a fault and
    /// leaves the state unchanged.
    pub fn set_number(&mut self, r: usize, value: u16) -> (res: Result<(), VmError>)
        requires
            dm_wf(old(self)@),
            r <= 65535,
        ensures
            dm_wf(final(self)@),
            match reg_store(old(self)@, r as int, value) {
                Ok(m) => res == Ok::<(), VmError>(()) && final(self)@ == m,
                Err(e) => res == Err::<(), VmError>(e) && final(self)@ == old(self)@,
            },
    {
        let register = match self.read_memory(r as u16) {
            Ok(v) => v,
            Err(e) => {
                return Err(e);
            },
        };
        if 32767 < register && register < 32776 {
            let idx = (register - 32768) as usize;
            self.registers[idx] = value % 32768;
            proof {
                assert(self@ =~= (match reg_store(old(self)@, r as int, value) {
                    Ok(m) => m,
                    Err(_) => old(self)@,
                }));
            }
            Ok(())
        } else {
            Err(VmError::NotARegister { at: r, value: register })
        }
    }

    /// Pushes a word onto the operand stack.
    pub fn push_stack(&mut self, value: u16)
        ensures
            final(self)@.mem == old(self)@.mem,
            final(self)@.regs == old(self)@.regs,
            final(self)@.stack == old(self)@.stack.push(value),
    {
        self.stack.push(value);
    }

    /// Pops the most recent word off the operand stack; a fault when the
    /// stack is empty.
    pub fn pop_stack(&mut self) -> (r: Result<u16, VmError>)
        ensures
            final(self)@.mem == old(self)@.mem,
            final(self)@.regs == old(self)@.regs,
            old(self)@.stack.len() == 0 ==> r == Err::<u16, VmError>(VmError::StackUnderflow)
                && final(self)@.stack == old(self)@.stack,
            old(self)@.stack.len() > 0 ==> r == Ok::<u16, VmError>(old(self)@.stack.last())
                && final(self)@.stack == old(self)@.stack.drop_last(),
    {
        match self.stack.pop() {
            Some(v) => Ok(v),
            None => Err(VmError::StackUnderflow),
        }
    }

    /// The word at `address`, reflecting any earlier write there; a
    /// fault past the end of memory.
    pub fn read_memory(&self, address: u16) -> (r: Result<u16, VmError>)
        ensures
            r == spec_read(self@, address as int),
    {
        let a = address as usize;
        if a < self.memory.len() {
            Ok(self.memory[a])
        } else {
            Err(VmError::ReadOutOfRange { addr: address })
        }
    }

    /// Replaces the word at `address`; a fault past the end of memory,
    /// leaving the state unchanged.
    pub fn write_memory(&mut self, address: u16, value: u16) -> (r: Result<(), VmError>)
        ensures
            final(self)@.regs == old(self)@.regs,
            final(self)@.stack == old(self)@.stack,
            address < old(self)@.mem.len() ==> r == Ok::<(), VmError>(()) && final(self)@.mem
                == old(self)@.mem.update(address as int, value),
            address >= old(self)@.mem.len() ==> r == Err::<(), VmError>(
                VmError::WriteOutOfRange { addr: address },
            ) && final(self)@.mem == old(self)@.mem,
    {
        let a = address as usize;
        if a < self.memory.len() {
            self.memory[a] = value;
            Ok(())
        } else {
            Err(VmError::WriteOutOfRange { addr: address })
        }
    }

    /// The number of words of memory.
    pub fn length_memory(&self) -> (n: usize)
        ensures
            n == self@.mem.len(),
    {
        self.memory.len()
    }
}

} // verus!
