//! The fetch/decode/execute core. [`spec_step`] is the complete
//! mathematical semantics of one instruction, total over every machine
//! state; [`VM::step`] is proved to implement it exactly.
//!
//! Character I/O is split out of the stepping function: `out` hands the
//! emitted code point back to the caller, and `in` asks the caller for a
//! byte through [`VM::step_input`], so the core itself never touches a
//! stream.

use vstd::prelude::*;

use crate::data::{dm_wf, reg_store, spec_read, spec_resolve, Data, DataModel};
use crate::errors::VmError;

verus! {

/// How an instruction leaves the program counter: advance by its size,
/// jump to a target, or stop the run.
pub enum Action {
    Move(u16),
    Jump(u16),
    Halt,
}

/// What one step of the machine asks of its host.
#[derive(Clone, Copy, Debug, PartialEq, Eq, Structural)]
pub enum StepOutcome {
    /// The instruction completed; fetch the next one.
    Running,
    /// The program ended cleanly.
    Halted,
    /// `out`: write the character with this code point, then continue.
    Output(u16),
    /// `in`: read one byte and hand it to [`VM::step_input`].
    NeedInput,
}

/// The abstract outcome of one step: the machine state it leaves behind
/// and what the host sees.
pub ghost enum StepSpec {
    /// Execution continues at `pc` with state `d`.
    Next { d: DataModel, pc: int },
    /// `out` emits `code`; execution continues at `pc`.
    Emit { d: DataModel, pc: int, code: u16 },
    /// `in` awaits a byte; nothing has changed yet.
    Await,
    /// A clean halt; nothing has changed.
    Stop,
    /// A fatal fault, leaving state `d` behind.
    Fail { d: DataModel, e: VmError },
}

/// Stores `value` through the register operand at `i + 1` and advances
/// by `k` words; on a fault the state is unchanged.
pub open spec fn store_move(m: DataModel, i: int, value: u16, k: u16) -> (DataModel, Result<
    Action,
    VmError,
>) {
    match reg_store(m, i + 1, value) {
        Ok(m2) => (m2, Ok(Action::Move(k))),
        Err(e) => (m, Err(e)),
    }
}

/// `set a b`: the register named at `i + 1` receives the operand at `i + 2`.
pub open spec fn spec_op_set(m: DataModel, i: int) -> (DataModel, Result<Action, VmError>) {
    match spec_resolve(m, i + 2) {
        Err(e) => (m, Err(e)),
        Ok(v) => store_move(m, i, v, 3),
    }
}

/// `push a`: the operand at `i + 1` goes onto the stack.
pub open spec fn spec_op_push(m: DataModel, i: int) -> (DataModel, Result<Action, VmError>) {
    match spec_resolve(m, i + 1) {
        Err(e) => (m, Err(e)),
        Ok(v) => (DataModel { stack: m.stack.push(v), ..m }, Ok(Action::Move(2))),
    }
}

/// `pop a`: the top of the stack lands in the register named at `i + 1`.
/// The pop happens first, so a bad destination still consumes the entry.
pub open spec fn spec_op_pop(m: DataModel, i: int) -> (DataModel, Result<Action, VmError>) {
    if m.stack.len() == 0 {
        (m, Err(VmError::StackUnderflow))
    } else {
        let m1 = DataModel { stack: m.stack.drop_last(), ..m };
        store_move(m1, i, m.stack.last(), 2)
    }
}

/// `eq a b c`: 1 if the operands at `i + 2` and `i + 3` are equal, else 0.
pub open spec fn spec_op_eq(m: DataModel, i: int) -> (DataModel, Result<Action, VmError>) {
    match (spec_resolve(m, i + 2), spec_resolve(m, i + 3)) {
        (Err(e), _) => (m, Err(e)),
        (Ok(_), Err(e)) => (m, Err(e)),
        (Ok(a), Ok(b)) => store_move(m, i, if a == b { 1u16 } else { 0u16 }, 4),
    }
}

/// `gt a b c`: 1 if the operand at `i + 2` exceeds the one at `i + 3`.
pub open spec fn spec_op_gt(m: DataModel, i: int) -> (DataModel, Result<Action, VmError>) {
    match (spec_resolve(m, i + 2), spec_resolve(m, i + 3)) {
        (Err(e), _) => (m, Err(e)),
        (Ok(_), Err(e)) => (m, Err(e)),
        (Ok(a), Ok(b)) => store_move(m, i, if a > b { 1u16 } else { 0u16 }, 4),
    }
}

/// `jmp a`: jump to the operand at `i + 1`.
pub open spec fn spec_op_jmp(m: DataModel, i: int) -> (DataModel, Result<Action, VmError>) {
    match spec_resolve(m, i + 1) {
        Err(e) => (m, Err(e)),
        Ok(t) => (m, Ok(Action::Jump(t))),
    }
}

/// `jt a b`: jump to the operand at `i + 2` when the one at `i + 1` is
/// nonzero. The target is only read when the branch is taken.
pub open spec fn spec_op_jt(m: DataModel, i: int) -> (DataModel, Result<Action, VmError>) {
    match spec_resolve(m, i + 1) {
        Err(e) => (m, Err(e)),
        Ok(v) => if v != 0 {
            match spec_resolve(m, i + 2) {
                Err(e) => (m, Err(e)),
                Ok(t) => (m, Ok(Action::Jump(t))),
            }
        } else {
            (m, Ok(Action::Move(3)))
        },
    }
}

/// `jf a b`: jump to the operand at `i + 2` when the one at `i + 1` is
/// zero.
pub open spec fn spec_op_jf(m: DataModel, i: int) -> (DataModel, Result<Action, VmError>) {
    match spec_resolve(m, i + 1) {
        Err(e) => (m, Err(e)),
        Ok(v) => if v == 0 {
            match spec_resolve(m, i + 2) {
                Err(e) => (m, Err(e)),
                Ok(t) => (m, Ok(Action::Jump(t))),
            }
        } else {
            (m, Ok(Action::Move(3)))
        },
    }
}

/// `add a b c`: the sum of the operands, reduced modulo 32768.
pub open spec fn spec_op_add(m: DataModel, i: int) -> (DataModel, Result<Action, VmError>) {
    match (spec_resolve(m, i + 2), spec_resolve(m, i + 3)) {
        (Err(e), _) => (m, Err(e)),
        (Ok(_), Err(e)) => (m, Err(e)),
        (Ok(a), Ok(b)) => store_move(m, i, (((a as int) + (b as int)) % 32768) as u16, 4),
    }
}

/// `mult a b c`: the product of the operands, reduced modulo 32768.
pub open spec fn spec_op_mul(m: DataModel, i: int) -> (DataModel, Result<Action, VmError>) {
    match (spec_resolve(m, i + 2), spec_resolve(m, i + 3)) {
        (Err(e), _) => (m, Err(e)),
        (Ok(_), Err(e)) => (m, Err(e)),
        (Ok(a), Ok(b)) => store_move(m, i, (((a as int) * (b as int)) % 32768) as u16, 4),
    }
}

/// `mod a b c`: the remainder of the operands; a zero divisor is fatal.
pub open spec fn spec_op_mod(m: DataModel, i: int) -> (DataModel, Result<Action, VmError>) {
    match (spec_resolve(m, i + 2), spec_resolve(m, i + 3)) {
        (Err(e), _) => (m, Err(e)),
        (Ok(_), Err(e)) => (m, Err(e)),
        (Ok(a), Ok(b)) => if b == 0 {
            (m, Err(VmError::DivisionByZero { at: i as usize }))
        } else {
            store_move(m, i, (a % b) as u16, 4)
        },
    }
}

/// `and a b c`: the bitwise conjunction of the operands.
pub open spec fn spec_op_and(m: DataModel, i: int) -> (DataModel, Result<Action, VmError>) {
    match (spec_resolve(m, i + 2), spec_resolve(m, i + 3)) {
        (Err(e), _) => (m, Err(e)),
        (Ok(_), Err(e)) => (m, Err(e)),
        (Ok(a), Ok(b)) => store_move(m, i, a & b, 4),
    }
}

/// `or a b c`: the bitwise disjunction of the operands.
pub open spec fn spec_op_or(m: DataModel, i: int) -> (DataModel, Result<Action, VmError>) {
    match (spec_resolve(m, i + 2), spec_resolve(m, i + 3)) {
        (Err(e), _) => (m, Err(e)),
        (Ok(_), Err(e)) => (m, Err(e)),
        (Ok(a), Ok(b)) => store_move(m, i, a | b, 4),
    }
}

/// `not a b`: the 15-bit complement of the operand at `i + 2`.
pub open spec fn spec_op_not(m: DataModel, i: int) -> (DataModel, Result<Action, VmError>) {
    match spec_resolve(m, i + 2) {
        Err(e) => (m, Err(e)),
        Ok(v) => store_move(m, i, 0x7FFF ^ v, 3),
    }
}

/// `rmem a b`: the word at the address given by the operand at `i + 2`
/// lands in the register named at `i + 1`.
pub open spec fn spec_op_rmem(m: DataModel, i: int) -> (DataModel, Result<Action, VmError>) {
    match spec_resolve(m, i + 2) {
        Err(e) => (m, Err(e)),
        Ok(a) => match spec_read(m, a as int) {
            Err(e) => (m, Err(e)),
            Ok(v) => store_move(m, i, v, 3),
        },
    }
}

/// `wmem a b`: the operand at `i + 2` is written to the address given by
/// the operand at `i + 1`.
pub open spec fn spec_op_wmem(m: DataModel, i: int) -> (DataModel, Result<Action, VmError>) {
    match (spec_resolve(m, i + 1), spec_resolve(m, i + 2)) {
        (Err(e), _) => (m, Err(e)),
        (Ok(_), Err(e)) => (m, Err(e)),
        (Ok(a), Ok(v)) => if a < m.mem.len() {
            (DataModel { mem: m.mem.update(a as int, v), ..m }, Ok(Action::Move(3)))
        } else {
            (m, Err(VmError::WriteOutOfRange { addr: a }))
        },
    }
}

/// `call a`: the return address `i + 2` is pushed, then execution jumps
/// to the operand at `i + 1`. The push happens first, so a bad target
/// still grows the stack.
pub open spec fn spec_op_call(m: DataModel, i: int) -> (DataModel, Result<Action, VmError>) {
    let m1 = DataModel { stack: m.stack.push((i + 2) as u16), ..m };
    match spec_resolve(m1, i + 1) {
        Err(e) => (m1, Err(e)),
        Ok(t) => (m1, Ok(Action::Jump(t))),
    }
}

/// `ret`: jump to the popped return address; an empty stack halts
/// cleanly instead of faulting.
pub open spec fn spec_op_ret(m: DataModel, i: int) -> (DataModel, Result<Action, VmError>) {
    if m.stack.len() == 0 {
        (m, Ok(Action::Halt))
    } else {
        (DataModel { stack: m.stack.drop_last(), ..m }, Ok(Action::Jump(m.stack.last())))
    }
}

/// The state change and action of the opcode `w` at `pc`, for the
/// opcodes that neither halt nor touch a stream.
pub open spec fn spec_dispatch(m: DataModel, pc: int, w: u16) -> (DataModel, Result<
    Action,
    VmError,
>) {
    if w == 1 {
        spec_op_set(m, pc)
    } else if w == 2 {
        spec_op_push(m, pc)
    } else if w == 3 {
        spec_op_pop(m, pc)
    } else if w == 4 {
        spec_op_eq(m, pc)
    } else if w == 5 {
        spec_op_gt(m, pc)
    } else if w == 6 {
        spec_op_jmp(m, pc)
    } else if w == 7 {
        spec_op_jt(m, pc)
    } else if w == 8 {
        spec_op_jf(m, pc)
    } else if w == 9 {
        spec_op_add(m, pc)
    } else if w == 10 {
        spec_op_mul(m, pc)
    } else if w == 11 {
        spec_op_mod(m, pc)
    } else if w == 12 {
        spec_op_and(m, pc)
    } else if w == 13 {
        spec_op_or(m, pc)
    } else if w == 14 {
        spec_op_not(m, pc)
    } else if w == 15 {
        spec_op_rmem(m, pc)
    } else if w == 16 {
        spec_op_wmem(m, pc)
    } else if w == 17 {
        spec_op_call(m, pc)
    } else if w == 18 {
        spec_op_ret(m, pc)
    } else {
        (m, Ok(Action::Move(1)))
    }
}

/// One step of the machine at `pc`: fetch the opcode word, fail on an
/// unknown one, and otherwise carry out the instruction's effect.
pub open spec fn spec_step(m: DataModel, pc: int) -> StepSpec {
    if !(0 <= pc < m.mem.len()) {
        StepSpec::Fail { d: m, e: VmError::PcOutOfRange { pc: pc as usize } }
    } else {
        let w = m.mem[pc];
        if w == 0 {
            StepSpec::Stop
        } else if w == 19 {
            match spec_resolve(m, pc + 1) {
                Err(e) => StepSpec::Fail { d: m, e },
                Ok(v) => if 0xD800 <= v <= 0xDFFF {
                    StepSpec::Fail { d: m, e: VmError::EncodingFailure { value: v } }
                } else {
                    StepSpec::Emit { d: m, pc: pc + 2, code: v }
                },
            }
        } else if w == 20 {
            StepSpec::Await
        } else if w <= 21 {
            let r = spec_dispatch(m, pc, w);
            match r.1 {
                Ok(Action::Move(k)) => StepSpec::Next { d: r.0, pc: pc + k },
                Ok(Action::Jump(j)) => StepSpec::Next { d: r.0, pc: j as int },
                Ok(Action::Halt) => StepSpec::Stop,
                Err(e) => StepSpec::Fail { d: r.0, e },
            }
        } else {
            StepSpec::Fail { d: m, e: VmError::UnknownOpcode { op: w } }
        }
    }
}

/// The effect of handing `byte` to an awaiting `in` instruction at `pc`:
/// end of input halts cleanly, a carriage return is skipped and another
/// byte awaited, and any other byte lands in the destination register.
pub open spec fn spec_input(m: DataModel, pc: int, byte: Option<u8>) -> StepSpec {
    match byte {
        None => StepSpec::Stop,
        Some(b) => if b == 13 {
            StepSpec::Await
        } else {
            match reg_store(m, pc + 1, b as u16) {
                Ok(m2) => StepSpec::Next { d: m2, pc: pc + 2 },
                Err(e) => StepSpec::Fail { d: m, e },
            }
        },
    }
}

fn op_set(data: &mut Data, i: usize) -> (r: Result<Action, VmError>)
    requires
        dm_wf(old(data)@),
        i <= 32767,
    ensures
        dm_wf(final(data)@),
        final(data)@ == spec_op_set(old(data)@, i as int).0,
        r == spec_op_set(old(data)@, i as int).1,
{
    let v = match data.get_number(i + 2) {
        Ok(v) => v,
        Err(e) => {
            return Err(e);
        },
    };
    match data.set_number(i + 1, v) {
        Ok(()) => Ok(Action::Move(3)),
        Err(e) => Err(e),
    }
}

fn op_push(data: &mut Data, i: usize) -> (r: Result<Action, VmError>)
    requires
        dm_wf(old(data)@),
        i <= 32767,
    ensures
        dm_wf(final(data)@),
        final(data)@ == spec_op_push(old(data)@, i as int).0,
        r == spec_op_push(old(data)@, i as int).1,
{
    let v = match data.get_number(i + 1) {
        Ok(v) => v,
        Err(e) => {
            return Err(e);
        },
    };
    data.push_stack(v);
    Ok(Action::Move(2))
}

fn op_pop(data: &mut Data, i: usize) -> (r: Result<Action, VmError>)
    requires
        dm_wf(old(data)@),
        i <= 32767,
    ensures
        dm_wf(final(data)@),
        final(data)@ == spec_op_pop(old(data)@, i as int).0,
        r == spec_op_pop(old(data)@, i as int).1,
{
    let value = match data.pop_stack() {
        Ok(v) => v,
        Err(e) => {
            return Err(e);
        },
    };
    match data.set_number(i + 1, value) {
        Ok(()) => Ok(Action::Move(2)),
        Err(e) => Err(e),
    }
}

fn op_eq(data: &mut Data, i: usize) -> (r: Result<Action, VmError>)
    requires
        dm_wf(old(data)@),
        i <= 32767,
    ensures
        dm_wf(final(data)@),
        final(data)@ == spec_op_eq(old(data)@, i as int).0,
        r == spec_op_eq(old(data)@, i as int).1,
{
    let a = match data.get_number(i + 2) {
        Ok(v) => v,
        Err(e) => {
            return Err(e);
        },
    };
    let b = match data.get_number(i + 3) {
        Ok(v) => v,
        Err(e) => {
            return Err(e);
        },
    };
    let value: u16 = if a == b {
        1
    } else {
        0
    };
    match data.set_number(i + 1, value) {
        Ok(()) => Ok(Action::Move(4)),
        Err(e) => Err(e),
    }
}

fn op_gt(data: &mut Data, i: usize) -> (r: Result<Action, VmError>)
    requires
        dm_wf(old(data)@),
        i <= 32767,
    ensures
        dm_wf(final(data)@),
        final(data)@ == spec_op_gt(old(data)@, i as int).0,
        r == spec_op_gt(old(data)@, i as int).1,
{
    let a = match data.get_number(i + 2) {
        Ok(v) => v,
        Err(e) => {
            return Err(e);
        },
    };
    let b = match data.get_number(i + 3) {
        Ok(v) => v,
        Err(e) => {
            return Err(e);
        },
    };
    let value: u16 = if a > b {
        1
    } else {
        0
    };
    match data.set_number(i + 1, value) {
        Ok(()) => Ok(Action::Move(4)),
        Err(e) => Err(e),
    }
}

fn op_jmp(data: &mut Data, i: usize) -> (r: Result<Action, VmError>)
    requires
        dm_wf(old(data)@),
        i <= 32767,
    ensures
        dm_wf(final(data)@),
        final(data)@ == spec_op_jmp(old(data)@, i as int).0,
        r == spec_op_jmp(old(data)@, i as int).1,
{
    let t = match data.get_number(i + 1) {
        Ok(v) => v,
        Err(e) => {
            return Err(e);
        },
    };
    Ok(Action::Jump(t))
}

fn op_jt(data: &mut Data, i: usize) -> (r: Result<Action, VmError>)
    requires
        dm_wf(old(data)@),
        i <= 32767,
    ensures
        dm_wf(final(data)@),
        final(data)@ == spec_op_jt(old(data)@, i as int).0,
        r == spec_op_jt(old(data)@, i as int).1,
{
    let v = match data.get_number(i + 1) {
        Ok(v) => v,
        Err(e) => {
            return Err(e);
        },
    };
    if v != 0 {
        let t = match data.get_number(i + 2) {
            Ok(v) => v,
            Err(e) => {
                return Err(e);
            },
        };
        Ok(Action::Jump(t))
    } else {
        Ok(Action::Move(3))
    }
}

fn op_jf(data: &mut Data, i: usize) -> (r: Result<Action, VmError>)
    requires
        dm_wf(old(data)@),
        i <= 32767,
    ensures
        dm_wf(final(data)@),
        final(data)@ == spec_op_jf(old(data)@, i as int).0,
        r == spec_op_jf(old(data)@, i as int).1,
{
    let v = match data.get_number(i + 1) {
        Ok(v) => v,
        Err(e) => {
            return Err(e);
        },
    };
    if v == 0 {
        let t = match data.get_number(i + 2) {
            Ok(v) => v,
            Err(e) => {
                return Err(e);
            },
        };
        Ok(Action::Jump(t))
    } else {
        Ok(Action::Move(3))
    }
}

fn op_add(data: &mut Data, i: usize) -> (r: Result<Action, VmError>)
    requires
        dm_wf(old(data)@),
        i <= 32767,
    ensures
        dm_wf(final(data)@),
        final(data)@ == spec_op_add(old(data)@, i as int).0,
        r == spec_op_add(old(data)@, i as int).1,
{
    let a = match data.get_number(i + 2) {
        Ok(v) => v,
        Err(e) => {
            return Err(e);
        },
    };
    let b = match data.get_number(i + 3) {
        Ok(v) => v,
        Err(e) => {
            return Err(e);
        },
    };
    let value: u16 = (a + b) % 32768;
    match data.set_number(i + 1, value) {
        Ok(()) => Ok(Action::Move(4)),
        Err(e) => Err(e),
    }
}

fn op_mul(data: &mut Data, i: usize) -> (r: Result<Action, VmError>)
    requires
        dm_wf(old(data)@),
        i <= 32767,
    ensures
        dm_wf(final(data)@),
        final(data)@ == spec_op_mul(old(data)@, i as int).0,
        r == spec_op_mul(old(data)@, i as int).1,
{
    let a = match data.get_number(i + 2) {
        Ok(v) => v,
        Err(e) => {
            return Err(e);
        },
    };
    let b = match data.get_number(i + 3) {
        Ok(v) => v,
        Err(e) => {
            return Err(e);
        },
    };
    proof {
        assert((a as int) * (b as int) <= 32767 * 32767) by (nonlinear_arith)
            requires
                a <= 32767,
                b <= 32767,
        ;
    }
    let value: u16 = (((a as u64) * (b as u64)) % 32768) as u16;
    match data.set_number(i + 1, value) {
        Ok(()) => Ok(Action::Move(4)),
        Err(e) => Err(e),
    }
}

fn op_mod(data: &mut Data, i: usize) -> (r: Result<Action, VmError>)
    requires
        dm_wf(old(data)@),
        i <= 32767,
    ensures
        dm_wf(final(data)@),
        final(data)@ == spec_op_mod(old(data)@, i as int).0,
        r == spec_op_mod(old(data)@, i as int).1,
{
    let a = match data.get_number(i + 2) {
        Ok(v) => v,
        Err(e) => {
            return Err(e);
        },
    };
    let b = match data.get_number(i + 3) {
        Ok(v) => v,
        Err(e) => {
            return Err(e);
        },
    };
    if b == 0 {
        return Err(VmError::DivisionByZero { at: i });
    }
    let value: u16 = a % b;
    match data.set_number(i + 1, value) {
        Ok(()) => Ok(Action::Move(4)),
        Err(e) => Err(e),
    }
}

fn op_and(data: &mut Data, i: usize) -> (r: Result<Action, VmError>)
    requires
        dm_wf(old(data)@),
        i <= 32767,
    ensures
        dm_wf(final(data)@),
        final(data)@ == spec_op_and(old(data)@, i as int).0,
        r == spec_op_and(old(data)@, i as int).1,
{
    let a = match data.get_number(i + 2) {
        Ok(v) => v,
        Err(e) => {
            return Err(e);
        },
    };
    let b = match data.get_number(i + 3) {
        Ok(v) => v,
        Err(e) => {
            return Err(e);
        },
    };
    match data.set_number(i + 1, a & b) {
        Ok(()) => Ok(Action::Move(4)),
        Err(e) => Err(e),
    }
}

fn op_or(data: &mut Data, i: usize) -> (r: Result<Action, VmError>)
    requires
        dm_wf(old(data)@),
        i <= 32767,
    ensures
        dm_wf(final(data)@),
        final(data)@ == spec_op_or(old(data)@, i as int).0,
        r == spec_op_or(old(data)@, i as int).1,
{
    let a = match data.get_number(i + 2) {
        Ok(v) => v,
        Err(e) => {
            return Err(e);
        },
    };
    let b = match data.get_number(i + 3) {
        Ok(v) => v,
        Err(e) => {
            return Err(e);
        },
    };
    match data.set_number(i + 1, a | b) {
        Ok(()) => Ok(Action::Move(4)),
        Err(e) => Err(e),
    }
}

fn op_not(data: &mut Data, i: usize) -> (r: Result<Action, VmError>)
    requires
        dm_wf(old(data)@),
        i <= 32767,
    ensures
        dm_wf(final(data)@),
        final(data)@ == spec_op_not(old(data)@, i as int).0,
        r == spec_op_not(old(data)@, i as int).1,
{
    let v = match data.get_number(i + 2) {
        Ok(v) => v,
        Err(e) => {
            return Err(e);
        },
    };
    let value: u16 = 0x7FFF ^ v;
    match data.set_number(i + 1, value) {
        Ok(()) => Ok(Action::Move(3)),
        Err(e) => Err(e),
    }
}

fn op_rmem(data: &mut Data, i: usize) -> (r: Result<Action, VmError>)
    requires
        dm_wf(old(data)@),
        i <= 32767,
    ensures
        dm_wf(final(data)@),
        final(data)@ == spec_op_rmem(old(data)@, i as int).0,
        r == spec_op_rmem(old(data)@, i as int).1,
{
    let address = match data.get_number(i + 2) {
        Ok(v) => v,
        Err(e) => {
            return Err(e);
        },
    };
    let value = match data.read_memory(address) {
        Ok(v) => v,
        Err(e) => {
            return Err(e);
        },
    };
    match data.set_number(i + 1, value) {
        Ok(()) => Ok(Action::Move(3)),
        Err(e) => Err(e),
    }
}

fn op_wmem(data: &mut Data, i: usize) -> (r: Result<Action, VmError>)
    requires
        dm_wf(old(data)@),
        i <= 32767,
    ensures
        dm_wf(final(data)@),
        final(data)@ == spec_op_wmem(old(data)@, i as int).0,
        r == spec_op_wmem(old(data)@, i as int).1,
{
    let address = match data.get_number(i + 1) {
        Ok(v) => v,
        Err(e) => {
            return Err(e);
        },
    };
    let value = match data.get_number(i + 2) {
        Ok(v) => v,
        Err(e) => {
            return Err(e);
        },
    };
    match data.write_memory(address, value) {
        Ok(()) => Ok(Action::Move(3)),
        Err(e) => Err(e),
    }
}

fn op_call(data: &mut Data, i: usize) -> (r: Result<Action, VmError>)
    requires
        dm_wf(old(data)@),
        i <= 32767,
    ensures
        dm_wf(final(data)@),
        final(data)@ == spec_op_call(old(data)@, i as int).0,
        r == spec_op_call(old(data)@, i as int).1,
{
    let next_addr = (i + 2) as u16;
    data.push_stack(next_addr);
    match data.get_number(i + 1) {
        Ok(t) => Ok(Action::Jump(t)),
        Err(e) => Err(e),
    }
}

fn op_ret(data: &mut Data, i: usize) -> (r: Result<Action, VmError>)
    requires
        dm_wf(old(data)@),
        i <= 32767,
    ensures
        dm_wf(final(data)@),
        final(data)@ == spec_op_ret(old(data)@, i as int).0,
        r == spec_op_ret(old(data)@, i as int).1,
{
    match data.pop_stack() {
        Ok(ret_addr) => Ok(Action::Jump(ret_addr)),
        Err(_) => Ok(Action::Halt),
    }
}

fn op_noop(data: &mut Data, i: usize) -> (r: Result<Action, VmError>)
    ensures
        final(data)@ == old(data)@,
        r == Ok::<Action, VmError>(Action::Move(1)),
{
    Ok(Action::Move(1))
}

/// A running machine: its data and the program counter.
#[derive(Clone)]
pub struct VM {
    pub data: Data,
    pub pointer: usize,
}

impl VM {
    /// A machine about to execute address 0 of `data`.
    pub fn new(data: Data) -> (vm: VM)
        ensures
            vm.data@ == data@,
            vm.pointer == 0,
    {
        VM { data, pointer: 0 }
    }

    /// Executes the instruction at the current program counter, exactly
    /// as [`spec_step`] describes: the returned outcome tells the host
    /// whether to continue, stop, write a character, or supply input.
    pub fn step(&mut self) -> (r: Result<StepOutcome, VmError>)
        requires
            dm_wf(old(self).data@),
        ensures
            dm_wf(final(self).data@),
            match spec_step(old(self).data@, old(self).pointer as int) {
                StepSpec::Next { d, pc } => r == Ok::<StepOutcome, VmError>(StepOutcome::Running)
                    && final(self).data@ == d && final(self).pointer == pc,
                StepSpec::Emit { d, pc, code } => r == Ok::<StepOutcome, VmError>(
                    StepOutcome::Output(code),
                ) && final(self).data@ == d && final(self).pointer == pc,
                StepSpec::Await => r == Ok::<StepOutcome, VmError>(StepOutcome::NeedInput) && final(self).data@ == old(self).data@ && final(self).pointer == old(self).pointer,
                StepSpec::Stop => r == Ok::<StepOutcome, VmError>(StepOutcome::Halted) && final(self).data@ == old(self).data@ && final(self).pointer == old(self).pointer,
                StepSpec::Fail { d, e } => r == Err::<StepOutcome, VmError>(e) && final(self).data@
                    == d && final(self).pointer == old(self).pointer,
            },
    {
        let p = self.pointer;
        if p >= self.data.length_memory() {
            return Err(VmError::PcOutOfRange { pc: p });
        }
        let w = match self.data.read_memory(p as u16) {
            Ok(w) => w,
            Err(e) => {
                return Err(e);
            },
        };
        if w == 0 {
            return Ok(StepOutcome::Halted);
        }
        if w == 19 {
            let v = match self.data.get_number(p + 1) {
                Ok(v) => v,
                Err(e) => {
                    return Err(e);
                },
            };
            if 0xD800 <= v && v <= 0xDFFF {
                return Err(VmError::EncodingFailure { value: v });
            }
            self.pointer = p + 2;
            return Ok(StepOutcome::Output(v));
        }
        if w == 20 {
            return Ok(StepOutcome::NeedInput);
        }
        if w > 21 {
            return Err(VmError::UnknownOpcode { op: w });
        }
        let acted = if w == 1 {
            op_set(&mut self.data, p)
        } else if w == 2 {
            op_push(&mut self.data, p)
        } else if w == 3 {
            op_pop(&mut self.data, p)
        } else if w == 4 {
            op_eq(&mut self.data, p)
        } else if w == 5 {
            op_gt(&mut self.data, p)
        } else if w == 6 {
            op_jmp(&mut self.data, p)
        } else if w == 7 {
            op_jt(&mut self.data, p)
        } else if w == 8 {
            op_jf(&mut self.data, p)
        } else if w == 9 {
            op_add(&mut self.data, p)
        } else if w == 10 {
            op_mul(&mut self.data, p)
        } else if w == 11 {
            op_mod(&mut self.data, p)
        } else if w == 12 {
            op_and(&mut self.data, p)
        } else if w == 13 {
            op_or(&mut self.data, p)
        } else if w == 14 {
            op_not(&mut self.data, p)
        } else if w == 15 {
            op_rmem(&mut self.data, p)
        } else if w == 16 {
            op_wmem(&mut self.data, p)
        } else if w == 17 {
            op_call(&mut self.data, p)
        } else if w == 18 {
            op_ret(&mut self.data, p)
        } else {
            op_noop(&mut self.data, p)
        };
        match acted {
            Ok(Action::Move(k)) => {
                self.pointer = p + k as usize;
                Ok(StepOutcome::Running)
            },
            Ok(Action::Jump(j)) => {
                self.pointer = j as usize;
                Ok(StepOutcome::Running)
            },
            Ok(Action::Halt) => Ok(StepOutcome::Halted),
            Err(e) => Err(e),
        }
    }

    /// Hands the machine the byte that an awaiting `in` instruction
    /// asked for, exactly as [`spec_input`] describes. `None` stands for
    /// the end of input and halts the run cleanly; a carriage return is
    /// dropped and another byte requested.
    pub fn step_input(&mut self, byte: Option<u8>) -> (r: Result<StepOutcome, VmError>)
        requires
            dm_wf(old(self).data@),
            spec_step(old(self).data@, old(self).pointer as int) is Await,
        ensures
            dm_wf(final(self).data@),
            match spec_input(old(self).data@, old(self).pointer as int, byte) {
                StepSpec::Next { d, pc } => r == Ok::<StepOutcome, VmError>(StepOutcome::Running)
                    && final(self).data@ == d && final(self).pointer == pc,
                StepSpec::Await => r == Ok::<StepOutcome, VmError>(StepOutcome::NeedInput) && final(self).data@ == old(self).data@ && final(self).pointer == old(self).pointer,
                StepSpec::Stop => r == Ok::<StepOutcome, VmError>(StepOutcome::Halted) && final(self).data@ == old(self).data@ && final(self).pointer == old(self).pointer,
                StepSpec::Fail { d, e } => r == Err::<StepOutcome, VmError>(e) && final(self).data@
                    == d && final(self).pointer == old(self).pointer,
                StepSpec::Emit { d, pc, code } => false,
            },
    {
        match byte {
            None => Ok(StepOutcome::Halted),
            Some(b) => {
                if b == 13 {
                    return Ok(StepOutcome::NeedInput);
                }
                let p = self.pointer;
                match self.data.set_number(p + 1, b as u16) {
                    Ok(()) => {
                        self.pointer = p + 2;
                        Ok(StepOutcome::Running)
                    },
                    Err(e) => Err(e),
                }
            },
        }
    }
}

} // verus!
