//! The machine's global guarantees, stated and proved over the abstract
//! semantics: the register range invariant, the modular arithmetic of
//! `mult`, the 15-bit complement of `not`, and read-your-writes across
//! `wmem` and `rmem`.

use vstd::prelude::*;

use crate::data::{dm_wf, reg_store, spec_read, spec_resolve, DataModel};
use crate::errors::VmError;
use crate::vm::{
    spec_dispatch, spec_input, spec_op_mul, spec_op_not, spec_op_rmem, spec_op_wmem,
    spec_step, store_move, Action, StepSpec,
};

verus! {

/// Under the machine invariant, every resolved operand value fits in 15
/// bits: a literal by its class, a register's contents by the
/// invariant.
pub proof fn lemma_resolve_bounded(m: DataModel, i: int)
    requires
        dm_wf(m),
        spec_resolve(m, i) is Ok,
    ensures
        spec_resolve(m, i)->Ok_0 <= 32767,
{
}

/// Storing through a register operand preserves the machine invariant:
/// the stored value is reduced modulo 32768, so no register ever holds
/// more than 32767.
pub proof fn lemma_reg_store_wf(m: DataModel, r: int, value: u16)
    requires
        dm_wf(m),
        reg_store(m, r, value) is Ok,
    ensures
        dm_wf(reg_store(m, r, value)->Ok_0),
{
    let m2 = reg_store(m, r, value)->Ok_0;
    assert(forall|j: int| 0 <= j < 8 ==> #[trigger] m2.regs[j] <= 32767);
}

proof fn lemma_store_move_wf(m: DataModel, i: int, value: u16, k: u16)
    requires
        dm_wf(m),
    ensures
        dm_wf(store_move(m, i, value, k).0),
{
    if reg_store(m, i + 1, value) is Ok {
        lemma_reg_store_wf(m, i + 1, value);
    }
}

/// Every register value is in `0..=32767` in every state a step can
/// reach: whatever instruction runs at `pc`, and however it ends, the
/// machine invariant holds of the state it leaves behind.
pub proof fn lemma_step_preserves_wf(m: DataModel, pc: int)
    requires
        dm_wf(m),
    ensures
        match spec_step(m, pc) {
            StepSpec::Next { d, pc: pc2 } => dm_wf(d),
            StepSpec::Emit { d, pc: pc2, code } => dm_wf(d),
            StepSpec::Fail { d, e } => dm_wf(d),
            StepSpec::Await => true,
            StepSpec::Stop => true,
        },
{
    if 0 <= pc < m.mem.len() {
        let w = m.mem[pc];
        if 0 < w <= 21 && w != 19 && w != 20 {
            lemma_dispatch_preserves_wf(m, pc, w);
        }
    }
}

proof fn lemma_dispatch_preserves_wf(m: DataModel, pc: int, w: u16)
    requires
        dm_wf(m),
    ensures
        dm_wf(spec_dispatch(m, pc, w).0),
{
    let m_push = DataModel { stack: m.stack.push((pc + 2) as u16), ..m };
    assert(dm_wf(m_push));
    if m.stack.len() > 0 {
        let m_pop = DataModel { stack: m.stack.drop_last(), ..m };
        assert(dm_wf(m_pop));
        lemma_store_move_wf(m_pop, pc, m.stack.last(), 2);
    }
    if w == 16 {
        match (spec_resolve(m, pc + 1), spec_resolve(m, pc + 2)) {
            (Ok(a), Ok(v)) => {
                if a < m.mem.len() {
                    let m2 = DataModel { mem: m.mem.update(a as int, v), ..m };
                    assert(dm_wf(m2));
                }
            },
            _ => {},
        }
    }
    assert forall|value: u16, k: u16| dm_wf(#[trigger] store_move(m, pc, value, k).0) by {
        lemma_store_move_wf(m, pc, value, k);
    }
}

/// The byte handed to an awaiting `in` instruction lands reduced in a
/// register, so input too preserves the machine invariant.
pub proof fn lemma_input_preserves_wf(m: DataModel, pc: int, byte: Option<u8>)
    requires
        dm_wf(m),
    ensures
        match spec_input(m, pc, byte) {
            StepSpec::Next { d, pc: pc2 } => dm_wf(d),
            StepSpec::Fail { d, e } => dm_wf(d),
            _ => true,
        },
{
    match byte {
        Some(b) => if b != 13 && reg_store(m, pc + 1, b as u16) is Ok {
            lemma_reg_store_wf(m, pc + 1, b as u16);
        },
        None => {},
    }
}

/// Every stack entry is a machine word: the stack holds 16-bit words by
/// construction, so no entry can exceed 65535.
pub proof fn lemma_stack_entries_are_words(m: DataModel)
    ensures
        forall|j: int| 0 <= j < m.stack.len() ==> #[trigger] m.stack[j] <= 65535,
{
}

/// `mult` agrees with `(a * b) mod 32768` for all operand values `a`
/// and `b`: the destination register ends with exactly that product,
/// with no further reduction, since the result already fits in 15 bits.
pub proof fn lemma_mult_agrees(m: DataModel, i: int, a: u16, b: u16)
    requires
        dm_wf(m),
        spec_resolve(m, i + 2) == Ok::<u16, VmError>(a),
        spec_resolve(m, i + 3) == Ok::<u16, VmError>(b),
        spec_op_mul(m, i).1 is Ok,
    ensures
        ({
            let w = spec_read(m, i + 1)->Ok_0;
            &&& spec_read(m, i + 1) is Ok
            &&& 32768 <= w <= 32775
            &&& spec_op_mul(m, i).0.regs[w - 32768] == ((a as int) * (b as int)) % 32768
            &&& spec_op_mul(m, i).1 == Ok::<Action, VmError>(Action::Move(4))
        }),
{
    let prod = ((a as int) * (b as int)) % 32768;
    assert(0 <= prod < 32768);
    let v = prod as u16;
    assert(v % 32768 == v);
}

/// `not` computes the 15-bit complement: for every operand value `x`
/// within the register range, the destination register ends with
/// exactly `0x7FFF XOR x`.
pub proof fn lemma_not_complement(m: DataModel, i: int, x: u16)
    requires
        dm_wf(m),
        spec_resolve(m, i + 2) == Ok::<u16, VmError>(x),
        spec_op_not(m, i).1 is Ok,
    ensures
        ({
            let w = spec_read(m, i + 1)->Ok_0;
            &&& spec_read(m, i + 1) is Ok
            &&& 32768 <= w <= 32775
            &&& spec_op_not(m, i).0.regs[w - 32768] == (0x7FFF ^ x)
            &&& spec_op_not(m, i).1 == Ok::<Action, VmError>(Action::Move(3))
        }),
{
    lemma_resolve_bounded(m, i + 2);
    assert(x <= 32767 ==> (0x7FFF ^ x) <= 32767) by (bit_vector);
    let v = (0x7FFF ^ x) as u16;
    assert(v % 32768 == v);
}

/// Read-your-writes across instructions: after a successful
/// `wmem a v`, an `rmem r a` from the same address leaves register `r`
/// holding exactly `v`.
pub proof fn lemma_wmem_then_rmem(m: DataModel, i: int, j: int, a: u16, v: u16)
    requires
        dm_wf(m),
        spec_resolve(m, i + 1) == Ok::<u16, VmError>(a),
        spec_resolve(m, i + 2) == Ok::<u16, VmError>(v),
        spec_op_wmem(m, i).1 is Ok,
        spec_resolve(spec_op_wmem(m, i).0, j + 2) == Ok::<u16, VmError>(a),
        spec_op_rmem(spec_op_wmem(m, i).0, j).1 is Ok,
    ensures
        ({
            let m1 = spec_op_wmem(m, i).0;
            let w = spec_read(m1, j + 1)->Ok_0;
            &&& spec_read(m1, a as int) == Ok::<u16, VmError>(v)
            &&& spec_read(m1, j + 1) is Ok
            &&& 32768 <= w <= 32775
            &&& spec_op_rmem(m1, j).0.regs[w - 32768] == v
        }),
{
    lemma_resolve_bounded(m, i + 2);
    assert(v % 32768 == v);
}

} // verus!
