use synacor::data::Data;
use synacor::errors::VmError;
use synacor::vm::{StepOutcome, VM};

/// Drives a machine to completion, feeding it `inputs` byte by byte and
/// collecting every emitted code point.
fn run_collect(vm: &mut VM, inputs: &[u8]) -> Result<Vec<u16>, VmError> {
    let mut out: Vec<u16> = Vec::new();
    let mut idx: usize = 0;
    loop {
        match vm.step()? {
            StepOutcome::Running => {}
            StepOutcome::Halted => return Ok(out),
            StepOutcome::Output(c) => out.push(c),
            StepOutcome::NeedInput => loop {
                let b = if idx < inputs.len() {
                    let b = inputs[idx];
                    idx += 1;
                    Some(b)
                } else {
                    None
                };
                match vm.step_input(b)? {
                    StepOutcome::NeedInput => continue,
                    StepOutcome::Halted => return Ok(out),
                    StepOutcome::Running => break,
                    StepOutcome::Output(_) => unreachable!(),
                }
            },
        }
    }
}

#[test]
fn hello_digit_program() {
    // add reg[0], reg[1], 4 — with reg[1] primed to 5 — then out reg[0].
    let mut data = Data::new(&[9, 32768, 32769, 4, 19, 32768, 0]);
    data.set_number(2, 5).unwrap();
    let mut vm = VM::new(data);
    assert_eq!(run_collect(&mut vm, &[]), Ok(vec![9u16]));
}

#[test]
fn branch_taken_runs_off_the_image() {
    let data = Data::new(&[7, 1, 5, 0, 0, 21]);
    let mut vm = VM::new(data);
    let result = run_collect(&mut vm, &[]);
    assert_eq!(result, Err(VmError::PcOutOfRange { pc: 6 }));
    assert_eq!(
        result.map_err(|e| e.message()),
        Err("Out of range 6!".to_string())
    );
}

#[test]
fn branch_taken_with_halt() {
    let data = Data::new(&[7, 1, 5, 0, 0, 0]);
    let mut vm = VM::new(data);
    assert_eq!(run_collect(&mut vm, &[]), Ok(vec![]));
}

#[test]
fn call_and_ret() {
    let data = Data::new(&[17, 4, 0, 0, 18]);
    let mut vm = VM::new(data);
    assert_eq!(run_collect(&mut vm, &[]), Ok(vec![]));
    // The return address was popped again: the stack ends empty.
    assert_eq!(
        vm.data.pop_stack(),
        Err(VmError::StackUnderflow)
    );
}

#[test]
fn wrap_around_addition() {
    let data = Data::new(&[9, 32768, 32767, 32767, 0]);
    let mut vm = VM::new(data);
    assert_eq!(run_collect(&mut vm, &[]), Ok(vec![]));
    assert_eq!(vm.data.get_number(1), Ok(32766));
}

#[test]
fn mult_overflow_reduces() {
    let data = Data::new(&[10, 32768, 30000, 30000, 0]);
    let mut vm = VM::new(data);
    assert_eq!(run_collect(&mut vm, &[]), Ok(vec![]));
    assert_eq!(vm.data.get_number(1), Ok(26880));
}

#[test]
fn pop_on_empty_stack_underflows() {
    let data = Data::new(&[3, 32768, 0]);
    let mut vm = VM::new(data);
    assert_eq!(run_collect(&mut vm, &[]), Err(VmError::StackUnderflow));
}

#[test]
fn ret_on_empty_stack_halts() {
    let data = Data::new(&[18]);
    let mut vm = VM::new(data);
    assert_eq!(run_collect(&mut vm, &[]), Ok(vec![]));
}

#[test]
fn input_at_eof_halts() {
    let data = Data::new(&[20, 32768, 0]);
    let mut vm = VM::new(data);
    assert_eq!(run_collect(&mut vm, &[]), Ok(vec![]));
}

#[test]
fn input_skips_carriage_return() {
    let data = Data::new(&[20, 32768, 0]);
    let mut vm = VM::new(data);
    assert_eq!(run_collect(&mut vm, &[13, 10]), Ok(vec![]));
    assert_eq!(vm.data.get_number(1), Ok(10));
}

#[test]
fn operand_too_large_fails() {
    let data = Data::new(&[2, 32776, 0]);
    let mut vm = VM::new(data);
    let result = run_collect(&mut vm, &[]);
    assert_eq!(
        result,
        Err(VmError::OperandTooLarge {
            at: 1,
            value: 32776
        })
    );
    assert_eq!(
        result.map_err(|e| e.message()),
        Err("Number at 1 (32776) is too large!".to_string())
    );
}

#[test]
fn unknown_opcode_fails() {
    let data = Data::new(&[22, 0]);
    let mut vm = VM::new(data);
    assert_eq!(
        run_collect(&mut vm, &[]).map_err(|e| e.message()),
        Err("Unknown opcode 22!".to_string())
    );
}

#[test]
fn modulo_by_zero_fails() {
    let data = Data::new(&[11, 32768, 7, 0, 0]);
    let mut vm = VM::new(data);
    assert_eq!(
        run_collect(&mut vm, &[]),
        Err(VmError::DivisionByZero { at: 0 })
    );
}

#[test]
fn comparisons_and_bitwise() {
    // eq, gt, and, or, not over literals, each into register 0,
    // pushing each result so the trace is observable.
    let data = Data::new(&[
        4, 32768, 5, 5, // eq -> 1
        2, 32768, // push 1
        5, 32768, 5, 7, // gt -> 0
        2, 32768, // push 0
        12, 32768, 12, 10, // and -> 8
        2, 32768, // push 8
        13, 32768, 12, 10, // or -> 14
        2, 32768, // push 14
        14, 32768, 0, // not -> 32767
        0,
    ]);
    let mut vm = VM::new(data);
    assert_eq!(run_collect(&mut vm, &[]), Ok(vec![]));
    assert_eq!(vm.data.get_number(1), Ok(32767));
    assert_eq!(vm.data.pop_stack(), Ok(14));
    assert_eq!(vm.data.pop_stack(), Ok(8));
    assert_eq!(vm.data.pop_stack(), Ok(0));
    assert_eq!(vm.data.pop_stack(), Ok(1));
}

#[test]
fn wmem_then_rmem_reads_back() {
    // wmem 7 123; rmem reg[0] 7; halt; data 0
    let data = Data::new(&[16, 7, 123, 15, 32768, 7, 0, 0]);
    let mut vm = VM::new(data);
    assert_eq!(run_collect(&mut vm, &[]), Ok(vec![]));
    assert_eq!(vm.data.get_number(4), Ok(123));
    assert_eq!(vm.data.read_memory(7), Ok(123));
}

#[test]
fn out_emits_code_points() {
    let data = Data::new(&[19, 72, 19, 105, 0]);
    let mut vm = VM::new(data);
    assert_eq!(run_collect(&mut vm, &[]), Ok(vec![72, 105]));
}

#[test]
fn modulo_computes_remainders() {
    let data = Data::new(&[11, 32768, 17, 5, 0]);
    let mut vm = VM::new(data);
    assert_eq!(run_collect(&mut vm, &[]), Ok(vec![]));
    assert_eq!(vm.data.get_number(1), Ok(2));
}
