//! Fault values for the virtual machine and the assembler. Every fault
//! is fatal to the run or translation that raised it; none is recovered
//! internally. Each carries the values its fault site reports, and
//! `message` renders the exact human-readable text, specified character
//! by character.

use vstd::prelude::*;

use crate::numbers::{append_dec, dec_chars};
use crate::parser::{arity, mnemonic_text, Mnemonic};

verus! {

/// A fatal fault of the machine.
#[derive(Clone, Copy, Debug, PartialEq, Eq, Structural)]
pub enum VmError {
    /// A word used as an operand is 32776 or more.
    OperandTooLarge { at: usize, value: u16 },
    /// An operand that must denote a register holds a literal word.
    NotARegister { at: usize, value: u16 },
    /// A read from an address at or past the end of memory.
    ReadOutOfRange { addr: u16 },
    /// A write to an address at or past the end of memory.
    WriteOutOfRange { addr: u16 },
    /// `pop` on an empty stack. `ret` on an empty stack halts instead.
    StackUnderflow,
    /// The program counter left the loaded image.
    PcOutOfRange { pc: usize },
    /// A fetched opcode word is 22 or more.
    UnknownOpcode { op: u16 },
    /// `mod` with a zero divisor.
    DivisionByZero { at: usize },
    /// `out` of a surrogate code point, which no character encodes.
    EncodingFailure { value: u16 },
}

/// The rendered text of each fault.
pub open spec fn vm_error_text(e: VmError) -> Seq<char> {
    match e {
        VmError::OperandTooLarge { at, value } => "Number at "@ + dec_chars(at as nat) + " ("@
            + dec_chars(value as nat) + ") is too large!"@,
        VmError::NotARegister { at, value } => "Number at "@ + dec_chars(at as nat) + " ("@
            + dec_chars(value as nat) + ") is not a register!"@,
        VmError::ReadOutOfRange { addr } => "Reading from out of range address "@ + dec_chars(
            addr as nat,
        ) + "!"@,
        VmError::WriteOutOfRange { addr } => "Writing to out of range address "@ + dec_chars(
            addr as nat,
        ) + "!"@,
        VmError::StackUnderflow => "Stack was empty when popping!"@,
        VmError::PcOutOfRange { pc } => "Out of range "@ + dec_chars(pc as nat) + "!"@,
        VmError::UnknownOpcode { op } => "Unknown opcode "@ + dec_chars(op as nat) + "!"@,
        VmError::DivisionByZero { at } => "Modulo by zero at "@ + dec_chars(at as nat) + "!"@,
        VmError::EncodingFailure { value } => "Could not encode "@ + dec_chars(value as nat)
            + " as a character!"@,
    }
}

impl VmError {
    /// Renders the fault as the text a run would report.
    pub fn message(&self) -> (r: String)
        ensures
            r@ == vm_error_text(*self),
    {
        let mut s = String::new();
        match *self {
            VmError::OperandTooLarge { at, value } => {
                proof {
                    reveal_strlit("Number at ");
                    reveal_strlit(" (");
                    reveal_strlit(") is too large!");
                }
                s.append("Number at ");
                append_dec(&mut s, at as u64);
                s.append(" (");
                append_dec(&mut s, value as u64);
                s.append(") is too large!");
            },
            VmError::NotARegister { at, value } => {
                proof {
                    reveal_strlit("Number at ");
                    reveal_strlit(" (");
                    reveal_strlit(") is not a register!");
                }
                s.append("Number at ");
                append_dec(&mut s, at as u64);
                s.append(" (");
                append_dec(&mut s, value as u64);
                s.append(") is not a register!");
            },
            VmError::ReadOutOfRange { addr } => {
                proof {
                    reveal_strlit("Reading from out of range address ");
                    reveal_strlit("!");
                }
                s.append("Reading from out of range address ");
                append_dec(&mut s, addr as u64);
                s.append("!");
            },
            VmError::WriteOutOfRange { addr } => {
                proof {
                    reveal_strlit("Writing to out of range address ");
                    reveal_strlit("!");
                }
                s.append("Writing to out of range address ");
                append_dec(&mut s, addr as u64);
                s.append("!");
            },
            VmError::StackUnderflow => {
                proof {
                    reveal_strlit("Stack was empty when popping!");
                }
                s.append("Stack was empty when popping!");
            },
            VmError::PcOutOfRange { pc } => {
                proof {
                    reveal_strlit("Out of range ");
                    reveal_strlit("!");
                }
                s.append("Out of range ");
                append_dec(&mut s, pc as u64);
                s.append("!");
            },
            VmError::UnknownOpcode { op } => {
                proof {
                    reveal_strlit("Unknown opcode ");
                    reveal_strlit("!");
                }
                s.append("Unknown opcode ");
                append_dec(&mut s, op as u64);
                s.append("!");
            },
            VmError::DivisionByZero { at } => {
                proof {
                    reveal_strlit("Modulo by zero at ");
                    reveal_strlit("!");
                }
                s.append("Modulo by zero at ");
                append_dec(&mut s, at as u64);
                s.append("!");
            },
            VmError::EncodingFailure { value } => {
                proof {
                    reveal_strlit("Could not encode ");
                    reveal_strlit(" as a character!");
                }
                s.append("Could not encode ");
                append_dec(&mut s, value as u64);
                s.append(" as a character!");
            },
        }
        proof {
            assert(s@ =~= vm_error_text(*self));
        }
        s
    }
}


/// A fault of the assembler: a source problem found while parsing, or a
/// resolution problem found while emitting.
#[derive(Clone, Debug, PartialEq, Eq)]
pub enum AsmError {
    /// A numeric label asserted an output address the sweep did not have.
    PointerLabelMismatch { found: u16, expected: u16, line: usize },
    /// A second symbolic label on one line.
    SecondLabel { line: usize },
    /// A token in mnemonic position that names no instruction.
    UnknownOp { op: String, line: usize },
    /// A mnemonic with the wrong number of operands.
    WrongArity { mnemonic: Mnemonic },
    /// The program ran past the last representable output address.
    AddressOverflow { line: usize },
    /// A symbolic operand in a position that takes only literals.
    NotLiteral { mnemonic: Mnemonic, position: usize },
    /// A symbolic operand that no label defines.
    UndefinedLabel { name: String },
}

/// The abstract form of an [`AsmError`].
pub ghost enum AsmErrorV {
    PointerLabelMismatch { found: u16, expected: u16, line: usize },
    SecondLabel { line: usize },
    UnknownOp { op: Seq<char>, line: usize },
    WrongArity { mnemonic: Mnemonic },
    AddressOverflow { line: usize },
    NotLiteral { mnemonic: Mnemonic, position: usize },
    UndefinedLabel { name: Seq<char> },
}

impl View for AsmError {
    type V = AsmErrorV;

    open spec fn view(&self) -> AsmErrorV {
        match self {
            AsmError::PointerLabelMismatch { found, expected, line } => AsmErrorV::PointerLabelMismatch {
                found: *found,
                expected: *expected,
                line: *line,
            },
            AsmError::SecondLabel { line } => AsmErrorV::SecondLabel { line: *line },
            AsmError::UnknownOp { op, line } => AsmErrorV::UnknownOp { op: op@, line: *line },
            AsmError::WrongArity { mnemonic } => AsmErrorV::WrongArity { mnemonic: *mnemonic },
            AsmError::AddressOverflow { line } => AsmErrorV::AddressOverflow { line: *line },
            AsmError::NotLiteral { mnemonic, position } => AsmErrorV::NotLiteral {
                mnemonic: *mnemonic,
                position: *position,
            },
            AsmError::UndefinedLabel { name } => AsmErrorV::UndefinedLabel { name: name@ },
        }
    }
}

/// The wrong-arity complaint of each mnemonic, worded as the assembler
/// reports it.
pub open spec fn arity_error_text(m: Mnemonic) -> Seq<char> {
    match m {
        Mnemonic::OpHalt => "halt takes no arguments"@,
        Mnemonic::OpSet => "set takes two arguments"@,
        Mnemonic::OpPush => "push takes one arguments"@,
        Mnemonic::OpPop => "pop takes one argument"@,
        Mnemonic::OpEq => "eq takes three arguments"@,
        Mnemonic::OpGt => "gt takes three arguments"@,
        Mnemonic::OpJmp => "jmp takes one argument"@,
        Mnemonic::OpJt => "jt takes two arguments"@,
        Mnemonic::OpJf => "jf takes two arguments"@,
        Mnemonic::OpAdd => "add takes three arguments"@,
        Mnemonic::OpMult => "mul takes three arguments"@,
        Mnemonic::OpMod => "mod takes three arguments"@,
        Mnemonic::OpAnd => "and takes three arguments"@,
        Mnemonic::OpOr => "or takes three arguments"@,
        Mnemonic::OpNot => "not takes two arguments"@,
        Mnemonic::OpRMem => "rmem takes two arguments"@,
        Mnemonic::OpWMem => "wmem takes two arguments"@,
        Mnemonic::OpCall => "call takes one argument"@,
        Mnemonic::OpRet => "ret takes no arguments"@,
        Mnemonic::OpOut => "out takes one argument"@,
        Mnemonic::OpIn => "in takes one argument"@,
        Mnemonic::OpNoop => "noop takes no arguments"@,
        Mnemonic::OpData => "data takes one argument"@,
    }
}

/// The written ordinal of an operand position.
pub open spec fn ordinal_text(p: int) -> Seq<char> {
    if p == 0 {
        "first"@
    } else if p == 1 {
        "second"@
    } else {
        "third"@
    }
}

/// The rendered text of each assembler fault.
pub open spec fn asm_error_text(e: AsmErrorV) -> Seq<char> {
    match e {
        AsmErrorV::PointerLabelMismatch { found, expected, line } => "Pointer label was "@
            + dec_chars(found as nat) + " but should have been "@ + dec_chars(expected as nat)
            + " on line "@ + dec_chars(line as nat) + "."@,
        AsmErrorV::SecondLabel { line } => (
        "Only one label per line! Detected a \":\" in an unusual place on line "@) + dec_chars(
            line as nat,
        ) + "."@,
        AsmErrorV::UnknownOp { op, line } => "Unknown op \""@ + op + "\" at line "@ + dec_chars(
            line as nat,
        ) + "."@,
        AsmErrorV::WrongArity { mnemonic } => arity_error_text(mnemonic),
        AsmErrorV::AddressOverflow { line } => "Program is too large at line "@ + dec_chars(
            line as nat,
        ) + "."@,
        AsmErrorV::NotLiteral { mnemonic, position } => if mnemonic is OpData {
            "Data must be a literal."@
        } else if arity(mnemonic) == 1 {
            "The argument of a "@ + mnemonic_text(mnemonic) + " instruction must be a literal."@
        } else {
            "The "@ + ordinal_text(position as int) + " argument of a "@ + mnemonic_text(mnemonic)
                + " instruction must be a literal."@
        },
        AsmErrorV::UndefinedLabel { name } => "Undefined label \""@ + name + "\"!"@,
    }
}

/// The written form of a mnemonic.
pub fn mnemonic_name(m: Mnemonic) -> (r: &'static str)
    ensures
        r@ == mnemonic_text(m),
{
    match m {
        Mnemonic::OpHalt => "halt",
        Mnemonic::OpSet => "set",
        Mnemonic::OpPush => "push",
        Mnemonic::OpPop => "pop",
        Mnemonic::OpEq => "eq",
        Mnemonic::OpGt => "gt",
        Mnemonic::OpJmp => "jmp",
        Mnemonic::OpJt => "jt",
        Mnemonic::OpJf => "jf",
        Mnemonic::OpAdd => "add",
        Mnemonic::OpMult => "mult",
        Mnemonic::OpMod => "mod",
        Mnemonic::OpAnd => "and",
        Mnemonic::OpOr => "or",
        Mnemonic::OpNot => "not",
        Mnemonic::OpRMem => "rmem",
        Mnemonic::OpWMem => "wmem",
        Mnemonic::OpCall => "call",
        Mnemonic::OpRet => "ret",
        Mnemonic::OpOut => "out",
        Mnemonic::OpIn => "in",
        Mnemonic::OpNoop => "noop",
        Mnemonic::OpData => "data",
    }
}

fn arity_complaint(m: Mnemonic) -> (r: &'static str)
    ensures
        r@ == arity_error_text(m),
{
    match m {
        Mnemonic::OpHalt => "halt takes no arguments",
        Mnemonic::OpSet => "set takes two arguments",
        Mnemonic::OpPush => "push takes one arguments",
        Mnemonic::OpPop => "pop takes one argument",
        Mnemonic::OpEq => "eq takes three arguments",
        Mnemonic::OpGt => "gt takes three arguments",
        Mnemonic::OpJmp => "jmp takes one argument",
        Mnemonic::OpJt => "jt takes two arguments",
        Mnemonic::OpJf => "jf takes two arguments",
        Mnemonic::OpAdd => "add takes three arguments",
        Mnemonic::OpMult => "mul takes three arguments",
        Mnemonic::OpMod => "mod takes three arguments",
        Mnemonic::OpAnd => "and takes three arguments",
        Mnemonic::OpOr => "or takes three arguments",
        Mnemonic::OpNot => "not takes two arguments",
        Mnemonic::OpRMem => "rmem takes two arguments",
        Mnemonic::OpWMem => "wmem takes two arguments",
        Mnemonic::OpCall => "call takes one argument",
        Mnemonic::OpRet => "ret takes no arguments",
        Mnemonic::OpOut => "out takes one argument",
        Mnemonic::OpIn => "in takes one argument",
        Mnemonic::OpNoop => "noop takes no arguments",
        Mnemonic::OpData => "data takes one argument",
    }
}

impl AsmError {
    /// Renders the fault as the text the assembler would report.
    pub fn message(&self) -> (r: String)
        ensures
            r@ == asm_error_text(self@),
    {
        let mut s = String::new();
        match self {
            AsmError::PointerLabelMismatch { found, expected, line } => {
                proof {
                    reveal_strlit("Pointer label was ");
                    reveal_strlit(" but should have been ");
                    reveal_strlit(" on line ");
                    reveal_strlit(".");
                }
                s.append("Pointer label was ");
                append_dec(&mut s, *found as u64);
                s.append(" but should have been ");
                append_dec(&mut s, *expected as u64);
                s.append(" on line ");
                append_dec(&mut s, *line as u64);
                s.append(".");
            },
            AsmError::SecondLabel { line } => {
                proof {
                    reveal_strlit(
                        "Only one label per line! Detected a \":\" in an unusual place on line ",
                    );
                    reveal_strlit(".");
                }
                s.append("Only one label per line! Detected a \":\" in an unusual place on line ");
                append_dec(&mut s, *line as u64);
                s.append(".");
            },
            AsmError::UnknownOp { op, line } => {
                proof {
                    reveal_strlit("Unknown op \"");
                    reveal_strlit("\" at line ");
                    reveal_strlit(".");
                }
                s.append("Unknown op \"");
                s.append(op.as_str());
                s.append("\" at line ");
                append_dec(&mut s, *line as u64);
                s.append(".");
            },
            AsmError::WrongArity { mnemonic } => {
                s.append(arity_complaint(*mnemonic));
            },
            AsmError::AddressOverflow { line } => {
                proof {
                    reveal_strlit("Program is too large at line ");
                    reveal_strlit(".");
                }
                s.append("Program is too large at line ");
                append_dec(&mut s, *line as u64);
                s.append(".");
            },
            AsmError::NotLiteral { mnemonic, position } => {
                match mnemonic {
                    Mnemonic::OpData => {
                        s.append("Data must be a literal.");
                    },
                    m => {
                        proof {
                            reveal_strlit("The ");
                            reveal_strlit("The argument of a ");
                            reveal_strlit("first");
                            reveal_strlit("second");
                            reveal_strlit("third");
                            reveal_strlit(" argument of a ");
                            reveal_strlit(" instruction must be a literal.");
                        }
                        if crate::parser::arity_of(*m) == 1 {
                            s.append("The argument of a ");
                        } else {
                            s.append("The ");
                            if *position == 0 {
                                s.append("first");
                            } else if *position == 1 {
                                s.append("second");
                            } else {
                                s.append("third");
                            }
                            s.append(" argument of a ");
                        }
                        s.append(mnemonic_name(*m));
                        s.append(" instruction must be a literal.");
                    },
                }
            },
            AsmError::UndefinedLabel { name } => {
                proof {
                    reveal_strlit("Undefined label \"");
                    reveal_strlit("\"!");
                }
                s.append("Undefined label \"");
                s.append(name.as_str());
                s.append("\"!");
            },
        }
        proof {
            assert(s@ =~= asm_error_text(self@));
        }
        s
    }
}

/// An assembler fault located at the source line that raised it.
#[derive(Clone, Debug, PartialEq, Eq)]
pub struct CompileError {
    pub line: usize,
    pub cause: AsmError,
}

/// The rendered text of a located assembler fault.
pub open spec fn compile_error_text(line: usize, cause: AsmErrorV) -> Seq<char> {
    "Error when compiling line "@ + dec_chars(line as nat) + ".\n\t"@ + asm_error_text(cause)
}

impl CompileError {
    /// Renders the fault as the text the assembler would report.
    pub fn message(&self) -> (r: String)
        ensures
            r@ == compile_error_text(self.line, self.cause@),
    {
        let mut s = String::new();
        proof {
            reveal_strlit("Error when compiling line ");
            reveal_strlit(".\n\t");
        }
        s.append("Error when compiling line ");
        append_dec(&mut s, self.line as u64);
        s.append(".\n\t");
        let tail = self.cause.message();
        s.append(tail.as_str());
        proof {
            assert(s@ =~= compile_error_text(self.line, self.cause@));
        }
        s
    }
}

} // verus!
