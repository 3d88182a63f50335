//! The assembler's back end: each placed instruction becomes its opcode
//! word followed by its operand words, with symbolic operands resolved
//! against the label table, and the words laid out as little-endian
//! bytes — the binary image format.

use vstd::prelude::*;

use vstd::bytes::{spec_u16_to_le_bytes, u16_to_le_bytes};

use crate::errors::{AsmError, AsmErrorV, CompileError};
use crate::parser::{
    arity, arity_of, lookup_label, label_index, opcode_of, str_eq, Instruction, InstrV,
    LabelBinding, LabelV, Mnemonic, Parsing, ParsingV, PlacedV, Token, TokenV,
};

verus! {

/// Whether an operand position of a mnemonic accepts a symbolic label:
/// only the jump, call and memory-address targets do; every other
/// position takes a literal.
pub open spec fn label_ok(m: Mnemonic, position: int) -> bool {
    match m {
        Mnemonic::OpJmp => position == 0,
        Mnemonic::OpJt => position == 1,
        Mnemonic::OpJf => position == 1,
        Mnemonic::OpRMem => position == 1,
        Mnemonic::OpWMem => position == 0,
        Mnemonic::OpCall => position == 0,
        _ => false,
    }
}

/// The image word one operand token denotes: a literal's value, or the
/// address a symbolic label resolves to where the position allows one.
pub open spec fn operand_word(m: Mnemonic, position: int, t: TokenV, labels: Seq<LabelV>) -> Result<
    u16,
    AsmErrorV,
> {
    match t {
        TokenV::Value(v) => Ok(v),
        TokenV::Label(l) => if label_ok(m, position) {
            match lookup_label(labels, l) {
                Some(a) => Ok(a),
                None => Err(AsmErrorV::UndefinedLabel { name: l }),
            }
        } else {
            Err(AsmErrorV::NotLiteral { mnemonic: m, position: position as usize })
        },
    }
}

/// The operand words of an instruction from `position` on.
pub open spec fn operand_words(
    m: Mnemonic,
    args: Seq<TokenV>,
    position: int,
    labels: Seq<LabelV>,
) -> Result<Seq<u16>, AsmErrorV>
    decreases args.len() - position,
{
    if !(0 <= position < args.len()) {
        Ok(Seq::empty())
    } else {
        match operand_word(m, position, args[position], labels) {
            Err(e) => Err(e),
            Ok(w) => match operand_words(m, args, position + 1, labels) {
                Err(e) => Err(e),
                Ok(rest) => Ok(seq![w] + rest),
            },
        }
    }
}

/// The image words of one instruction: its opcode word and its operand
/// words. `data` has no opcode word and emits its one literal alone.
pub open spec fn instr_words(iv: InstrV, labels: Seq<LabelV>) -> Result<Seq<u16>, AsmErrorV> {
    if iv.args.len() != arity(iv.mnemonic) {
        Err(AsmErrorV::WrongArity { mnemonic: iv.mnemonic })
    } else {
        match operand_words(iv.mnemonic, iv.args, 0, labels) {
            Err(e) => Err(e),
            Ok(ops) => if iv.mnemonic is OpData {
                Ok(ops)
            } else {
                Ok(seq![opcode_of(iv.mnemonic)] + ops)
            },
        }
    }
}

/// The words of the instructions from `k` on, in order; a fault carries
/// the source line of the instruction that raised it.
pub open spec fn spec_compile_words(instrs: Seq<PlacedV>, labels: Seq<LabelV>, k: int) -> Result<
    Seq<u16>,
    (usize, AsmErrorV),
>
    decreases instrs.len() - k,
{
    if !(0 <= k < instrs.len()) {
        Ok(Seq::empty())
    } else {
        match instr_words(instrs[k].instr, labels) {
            Err(e) => Err(((instrs[k].line_number, e))),
            Ok(ws) => match spec_compile_words(instrs, labels, k + 1) {
                Err(le) => Err(le),
                Ok(rest) => Ok(ws + rest),
            },
        }
    }
}

/// The little-endian byte layout of a word sequence: each word low byte
/// first.
pub open spec fn words_le_bytes(ws: Seq<u16>) -> Seq<u8>
    decreases ws.len(),
{
    if ws.len() == 0 {
        Seq::empty()
    } else {
        spec_u16_to_le_bytes(ws[0]) + words_le_bytes(ws.skip(1))
    }
}

/// The byte layout of a single word is that word's two bytes.
pub proof fn lemma_words_le_bytes_single(w: u16)
    ensures
        words_le_bytes(seq![w]) == spec_u16_to_le_bytes(w),
{
    assert(seq![w].skip(1) =~= Seq::<u16>::empty());
    assert(words_le_bytes(Seq::<u16>::empty()) == Seq::<u8>::empty());
    assert(spec_u16_to_le_bytes(w) + Seq::<u8>::empty() =~= spec_u16_to_le_bytes(w));
}

/// Byte layout distributes over concatenation of word sequences.
pub proof fn lemma_words_le_bytes_concat(a: Seq<u16>, b: Seq<u16>)
    ensures
        words_le_bytes(a + b) == words_le_bytes(a) + words_le_bytes(b),
    decreases a.len(),
{
    if a.len() == 0 {
        assert(a + b =~= b);
        assert(words_le_bytes(a) + words_le_bytes(b) =~= words_le_bytes(b));
    } else {
        lemma_words_le_bytes_concat(a.skip(1), b);
        assert((a + b).skip(1) =~= a.skip(1) + b);
        assert(words_le_bytes(a) + words_le_bytes(b) =~= spec_u16_to_le_bytes(a[0]) + (
        words_le_bytes(a.skip(1)) + words_le_bytes(b)));
    }
}

/// The complete specification of compilation: the concatenated words of
/// every instruction, as little-endian bytes.
pub open spec fn spec_compile(p: ParsingV) -> Result<Seq<u8>, (usize, AsmErrorV)> {
    match spec_compile_words(p.instructions, p.labels, 0) {
        Ok(ws) => Ok(words_le_bytes(ws)),
        Err(le) => Err(le),
    }
}

/// Resolves a label name against the table.
#[verifier::loop_isolation(false)]
fn lookup_binding(labels: &Vec<LabelBinding>, name: &String) -> (r: Option<u16>)
    ensures
        r == lookup_label(labels.deep_view(), name@),
{
    let ghost lv = labels.deep_view();
    let n = labels.len();
    let mut k: usize = 0;
    while k < n
        invariant
            0 <= k <= n,
            label_index(lv, name@, 0) == label_index(lv, name@, k as int),
        decreases n - k,
    {
        proof {
            assert(lv[k as int] == labels@[k as int].deep_view());
        }
        if str_eq(labels[k].name.as_str(), name.as_str()) {
            proof {
                assert(label_index(lv, name@, k as int) == k);
            }
            return Some(labels[k].address);
        }
        proof {
            assert(label_index(lv, name@, k as int) == label_index(lv, name@, k + 1));
        }
        k += 1;
    }
    proof {
        assert(label_index(lv, name@, n as int) == n);
    }
    None
}

/// Appends one image word as its two little-endian bytes.
fn push_word(out: &mut Vec<u8>, w: u16)
    ensures
        final(out)@ == old(out)@ + spec_u16_to_le_bytes(w),
{
    let mut bs = u16_to_le_bytes(w);
    out.append(&mut bs);
}

/// Emits one instruction's words, resolving its operands.
#[verifier::loop_isolation(false)]
fn compile_instruction(
    instruction: &Instruction,
    labels: &Vec<LabelBinding>,
    out: &mut Vec<u8>,
) -> (r: Result<(), AsmError>)
    ensures
        match instr_words(instruction@, labels.deep_view()) {
            Ok(ws) => r is Ok && final(out)@ == old(out)@ + words_le_bytes(ws),
            Err(e) => r is Err && r->Err_0@ == e,
        },
{
    let ghost iv = instruction@;
    let ghost lv = labels.deep_view();
    let m = instruction.mnemonic;
    let ar = arity_of(m);
    if instruction.args.len() != ar as usize {
        return Err(AsmError::WrongArity { mnemonic: m });
    }
    let mut words: Vec<u16> = Vec::new();
    let ghost argsv = iv.args;
    let n = instruction.args.len();
    let mut pos: usize = 0;
    proof {
        assert(words@ =~= Seq::<u16>::empty());
    }
    while pos < n
        invariant
            0 <= pos <= n,
            words@.len() == pos,
            match operand_words(m, argsv, pos as int, lv) {
                Ok(rest) => operand_words(m, argsv, 0, lv) == Ok::<Seq<u16>, AsmErrorV>(
                    words@ + rest,
                ),
                Err(e) => operand_words(m, argsv, 0, lv) == Err::<Seq<u16>, AsmErrorV>(e),
            },
        decreases n - pos,
    {
        proof {
            assert(argsv[pos as int] == instruction.args@[pos as int].deep_view());
        }
        let w: u16 = match &instruction.args[pos] {
            Token::Value(v) => *v,
            Token::Label(l) => {
                let allowed = match m {
                    Mnemonic::OpJmp => pos == 0,
                    Mnemonic::OpJt => pos == 1,
                    Mnemonic::OpJf => pos == 1,
                    Mnemonic::OpRMem => pos == 1,
                    Mnemonic::OpWMem => pos == 0,
                    Mnemonic::OpCall => pos == 0,
                    _ => false,
                };
                if !allowed {
                    return Err(AsmError::NotLiteral { mnemonic: m, position: pos });
                }
                match lookup_binding(labels, l) {
                    Some(a) => a,
                    None => {
                        return Err(AsmError::UndefinedLabel { name: l.clone() });
                    },
                }
            },
        };
        let ghost wpre = words@;
        words.push(w);
        proof {
            assert(operand_words(m, argsv, pos as int, lv) == (match operand_words(
                m,
                argsv,
                pos + 1,
                lv,
            ) {
                Ok(rest) => Ok::<Seq<u16>, AsmErrorV>(seq![w] + rest),
                Err(e) => Err::<Seq<u16>, AsmErrorV>(e),
            }));
            assert(forall|rest: Seq<u16>| (wpre + (seq![w] + rest)) =~= (words@ + rest));
        }
        pos += 1;
    }
    proof {
        assert(operand_words(m, argsv, n as int, lv) == Ok::<Seq<u16>, AsmErrorV>(
            Seq::<u16>::empty(),
        ));
        assert(words@ + Seq::<u16>::empty() =~= words@);
        assert(operand_words(m, argsv, 0, lv) == Ok::<Seq<u16>, AsmErrorV>(words@));
    }
    let ghost opre = out@;
    let is_data = match m {
        Mnemonic::OpData => true,
        _ => false,
    };
    if !is_data {
        let opc: u16 = match m {
            Mnemonic::OpHalt => 0,
            Mnemonic::OpSet => 1,
            Mnemonic::OpPush => 2,
            Mnemonic::OpPop => 3,
            Mnemonic::OpEq => 4,
            Mnemonic::OpGt => 5,
            Mnemonic::OpJmp => 6,
            Mnemonic::OpJt => 7,
            Mnemonic::OpJf => 8,
            Mnemonic::OpAdd => 9,
            Mnemonic::OpMult => 10,
            Mnemonic::OpMod => 11,
            Mnemonic::OpAnd => 12,
            Mnemonic::OpOr => 13,
            Mnemonic::OpNot => 14,
            Mnemonic::OpRMem => 15,
            Mnemonic::OpWMem => 16,
            Mnemonic::OpCall => 17,
            Mnemonic::OpRet => 18,
            Mnemonic::OpOut => 19,
            Mnemonic::OpIn => 20,
            Mnemonic::OpNoop => 21,
            Mnemonic::OpData => 0,
        };
        push_word(out, opc);
    }
    let wn = words.len();
    let mut k: usize = 0;
    let ghost base = out@;
    while k < wn
        invariant
            0 <= k <= wn,
            out@ == base + words_le_bytes(words@.take(k as int)),
        decreases wn - k,
    {
        push_word(out, words[k]);
        proof {
            lemma_words_le_bytes_concat(words@.take(k as int), seq![words@[k as int]]);
            assert(words@.take(k + 1) =~= words@.take(k as int) + seq![words@[k as int]]);
            lemma_words_le_bytes_single(words@[k as int]);
            assert(out@ =~= base + words_le_bytes(words@.take(k + 1)));
        }
        k += 1;
    }
    proof {
        assert(words@.take(wn as int) =~= words@);
        let ws = instr_words(iv, lv)->Ok_0;
        if !is_data {
            lemma_words_le_bytes_concat(seq![opcode_of(m)], words@);
            lemma_words_le_bytes_single(opcode_of(m));
            assert(ws =~= seq![opcode_of(m)] + words@);
            assert(out@ =~= opre + words_le_bytes(ws));
        } else {
            assert(ws =~= words@);
            assert(out@ =~= opre + words_le_bytes(ws));
        }
    }
    Ok(())
}

/// Compiles a parsed program to its binary image, exactly as
/// [`spec_compile`] describes: the instructions' words in order, each
/// laid out as two little-endian bytes. A fault names the source line
/// of the instruction that raised it.
#[verifier::loop_isolation(false)]
pub fn compile(parsing: &Parsing) -> (r: Result<Vec<u8>, CompileError>)
    ensures
        match spec_compile(parsing@) {
            Ok(bs) => r is Ok && r->Ok_0@ == bs,
            Err(le) => r is Err && r->Err_0.line == le.0 && r->Err_0.cause@ == le.1,
        },
{
    let ghost iv = parsing@.instructions;
    let ghost lv = parsing@.labels;
    let mut out: Vec<u8> = Vec::new();
    let ghost mut done_words: Seq<u16> = Seq::empty();
    let n = parsing.instructions.len();
    let mut k: usize = 0;
    proof {
        assert(out@ =~= words_le_bytes(done_words));
        if spec_compile_words(iv, lv, 0) is Ok {
            assert(done_words + spec_compile_words(iv, lv, 0)->Ok_0 =~= spec_compile_words(
                iv,
                lv,
                0,
            )->Ok_0);
        }
    }
    while k < n
        invariant
            0 <= k <= n,
            out@ == words_le_bytes(done_words),
            match spec_compile_words(iv, lv, k as int) {
                Ok(rest) => spec_compile_words(iv, lv, 0) == Ok::<Seq<u16>, (usize, AsmErrorV)>(
                    done_words + rest,
                ),
                Err(le) => spec_compile_words(iv, lv, 0) == Err::<Seq<u16>, (usize, AsmErrorV)>(
                    le,
                ),
            },
        decreases n - k,
    {
        proof {
            assert(iv[k as int] == parsing.instructions@[k as int].deep_view());
        }
        let placed = &parsing.instructions[k];
        match compile_instruction(&placed.instruction, &parsing.labels, &mut out) {
            Ok(()) => {},
            Err(e) => {
                return Err(CompileError { line: placed.line_number, cause: e });
            },
        }
        proof {
            let ws = instr_words(iv[k as int].instr, lv)->Ok_0;
            lemma_words_le_bytes_concat(done_words, ws);
            if spec_compile_words(iv, lv, k + 1) is Ok {
                let rest2 = spec_compile_words(iv, lv, k + 1)->Ok_0;
                assert((done_words + ws) + rest2 =~= done_words + (ws + rest2));
            }
            done_words = done_words + ws;
        }
        k += 1;
    }
    proof {
        assert(spec_compile_words(iv, lv, n as int) == Ok::<Seq<u16>, (usize, AsmErrorV)>(
            Seq::<u16>::empty(),
        ));
        assert(done_words + Seq::<u16>::empty() =~= done_words);
    }
    Ok(out)
}

} // verus!
