//! The assembler inverts the disassembler. For an image whose walk
//! meets only known opcodes and complete instructions, the rendered
//! text parses back to the same instructions with only pointer labels,
//! and compiles back to exactly the original image.

use vstd::prelude::*;

use crate::compiler::{instr_words, operand_words, spec_compile, spec_compile_words, words_le_bytes};
use crate::decompiler::{
    disasm_advance, disasm_line, disasm_line_body, operand_text, spec_disasm, whole_instr_at,
};
use crate::errors::AsmErrorV;
use crate::image::{lemma_words_of_le_bytes, spec_words_of};
use crate::numbers::{
    all_digits, dec_chars, is_digit, lemma_dec_chars_digits, lemma_parse_dec_chars, spec_parse_u16,
};
use crate::parser::{
    apply_line_spec, arity, empty_parts, init_pstate, instr_size, is_space, line_break,
    lemma_line_break_is, mnemonic_of_opcode, mnemonic_text, opcode_of, parse_lines_spec,
    scan_line, skip_ws, spec_lines, spec_mnemonic_of, spec_parse, spec_tokens, token_end, InstrV,
    LabelV, LineParts, Mnemonic, PState, PlacedV, TokenV,
};

verus! {

/// Every instruction the walk meets from `p` on has a known opcode and
/// is complete: the images the round trip holds of.
pub open spec fn wf_walk(mem: Seq<u16>, p: int) -> bool
    decreases mem.len() - p,
{
    if !(0 <= p < mem.len()) {
        true
    } else {
        whole_instr_at(mem, p) && wf_walk(mem, p + disasm_advance(mem, p))
    }
}

/// The line bodies the disassembler's walk renders, ending with the
/// empty line after the final line feed.
pub open spec fn walk_lines(mem: Seq<u16>, p: int) -> Seq<Seq<char>>
    decreases mem.len() - p,
{
    if !(0 <= p < mem.len()) {
        seq![Seq::<char>::empty()]
    } else {
        seq![disasm_line_body(mem, p)] + walk_lines(mem, p + disasm_advance(mem, p))
    }
}

/// The operand tokens the walk's line carries: one literal per word.
pub open spec fn op_token_texts(mem: Seq<u16>, p: int, j: int, size: int) -> Seq<Seq<char>>
    decreases size - j,
{
    if j >= size {
        Seq::empty()
    } else {
        seq![dec_chars(mem[p + j] as nat)] + op_token_texts(mem, p, j + 1, size)
    }
}

/// The operand tokens as parsed: one literal-valued token per word.
pub open spec fn value_args(mem: Seq<u16>, p: int, j: int, size: int) -> Seq<TokenV>
    decreases size - j,
{
    if j >= size {
        Seq::empty()
    } else {
        seq![TokenV::Value(mem[p + j])] + value_args(mem, p, j + 1, size)
    }
}

proof fn lemma_value_args_len(mem: Seq<u16>, p: int, j: int, size: int)
    requires
        j <= size,
    ensures
        value_args(mem, p, j, size).len() == size - j,
        forall|t: int|
            0 <= t < size - j ==> #[trigger] value_args(mem, p, j, size)[t] == TokenV::Value(
                mem[p + j + t],
            ),
    decreases size - j,
{
    if j < size {
        lemma_value_args_len(mem, p, j + 1, size);
    }
}

/// Digit characters are plain text: no spacing, no comment or label
/// punctuation, no sign.
proof fn lemma_digits_plain(s: Seq<char>)
    requires
        all_digits(s),
    ensures
        forall|i: int|
            0 <= i < s.len() ==> !is_space(#[trigger] s[i]) && s[i] != ':' && s[i] != '#' && s[i]
                != '\n' && s[i] != '+',
{
    assert forall|i: int|
        0 <= i < s.len() implies !is_space(#[trigger] s[i]) && s[i] != ':' && s[i] != '#' && s[i]
        != '\n' && s[i] != '+' by {
        assert(is_digit(s[i]));
    }
}

/// The written mnemonics are short plain words.
proof fn lemma_mnemonic_text_plain(m: Mnemonic)
    ensures
        2 <= mnemonic_text(m).len() <= 4,
        forall|i: int|
            0 <= i < mnemonic_text(m).len() ==> !is_space(#[trigger] mnemonic_text(m)[i])
                && mnemonic_text(m)[i] != '\n',
        mnemonic_text(m)[0] != '#',
        mnemonic_text(m).last() != ':',
        spec_parse_u16(mnemonic_text(m)) is None,
{
    reveal_strlit("halt");
    reveal_strlit("set");
    reveal_strlit("push");
    reveal_strlit("pop");
    reveal_strlit("eq");
    reveal_strlit("gt");
    reveal_strlit("jmp");
    reveal_strlit("jt");
    reveal_strlit("jf");
    reveal_strlit("add");
    reveal_strlit("mult");
    reveal_strlit("mod");
    reveal_strlit("and");
    reveal_strlit("or");
    reveal_strlit("not");
    reveal_strlit("rmem");
    reveal_strlit("wmem");
    reveal_strlit("call");
    reveal_strlit("ret");
    reveal_strlit("out");
    reveal_strlit("in");
    reveal_strlit("noop");
    reveal_strlit("data");
    assert(!is_digit(mnemonic_text(m)[0]));
    assert(mnemonic_text(m)[0] != '+');
}

/// Looking a rendered mnemonic up finds the mnemonic it renders: the
/// twenty-three written forms are pairwise distinct.
proof fn lemma_mnemonic_roundtrip(m: Mnemonic)
    ensures
        spec_mnemonic_of(mnemonic_text(m)) == Some(m),
{
    reveal_strlit("halt");
    reveal_strlit("set");
    reveal_strlit("push");
    reveal_strlit("pop");
    reveal_strlit("eq");
    reveal_strlit("gt");
    reveal_strlit("jmp");
    reveal_strlit("jt");
    reveal_strlit("jf");
    reveal_strlit("add");
    reveal_strlit("mult");
    reveal_strlit("mod");
    reveal_strlit("and");
    reveal_strlit("or");
    reveal_strlit("not");
    reveal_strlit("rmem");
    reveal_strlit("wmem");
    reveal_strlit("call");
    reveal_strlit("ret");
    reveal_strlit("out");
    reveal_strlit("in");
    reveal_strlit("noop");
    reveal_strlit("data");
    assert("halt"@.len() == 4);
    assert("set"@.len() == 3);
    assert("push"@.len() == 4);
    assert("pop"@.len() == 3);
    assert("eq"@.len() == 2);
    assert("gt"@.len() == 2);
    assert("jmp"@.len() == 3);
    assert("jt"@.len() == 2);
    assert("jf"@.len() == 2);
    assert("add"@.len() == 3);
    assert("mult"@.len() == 4);
    assert("mod"@.len() == 3);
    assert("and"@.len() == 3);
    assert("or"@.len() == 2);
    assert("not"@.len() == 3);
    assert("rmem"@.len() == 4);
    assert("wmem"@.len() == 4);
    assert("call"@.len() == 4);
    assert("ret"@.len() == 3);
    assert("out"@.len() == 3);
    assert("in"@.len() == 2);
    assert("noop"@.len() == 4);
    assert("data"@.len() == 4);
    assert("halt"@[0] == 'h');
    assert("set"@[0] == 's');
    assert("push"@[0] == 'p');
    assert("pop"@[0] == 'p');
    assert("eq"@[0] == 'e');
    assert("gt"@[0] == 'g');
    assert("jmp"@[0] == 'j');
    assert("jt"@[0] == 'j');
    assert("jf"@[0] == 'j');
    assert("add"@[0] == 'a');
    assert("mult"@[0] == 'm');
    assert("mod"@[0] == 'm');
    assert("and"@[0] == 'a');
    assert("or"@[0] == 'o');
    assert("not"@[0] == 'n');
    assert("rmem"@[0] == 'r');
    assert("wmem"@[0] == 'w');
    assert("call"@[0] == 'c');
    assert("ret"@[0] == 'r');
    assert("out"@[0] == 'o');
    assert("in"@[0] == 'i');
    assert("noop"@[0] == 'n');
    assert("data"@[0] == 'd');
    assert("jt"@[1] == 't');
    assert("jf"@[1] == 'f');
    assert("add"@[1] == 'd');
    assert("and"@[1] == 'n');
}

/// The opcode word of a walk mnemonic is the word it came from.
proof fn lemma_opcode_roundtrip(w: u16)
    requires
        w <= 21,
    ensures
        opcode_of(mnemonic_of_opcode(w)) == w,
        !(mnemonic_of_opcode(w) is OpData),
        instr_size(mnemonic_of_opcode(w)) == 1 + arity(mnemonic_of_opcode(w)),
{
}

/// The token end position is determined by its characterization.
proof fn lemma_token_end_is(s: Seq<char>, i: int, e: int)
    requires
        0 <= i <= e <= s.len(),
        forall|j: int| i <= j < e ==> !is_space(#[trigger] s[j]),
        e < s.len() ==> is_space(s[e]),
    ensures
        token_end(s, i) == e,
    decreases e - i,
{
    if i < e {
        lemma_token_end_is(s, i + 1, e);
    }
}

/// A non-space run up to a boundary is the next token.
proof fn lemma_tokens_prepend(s: Seq<char>, i: int, e: int)
    requires
        0 <= i < e <= s.len(),
        forall|j: int| i <= j < e ==> !is_space(#[trigger] s[j]),
        e < s.len() ==> is_space(s[e]),
    ensures
        spec_tokens(s, i) == seq![s.subrange(i, e)] + spec_tokens(s, e),
{
    lemma_token_end_is(s, i, e);
    assert(skip_ws(s, i) == i);
}

/// A spacing character contributes nothing to the token list.
proof fn lemma_tokens_skip(s: Seq<char>, i: int)
    requires
        0 <= i < s.len(),
        is_space(s[i]),
    ensures
        spec_tokens(s, i) == spec_tokens(s, i + 1),
{
    assert(skip_ws(s, i) == skip_ws(s, i + 1));
}

/// The operand text from `j` on tokenizes to one decimal token per
/// operand word.
proof fn lemma_operand_tokens(s: Seq<char>, i: int, mem: Seq<u16>, p: int, j: int, size: int)
    requires
        0 <= i <= s.len(),
        j <= size,
        s.skip(i) == operand_text(mem, p, j, size),
    ensures
        spec_tokens(s, i) == op_token_texts(mem, p, j, size),
    decreases size - j,
{
    reveal_strlit("\t");
    assert(forall|t: int| 0 <= t < s.len() - i ==> s[i + t] == #[trigger] s.skip(i)[t]);
    if j >= size {
        assert(s.skip(i).len() == 0);
        assert(i == s.len());
        assert(spec_tokens(s, i) =~= op_token_texts(mem, p, j, size));
    } else {
        let d = dec_chars(mem[p + j] as nat);
        lemma_dec_chars_digits(mem[p + j] as nat);
        lemma_digits_plain(d);
        let rest = operand_text(mem, p, j + 1, size);
        assert(s.skip(i) =~= "\t"@ + d + rest);
        assert(s.skip(i)[0] == '\t');
        assert(s[i] == '\t');
        lemma_tokens_skip(s, i);
        let e = i + 1 + d.len();
        assert forall|t: int| 0 <= t < d.len() implies #[trigger] s[i + 1 + t] == d[t] by {
            assert(("\t"@ + d + rest)[1 + t] == d[t]);
            assert(s.skip(i)[1 + t] == ("\t"@ + d + rest)[1 + t]);
            assert(s[i + 1 + t] == s.skip(i)[1 + t]);
        }
        assert forall|jj: int| i + 1 <= jj < e implies !is_space(#[trigger] s[jj]) by {
            assert(s[jj] == s[i + 1 + (jj - i - 1)]);
            assert(s[i + 1 + (jj - i - 1)] == d[jj - i - 1]);
        }
        if j + 1 >= size {
            assert(rest.len() == 0);
            assert(e == s.len());
        } else {
            assert(rest.len() > 0);
            assert(rest[0] == '\t');
            assert(("\t"@ + d + rest)[1 + d.len() as int] == rest[0]);
            assert(s.skip(i)[1 + d.len() as int] == ("\t"@ + d + rest)[1 + d.len() as int]);
            assert(s[e] == s.skip(i)[e - i]);
            assert(s[e] == '\t');
        }
        lemma_tokens_prepend(s, i + 1, e);
        assert forall|t: int| 0 <= t < d.len() implies s.subrange(i + 1, e)[t] == d[t] by {
            assert(s.subrange(i + 1, e)[t] == s[i + 1 + t]);
        }
        assert(s.subrange(i + 1, e) =~= d);
        assert forall|t: int| 0 <= t < rest.len() implies s.skip(e)[t] == rest[t] by {
            assert(s.skip(e)[t] == s[e + t]);
            assert(s[e + t] == s.skip(i)[1 + d.len() + t]);
            assert(s.skip(i)[1 + d.len() + t] == ("\t"@ + d + rest)[1 + d.len() + t]);
            assert(("\t"@ + d + rest)[1 + d.len() + t] == rest[t]);
        }
        assert(s.skip(e) =~= rest);
        lemma_operand_tokens(s, e, mem, p, j + 1, size);
        assert(spec_tokens(s, i) =~= op_token_texts(mem, p, j, size));
    }
}

/// The operand text holds only tabs and digits: no line feed.
proof fn lemma_operand_text_plain(mem: Seq<u16>, p: int, j: int, size: int)
    ensures
        forall|t: int|
            0 <= t < operand_text(mem, p, j, size).len() ==> #[trigger] operand_text(
                mem,
                p,
                j,
                size,
            )[t] != '\n',
    decreases size - j,
{
    reveal_strlit("\t");
    if j < size {
        let d = dec_chars(mem[p + j] as nat);
        lemma_dec_chars_digits(mem[p + j] as nat);
        lemma_digits_plain(d);
        lemma_operand_text_plain(mem, p, j + 1, size);
        let whole = operand_text(mem, p, j, size);
        let rest = operand_text(mem, p, j + 1, size);
        assert forall|t: int| 0 <= t < whole.len() implies #[trigger] whole[t] != '\n' by {
            if t >= 1 + d.len() {
                assert(whole[t] == rest[t - 1 - d.len()]);
            }
        }
    }
}

/// A walked line body holds no line feed.
proof fn lemma_line_body_plain(mem: Seq<u16>, p: int)
    requires
        0 <= p < mem.len(),
    ensures
        forall|t: int|
            0 <= t < disasm_line_body(mem, p).len() ==> #[trigger] disasm_line_body(mem, p)[t]
                != '\n',
{
    reveal_strlit(":\t");
    let body = disasm_line_body(mem, p);
    let d = dec_chars(p as nat);
    lemma_dec_chars_digits(p as nat);
    lemma_digits_plain(d);
    let w = mem[p];
    if whole_instr_at(mem, p) {
        let mn = mnemonic_of_opcode(w);
        let size = instr_size(mn);
        lemma_mnemonic_text_plain(mn);
        lemma_operand_text_plain(mem, p, 1, size);
        let ops = operand_text(mem, p, 1, size);
        assert forall|t: int| 0 <= t < body.len() implies #[trigger] body[t] != '\n' by {
            if t < d.len() {
                assert(body[t] == d[t]);
            } else if t < d.len() + 2 {
                assert(body[t] == ":\t"@[t - d.len()]);
            } else if t < d.len() + 2 + mnemonic_text(mn).len() {
                assert(body[t] == mnemonic_text(mn)[t - d.len() - 2]);
            } else {
                assert(body[t] == ops[t - d.len() - 2 - mnemonic_text(mn).len()]);
            }
        }
    } else {
        let dw = dec_chars(w as nat);
        lemma_dec_chars_digits(w as nat);
        lemma_digits_plain(dw);
        assert forall|t: int| 0 <= t < body.len() implies #[trigger] body[t] != '\n' by {
            if t < d.len() {
                assert(body[t] == d[t]);
            } else if t < d.len() + 2 {
                assert(body[t] == ":\t"@[t - d.len()]);
            } else {
                assert(body[t] == dw[t - d.len() - 2]);
            }
        }
    }
}

/// A line followed by the rest of a text splits off as one line.
proof fn lemma_lines_prepend(body: Seq<char>, rest: Seq<char>)
    requires
        forall|j: int| 0 <= j < body.len() ==> #[trigger] body[j] != '\n',
    ensures
        spec_lines(body + "\n"@ + rest) == seq![body] + spec_lines(rest),
{
    reveal_strlit("\n");
    let s = body + "\n"@ + rest;
    assert(s[body.len() as int] == '\n');
    assert(forall|j: int| 0 <= j < body.len() ==> #[trigger] s[j] == body[j]);
    lemma_line_break_is(s, 0, body.len() as int);
    assert(s.take(body.len() as int) =~= body);
    assert(s.skip(body.len() as int + 1) =~= rest);
    assert(spec_lines(s) =~= seq![body] + spec_lines(rest));
}

/// The disassembly of the walk from `p` splits into the walked line
/// bodies.
proof fn lemma_disasm_lines(mem: Seq<u16>, p: int)
    requires
        0 <= p,
    ensures
        spec_lines(spec_disasm(mem, p)) == walk_lines(mem, p),
    decreases mem.len() - p,
{
    if !(0 <= p < mem.len()) {
        assert(spec_disasm(mem, p) == Seq::<char>::empty());
        assert(line_break(Seq::<char>::empty(), 0) == 0);
        assert(spec_lines(Seq::<char>::empty()) =~= seq![Seq::<char>::empty()]);
    } else {
        let body = disasm_line_body(mem, p);
        let rest = spec_disasm(mem, p + disasm_advance(mem, p));
        lemma_line_body_plain(mem, p);
        assert(disasm_line(mem, p) + rest =~= body + "\n"@ + rest);
        lemma_lines_prepend(body, rest);
        lemma_disasm_lines(mem, p + disasm_advance(mem, p));
        assert(spec_lines(spec_disasm(mem, p)) =~= walk_lines(mem, p));
    }
}


/// The walked line body tokenizes to the pointer label, the mnemonic,
/// and one decimal token per operand.
proof fn lemma_line_body_tokens(mem: Seq<u16>, p: int)
    requires
        0 <= p < mem.len(),
        whole_instr_at(mem, p),
    ensures
        ({
            let mn = mnemonic_of_opcode(mem[p]);
            spec_tokens(disasm_line_body(mem, p), 0) == seq![
                dec_chars(p as nat) + ":"@,
                mnemonic_text(mn),
            ] + op_token_texts(mem, p, 1, instr_size(mn))
        }),
{
    reveal_strlit(":\t");
    reveal_strlit(":");
    reveal_strlit("\t");
    let s = disasm_line_body(mem, p);
    let d = dec_chars(p as nat);
    let dlen = d.len() as int;
    lemma_dec_chars_digits(p as nat);
    lemma_digits_plain(d);
    let mn = mnemonic_of_opcode(mem[p]);
    let mnt = mnemonic_text(mn);
    let size = instr_size(mn);
    let opt = operand_text(mem, p, 1, size);
    lemma_mnemonic_text_plain(mn);
    assert(s =~= d + ":\t"@ + mnt + opt);
    // The pointer-label token runs to the tab after the colon.
    assert(forall|t: int| 0 <= t < dlen ==> #[trigger] s[t] == d[t]);
    assert(s[dlen] == ':');
    assert(s[dlen + 1] == '\t');
    assert(!is_space(':'));
    lemma_tokens_prepend(s, 0, dlen + 1);
    let tok1 = s.subrange(0, dlen + 1);
    assert(tok1 =~= d + ":"@);
    lemma_tokens_skip(s, dlen + 1);
    // The mnemonic token runs to the first operand tab or the end.
    let e2 = dlen + 2 + mnt.len() as int;
    assert forall|t: int| dlen + 2 <= t < e2 implies !is_space(#[trigger] s[t]) by {
        assert(s[t] == mnt[t - dlen - 2]);
    }
    if size == 1 {
        assert(opt.len() == 0);
        assert(e2 == s.len());
    } else {
        assert(opt[0] == '\t');
        assert(s[e2] == opt[0]);
    }
    lemma_tokens_prepend(s, dlen + 2, e2);
    assert(s.subrange(dlen + 2, e2) =~= mnt);
    assert forall|t: int| 0 <= t < opt.len() implies s.skip(e2)[t] == opt[t] by {
        assert(s.skip(e2)[t] == s[e2 + t]);
    }
    assert(s.skip(e2) =~= opt);
    lemma_operand_tokens(s, e2, mem, p, 1, size);
    assert(spec_tokens(s, 0) =~= seq![d + ":"@, mnt] + op_token_texts(mem, p, 1, size));
}

/// Scanning decimal operand tokens gathers literal-valued operands.
proof fn lemma_scan_operands(
    toks: Seq<Seq<char>>,
    j0: int,
    mem: Seq<u16>,
    p: int,
    j: int,
    size: int,
    pointer: u16,
    ln: usize,
    acc: LineParts,
)
    requires
        0 <= j0 <= toks.len(),
        j <= size,
        toks.skip(j0) == op_token_texts(mem, p, j, size),
        acc.mnemonic is Some,
    ensures
        scan_line(toks, j0, pointer, ln, acc) == Ok::<LineParts, AsmErrorV>(
            LineParts {
                label: acc.label,
                mnemonic: acc.mnemonic,
                args: acc.args + value_args(mem, p, j, size),
            },
        ),
    decreases size - j,
{
    if j >= size {
        assert(toks.skip(j0).len() == 0);
        assert(j0 == toks.len());
        assert(acc.args + value_args(mem, p, j, size) =~= acc.args);
        assert(LineParts {
            label: acc.label,
            mnemonic: acc.mnemonic,
            args: acc.args + value_args(mem, p, j, size),
        } =~= acc);
    } else {
        let w = mem[p + j];
        let t = dec_chars(w as nat);
        lemma_dec_chars_digits(w as nat);
        lemma_digits_plain(t);
        assert(op_token_texts(mem, p, j, size) == seq![t] + op_token_texts(mem, p, j + 1, size));
        assert(toks.skip(j0).len() > 0);
        assert(j0 < toks.len());
        assert(toks.skip(j0)[0] == (seq![t] + op_token_texts(mem, p, j + 1, size))[0]);
        assert(toks.skip(j0)[0] == t);
        assert(toks[j0] == toks.skip(j0)[0]);
        assert(t.len() > 0);
        assert(t[0] != '#');
        assert(t.last() != ':');
        lemma_parse_dec_chars(w);
        let acc2 = LineParts {
            label: acc.label,
            mnemonic: acc.mnemonic,
            args: acc.args.push(TokenV::Value(w)),
        };
        assert(scan_line(toks, j0, pointer, ln, acc) == scan_line(toks, j0 + 1, pointer, ln, acc2));
        assert forall|tt: int| 0 <= tt < toks.skip(j0 + 1).len() implies #[trigger] toks.skip(
            j0 + 1,
        )[tt] == op_token_texts(mem, p, j + 1, size)[tt] by {
            assert(toks.skip(j0 + 1)[tt] == toks[j0 + 1 + tt]);
            assert(toks.skip(j0)[tt + 1] == toks[j0 + 1 + tt]);
            assert(toks.skip(j0)[tt + 1] == op_token_texts(mem, p, j, size)[tt + 1]);
            assert((seq![t] + op_token_texts(mem, p, j + 1, size))[tt + 1] == op_token_texts(
                mem,
                p,
                j + 1,
                size,
            )[tt]);
        }
        assert(toks.skip(j0 + 1) =~= op_token_texts(mem, p, j + 1, size));
        lemma_scan_operands(toks, j0 + 1, mem, p, j + 1, size, pointer, ln, acc2);
        assert(acc2.args + value_args(mem, p, j + 1, size) =~= acc.args + value_args(
            mem,
            p,
            j,
            size,
        ));
        assert(LineParts {
            label: acc2.label,
            mnemonic: acc2.mnemonic,
            args: acc2.args + value_args(mem, p, j + 1, size),
        } =~= LineParts {
            label: acc.label,
            mnemonic: acc.mnemonic,
            args: acc.args + value_args(mem, p, j, size),
        });
    }
}

/// Scanning a walked line yields no symbolic label, the instruction's
/// mnemonic, and its operand values.
proof fn lemma_scan_line_values(mem: Seq<u16>, p: int, ln: usize)
    requires
        0 <= p < mem.len() <= 65535,
        whole_instr_at(mem, p),
    ensures
        ({
            let mn = mnemonic_of_opcode(mem[p]);
            scan_line(
                spec_tokens(disasm_line_body(mem, p), 0),
                0,
                p as u16,
                ln,
                empty_parts(),
            ) == Ok::<LineParts, AsmErrorV>(
                LineParts {
                    label: None,
                    mnemonic: Some(mn),
                    args: value_args(mem, p, 1, instr_size(mn)),
                },
            )
        }),
{
    reveal_strlit(":");
    lemma_line_body_tokens(mem, p);
    let mn = mnemonic_of_opcode(mem[p]);
    let size = instr_size(mn);
    let toks = spec_tokens(disasm_line_body(mem, p), 0);
    let d = dec_chars(p as nat);
    let tok1 = d + ":"@;
    let mnt0 = mnemonic_text(mn);
    let ops = op_token_texts(mem, p, 1, size);
    assert(toks == seq![tok1, mnt0] + ops);
    assert(toks.len() == 2 + ops.len());
    assert(toks[0] == (seq![tok1, mnt0] + ops)[0]);
    assert(toks[0] == tok1);
    assert(toks[1] == (seq![tok1, mnt0] + ops)[1]);
    assert(toks[1] == mnt0);
    lemma_dec_chars_digits(p as nat);
    lemma_digits_plain(d);
    // The pointer label passes its assertion against the sweep address.
    assert(tok1.len() > 0);
    assert(tok1[0] == d[0]);
    assert(tok1[0] != '#');
    assert(tok1.last() == ':');
    assert(tok1.drop_last() =~= d);
    assert((p as u16) as nat == p as nat);
    lemma_parse_dec_chars(p as u16);
    assert(spec_parse_u16(d) == Some(p as u16));
    assert(scan_line(toks, 0, p as u16, ln, empty_parts()) == scan_line(
        toks,
        1,
        p as u16,
        ln,
        empty_parts(),
    ));
    // The mnemonic token selects the instruction.
    let mnt = mnemonic_text(mn);
    lemma_mnemonic_text_plain(mn);
    assert(toks[1] == mnt);
    lemma_mnemonic_roundtrip(mn);
    let acc2 = LineParts { label: None, mnemonic: Some(mn), args: Seq::empty() };
    assert(scan_line(toks, 1, p as u16, ln, empty_parts()) == scan_line(
        toks,
        2,
        p as u16,
        ln,
        acc2,
    ));
    // The rest of the tokens are the literal operands.
    assert forall|tt: int| 0 <= tt < toks.skip(2).len() implies #[trigger] toks.skip(2)[tt]
        == op_token_texts(mem, p, 1, size)[tt] by {
        assert(toks.skip(2)[tt] == toks[2 + tt]);
        assert(toks[2 + tt] == (seq![tok1, mnt0] + ops)[2 + tt]);
        assert((seq![tok1, mnt0] + ops)[2 + tt] == ops[tt]);
    }
    assert(toks.skip(2) =~= op_token_texts(mem, p, 1, size));
    lemma_scan_operands(toks, 2, mem, p, 1, size, p as u16, ln, acc2);
    assert(acc2.args + value_args(mem, p, 1, size) =~= value_args(mem, p, 1, size));
    assert(LineParts {
        label: acc2.label,
        mnemonic: acc2.mnemonic,
        args: acc2.args + value_args(mem, p, 1, size),
    } =~= LineParts { label: None, mnemonic: Some(mn), args: value_args(mem, p, 1, size) });
}

/// Applying a walked line places the instruction at the sweep address
/// and advances by its size, binding no label.
proof fn lemma_apply_line_walk(mem: Seq<u16>, p: int, ln: usize, st: PState)
    requires
        0 <= p < mem.len() <= 65535,
        whole_instr_at(mem, p),
        st.pointer == p as u16,
    ensures
        ({
            let mn = mnemonic_of_opcode(mem[p]);
            let size = instr_size(mn);
            apply_line_spec(disasm_line_body(mem, p), ln, st) == Ok::<PState, AsmErrorV>(
                PState {
                    instrs: st.instrs.push(
                        PlacedV {
                            address: p as u16,
                            line_number: ln,
                            instr: InstrV { mnemonic: mn, args: value_args(mem, p, 1, size) },
                        },
                    ),
                    labels: st.labels,
                    pointer: (p + size) as u16,
                },
            )
        }),
{
    lemma_scan_line_values(mem, p, ln);
    let mn = mnemonic_of_opcode(mem[p]);
    let size = instr_size(mn);
    lemma_opcode_roundtrip(mem[p]);
    lemma_value_args_len(mem, p, 1, size);
    assert(value_args(mem, p, 1, size).len() == arity(mn));
    assert(p + size <= mem.len());
    assert(st.pointer + instr_size(mn) <= 65535);
}

/// The operand tokens of a walked instruction compile back to its
/// operand words, whatever the label table holds.
proof fn lemma_operand_words_values(
    mem: Seq<u16>,
    p: int,
    pos: int,
    size: int,
    lbls: Seq<LabelV>,
    m: Mnemonic,
)
    requires
        0 <= p,
        0 <= pos <= size - 1,
        p + size <= mem.len(),
    ensures
        operand_words(m, value_args(mem, p, 1, size), pos, lbls) == Ok::<Seq<u16>, AsmErrorV>(
            mem.subrange(p + 1 + pos, p + size),
        ),
    decreases size - pos,
{
    lemma_value_args_len(mem, p, 1, size);
    let args = value_args(mem, p, 1, size);
    if pos >= size - 1 {
        assert(!(pos < args.len()));
        assert(mem.subrange(p + 1 + pos, p + size) =~= Seq::<u16>::empty());
    } else {
        assert(args[pos] == TokenV::Value(mem[p + 1 + pos]));
        lemma_operand_words_values(mem, p, pos + 1, size, lbls, m);
        assert(seq![mem[p + 1 + pos]] + mem.subrange(p + 2 + pos, p + size) =~= mem.subrange(
            p + 1 + pos,
            p + size,
        ));
    }
}

/// A walked instruction's words compile back to the image words it was
/// rendered from, whatever the label table holds.
proof fn lemma_instr_words_values(mem: Seq<u16>, p: int, lbls: Seq<LabelV>)
    requires
        0 <= p < mem.len(),
        whole_instr_at(mem, p),
    ensures
        ({
            let mn = mnemonic_of_opcode(mem[p]);
            let size = instr_size(mn);
            instr_words(InstrV { mnemonic: mn, args: value_args(mem, p, 1, size) }, lbls) == Ok::<
                Seq<u16>,
                AsmErrorV,
            >(mem.subrange(p, p + size))
        }),
{
    let mn = mnemonic_of_opcode(mem[p]);
    let size = instr_size(mn);
    lemma_opcode_roundtrip(mem[p]);
    lemma_value_args_len(mem, p, 1, size);
    lemma_operand_words_values(mem, p, 0, size, lbls, mn);
    assert(seq![opcode_of(mn)] + mem.subrange(p + 1, p + size) =~= mem.subrange(p, p + size));
}

/// Parsing an empty line leaves the sweep state as it stands.
proof fn lemma_apply_empty_line(ln: usize, st: PState)
    ensures
        apply_line_spec(Seq::<char>::empty(), ln, st) == Ok::<PState, AsmErrorV>(st),
{
    assert(skip_ws(Seq::<char>::empty(), 0) == 0);
    assert(spec_tokens(Seq::<char>::empty(), 0) =~= Seq::<Seq<char>>::empty());
    assert(scan_line(Seq::<Seq<char>>::empty(), 0, st.pointer, ln, empty_parts()) == Ok::<
        LineParts,
        AsmErrorV,
    >(empty_parts()));
    assert(PState { labels: st.labels, ..st } =~= st);
}

/// The sweep over the walked lines from `k` on succeeds, binds no
/// label, and gathers instructions that compile back to the image words
/// from `p` on, whatever the label table holds.
proof fn lemma_parse_walk(
    mem: Seq<u16>,
    lines: Seq<Seq<char>>,
    k: int,
    p: int,
    st: PState,
    lbls: Seq<LabelV>,
)
    requires
        0 <= p <= mem.len() <= 65535,
        wf_walk(mem, p),
        0 <= k <= lines.len(),
        lines.skip(k) == walk_lines(mem, p),
        st.pointer == p as u16,
    ensures
        parse_lines_spec(lines, k, st) is Ok,
        ({
            let st2 = parse_lines_spec(lines, k, st)->Ok_0;
            &&& st2.labels == st.labels
            &&& st2.instrs.len() >= st.instrs.len()
            &&& st2.instrs.take(st.instrs.len() as int) == st.instrs
            &&& spec_compile_words(st2.instrs, lbls, st.instrs.len() as int) == Ok::<
                Seq<u16>,
                (usize, AsmErrorV),
            >(mem.skip(p))
        }),
    decreases mem.len() - p,
{
    if !(0 <= p < mem.len()) {
        // Only the final empty line remains.
        assert(lines.skip(k).len() == 1);
        assert(k == lines.len() - 1);
        assert(lines[k] == lines.skip(k)[0]);
        assert(lines[k] =~= Seq::<char>::empty());
        lemma_apply_empty_line((k + 1) as usize, st);
        assert(parse_lines_spec(lines, k + 1, st) == Ok::<PState, (AsmErrorV)>(st));
        let st2 = st;
        assert(st2.instrs.take(st.instrs.len() as int) =~= st.instrs);
        assert(spec_compile_words(st2.instrs, lbls, st.instrs.len() as int) == Ok::<
            Seq<u16>,
            (usize, AsmErrorV),
        >(Seq::<u16>::empty()));
        assert(mem.skip(p) =~= Seq::<u16>::empty());
    } else {
        let mn = mnemonic_of_opcode(mem[p]);
        let size = instr_size(mn);
        assert(walk_lines(mem, p) == seq![disasm_line_body(mem, p)] + walk_lines(mem, p + size));
        assert(lines.skip(k).len() > 0);
        assert(k < lines.len());
        assert(lines[k] == lines.skip(k)[0]);
        assert(lines.skip(k)[0] == (seq![disasm_line_body(mem, p)] + walk_lines(mem, p + size))[0]);
        assert(lines[k] == disasm_line_body(mem, p));
        lemma_apply_line_walk(mem, p, (k + 1) as usize, st);
        let placed = PlacedV {
            address: p as u16,
            line_number: (k + 1) as usize,
            instr: InstrV { mnemonic: mn, args: value_args(mem, p, 1, size) },
        };
        let st1 = PState {
            instrs: st.instrs.push(placed),
            labels: st.labels,
            pointer: (p + size) as u16,
        };
        assert(apply_line_spec(lines[k], (k + 1) as usize, st) == Ok::<PState, AsmErrorV>(st1));
        assert forall|tt: int| 0 <= tt < lines.skip(k + 1).len() implies #[trigger] lines.skip(
            k + 1,
        )[tt] == walk_lines(mem, p + size)[tt] by {
            assert(lines.skip(k + 1)[tt] == lines[k + 1 + tt]);
            assert(lines.skip(k)[tt + 1] == lines[k + 1 + tt]);
            assert(lines.skip(k)[tt + 1] == walk_lines(mem, p)[tt + 1]);
            assert((seq![disasm_line_body(mem, p)] + walk_lines(mem, p + size))[tt + 1]
                == walk_lines(mem, p + size)[tt]);
        }
        assert(lines.skip(k + 1) =~= walk_lines(mem, p + size));
        lemma_parse_walk(mem, lines, k + 1, p + size, st1, lbls);
        let st2 = parse_lines_spec(lines, k + 1, st1)->Ok_0;
        assert(parse_lines_spec(lines, k, st)->Ok_0 == st2);
        // The pushed instruction is still there, right after the old prefix.
        assert(st2.instrs.take(st1.instrs.len() as int) == st1.instrs);
        assert(st2.instrs[st.instrs.len() as int] == st1.instrs[st.instrs.len() as int]);
        assert(st2.instrs[st.instrs.len() as int] == placed);
        assert forall|tt: int| 0 <= tt < st.instrs.len() implies st2.instrs[tt] == st.instrs[tt] by {
            assert(st2.instrs.take(st1.instrs.len() as int)[tt] == st1.instrs[tt]);
            assert(st1.instrs[tt] == st.instrs[tt]);
        }
        assert(st2.instrs.take(st.instrs.len() as int) =~= st.instrs);
        // Its words are the image words it was rendered from.
        lemma_instr_words_values(mem, p, lbls);
        assert(spec_compile_words(st2.instrs, lbls, st1.instrs.len() as int) == Ok::<
            Seq<u16>,
            (usize, AsmErrorV),
        >(mem.skip(p + size)));
        assert(spec_compile_words(st2.instrs, lbls, st.instrs.len() as int) == Ok::<
            Seq<u16>,
            (usize, AsmErrorV),
        >(mem.subrange(p, p + size) + mem.skip(p + size)));
        assert(mem.subrange(p, p + size) + mem.skip(p + size) =~= mem.skip(p));
    }
}

/// Assembling the disassembly of an image yields the image back: for
/// any image whose walk meets only known, complete instructions, the
/// rendered text parses, compiles without consulting any label, and
/// lays out exactly the original words.
pub proof fn lemma_assemble_inverts_disassemble(mem: Seq<u16>)
    requires
        wf_walk(mem, 0),
        mem.len() <= 65535,
    ensures
        spec_parse(spec_disasm(mem, 0)) is Ok,
        spec_compile(spec_parse(spec_disasm(mem, 0))->Ok_0) == Ok::<Seq<u8>, (usize, AsmErrorV)>(
            words_le_bytes(mem),
        ),
        spec_words_of(words_le_bytes(mem)) == mem,
{
    lemma_disasm_lines(mem, 0);
    let lines = spec_lines(spec_disasm(mem, 0));
    assert(lines.skip(0) =~= lines);
    lemma_parse_walk(mem, lines, 0, 0, init_pstate(), Seq::<LabelV>::empty());
    let st2 = parse_lines_spec(lines, 0, init_pstate())->Ok_0;
    assert(st2.labels =~= Seq::<LabelV>::empty());
    assert(mem.skip(0) =~= mem);
    assert(spec_compile_words(st2.instrs, st2.labels, 0) == Ok::<Seq<u16>, (usize, AsmErrorV)>(
        mem,
    ));
    lemma_words_of_le_bytes(mem);
}

/// Disassembling the reassembled image reproduces the text: normalized
/// source — the disassembler's own output — is a fixed point of the
/// round trip.
pub proof fn lemma_roundtrip_preserves_text(mem: Seq<u16>)
    requires
        wf_walk(mem, 0),
        mem.len() <= 65535,
    ensures
        ({
            let bytes = spec_compile(spec_parse(spec_disasm(mem, 0))->Ok_0)->Ok_0;
            spec_disasm(spec_words_of(bytes), 0) == spec_disasm(mem, 0)
        }),
{
    lemma_assemble_inverts_disassemble(mem);
}

} // verus!
