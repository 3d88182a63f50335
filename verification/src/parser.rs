//! The assembler's front end: a line-oriented source language with
//! labels, mnemonics, decimal operands and `#` comments, parsed in a
//! single sweep into placed instructions and a label table.
//!
//! [`spec_parse`] is the complete character-level specification;
//! [`parse`] is proved to implement it.

use vstd::prelude::*;

use crate::errors::{AsmError, AsmErrorV};
use crate::numbers::{parse_u16_token, spec_parse_u16};

verus! {

/// An operand as written in the source: a decimal literal's value, or a
/// symbolic reference to a label.
#[derive(Clone, Debug)]
pub enum Token {
    Label(String),
    Value(u16),
}

/// The abstract form of a [`Token`].
pub ghost enum TokenV {
    Label(Seq<char>),
    Value(u16),
}

impl View for Token {
    type V = TokenV;

    open spec fn view(&self) -> TokenV {
        match self {
            Token::Label(s) => TokenV::Label(s@),
            Token::Value(v) => TokenV::Value(*v),
        }
    }
}

impl DeepView for Token {
    type V = TokenV;

    open spec fn deep_view(&self) -> TokenV {
        self.view()
    }
}

/// The instruction mnemonics of the source language, together with the
/// `data` pseudo-instruction, which emits one literal word.
#[derive(Clone, Copy, Debug, PartialEq, Eq, Structural)]
pub enum Mnemonic {
    OpHalt,
    OpSet,
    OpPush,
    OpPop,
    OpEq,
    OpGt,
    OpJmp,
    OpJt,
    OpJf,
    OpAdd,
    OpMult,
    OpMod,
    OpAnd,
    OpOr,
    OpNot,
    OpRMem,
    OpWMem,
    OpCall,
    OpRet,
    OpOut,
    OpIn,
    OpNoop,
    OpData,
}

/// How many operands each mnemonic takes.
pub open spec fn arity(m: Mnemonic) -> int {
    match m {
        Mnemonic::OpHalt => 0,
        Mnemonic::OpSet => 2,
        Mnemonic::OpPush => 1,
        Mnemonic::OpPop => 1,
        Mnemonic::OpEq => 3,
        Mnemonic::OpGt => 3,
        Mnemonic::OpJmp => 1,
        Mnemonic::OpJt => 2,
        Mnemonic::OpJf => 2,
        Mnemonic::OpAdd => 3,
        Mnemonic::OpMult => 3,
        Mnemonic::OpMod => 3,
        Mnemonic::OpAnd => 3,
        Mnemonic::OpOr => 3,
        Mnemonic::OpNot => 2,
        Mnemonic::OpRMem => 2,
        Mnemonic::OpWMem => 2,
        Mnemonic::OpCall => 1,
        Mnemonic::OpRet => 0,
        Mnemonic::OpOut => 1,
        Mnemonic::OpIn => 1,
        Mnemonic::OpNoop => 0,
        Mnemonic::OpData => 1,
    }
}

/// How many words each mnemonic occupies in the image: the opcode word
/// plus its operands, except `data`, which has no opcode word.
pub open spec fn instr_size(m: Mnemonic) -> int {
    if m is OpData {
        1
    } else {
        1 + arity(m)
    }
}

/// The opcode word each true mnemonic assembles to. `data` has none.
pub open spec fn opcode_of(m: Mnemonic) -> u16 {
    match m {
        Mnemonic::OpHalt => 0,
        Mnemonic::OpSet => 1,
        Mnemonic::OpPush => 2,
        Mnemonic::OpPop => 3,
        Mnemonic::OpEq => 4,
        Mnemonic::OpGt => 5,
        Mnemonic::OpJmp => 6,
        Mnemonic::OpJt => 7,
        Mnemonic::OpJf => 8,
        Mnemonic::OpAdd => 9,
        Mnemonic::OpMult => 10,
        Mnemonic::OpMod => 11,
        Mnemonic::OpAnd => 12,
        Mnemonic::OpOr => 13,
        Mnemonic::OpNot => 14,
        Mnemonic::OpRMem => 15,
        Mnemonic::OpWMem => 16,
        Mnemonic::OpCall => 17,
        Mnemonic::OpRet => 18,
        Mnemonic::OpOut => 19,
        Mnemonic::OpIn => 20,
        Mnemonic::OpNoop => 21,
        Mnemonic::OpData => 0,
    }
}

/// The mnemonic of a valid opcode word.
pub open spec fn mnemonic_of_opcode(w: u16) -> Mnemonic {
    if w == 0 {
        Mnemonic::OpHalt
    } else if w == 1 {
        Mnemonic::OpSet
    } else if w == 2 {
        Mnemonic::OpPush
    } else if w == 3 {
        Mnemonic::OpPop
    } else if w == 4 {
        Mnemonic::OpEq
    } else if w == 5 {
        Mnemonic::OpGt
    } else if w == 6 {
        Mnemonic::OpJmp
    } else if w == 7 {
        Mnemonic::OpJt
    } else if w == 8 {
        Mnemonic::OpJf
    } else if w == 9 {
        Mnemonic::OpAdd
    } else if w == 10 {
        Mnemonic::OpMult
    } else if w == 11 {
        Mnemonic::OpMod
    } else if w == 12 {
        Mnemonic::OpAnd
    } else if w == 13 {
        Mnemonic::OpOr
    } else if w == 14 {
        Mnemonic::OpNot
    } else if w == 15 {
        Mnemonic::OpRMem
    } else if w == 16 {
        Mnemonic::OpWMem
    } else if w == 17 {
        Mnemonic::OpCall
    } else if w == 18 {
        Mnemonic::OpRet
    } else if w == 19 {
        Mnemonic::OpOut
    } else if w == 20 {
        Mnemonic::OpIn
    } else {
        Mnemonic::OpNoop
    }
}

/// The written form of each mnemonic.
pub open spec fn mnemonic_text(m: Mnemonic) -> Seq<char> {
    match m {
        Mnemonic::OpHalt => "halt"@,
        Mnemonic::OpSet => "set"@,
        Mnemonic::OpPush => "push"@,
        Mnemonic::OpPop => "pop"@,
        Mnemonic::OpEq => "eq"@,
        Mnemonic::OpGt => "gt"@,
        Mnemonic::OpJmp => "jmp"@,
        Mnemonic::OpJt => "jt"@,
        Mnemonic::OpJf => "jf"@,
        Mnemonic::OpAdd => "add"@,
        Mnemonic::OpMult => "mult"@,
        Mnemonic::OpMod => "mod"@,
        Mnemonic::OpAnd => "and"@,
        Mnemonic::OpOr => "or"@,
        Mnemonic::OpNot => "not"@,
        Mnemonic::OpRMem => "rmem"@,
        Mnemonic::OpWMem => "wmem"@,
        Mnemonic::OpCall => "call"@,
        Mnemonic::OpRet => "ret"@,
        Mnemonic::OpOut => "out"@,
        Mnemonic::OpIn => "in"@,
        Mnemonic::OpNoop => "noop"@,
        Mnemonic::OpData => "data"@,
    }
}

/// Which mnemonic, if any, a token names.
pub open spec fn spec_mnemonic_of(s: Seq<char>) -> Option<Mnemonic> {
    if s == "halt"@ {
        Some(Mnemonic::OpHalt)
    } else if s == "set"@ {
        Some(Mnemonic::OpSet)
    } else if s == "push"@ {
        Some(Mnemonic::OpPush)
    } else if s == "pop"@ {
        Some(Mnemonic::OpPop)
    } else if s == "eq"@ {
        Some(Mnemonic::OpEq)
    } else if s == "gt"@ {
        Some(Mnemonic::OpGt)
    } else if s == "jmp"@ {
        Some(Mnemonic::OpJmp)
    } else if s == "jt"@ {
        Some(Mnemonic::OpJt)
    } else if s == "jf"@ {
        Some(Mnemonic::OpJf)
    } else if s == "add"@ {
        Some(Mnemonic::OpAdd)
    } else if s == "mult"@ {
        Some(Mnemonic::OpMult)
    } else if s == "mod"@ {
        Some(Mnemonic::OpMod)
    } else if s == "and"@ {
        Some(Mnemonic::OpAnd)
    } else if s == "or"@ {
        Some(Mnemonic::OpOr)
    } else if s == "not"@ {
        Some(Mnemonic::OpNot)
    } else if s == "rmem"@ {
        Some(Mnemonic::OpRMem)
    } else if s == "wmem"@ {
        Some(Mnemonic::OpWMem)
    } else if s == "call"@ {
        Some(Mnemonic::OpCall)
    } else if s == "ret"@ {
        Some(Mnemonic::OpRet)
    } else if s == "out"@ {
        Some(Mnemonic::OpOut)
    } else if s == "in"@ {
        Some(Mnemonic::OpIn)
    } else if s == "noop"@ {
        Some(Mnemonic::OpNoop)
    } else if s == "data"@ {
        Some(Mnemonic::OpData)
    } else {
        None
    }
}

/// Character-by-character string equality, specified over the views.
pub fn str_eq(a: &str, b: &str) -> (r: bool)
    ensures
        r == (a@ == b@),
{
    let na = a.unicode_len();
    let nb = b.unicode_len();
    if na != nb {
        return false;
    }
    let mut i: usize = 0;
    while i < na
        invariant
            0 <= i <= na,
            na == a@.len(),
            na == b@.len(),
            forall|j: int| 0 <= j < i ==> a@[j] == b@[j],
        decreases na - i,
    {
        if a.get_char(i) != b.get_char(i) {
            return false;
        }
        i += 1;
    }
    proof {
        assert(a@ =~= b@);
    }
    true
}

/// Looks a token up in the mnemonic table.
pub fn mnemonic_of(s: &str) -> (r: Option<Mnemonic>)
    ensures
        r == spec_mnemonic_of(s@),
{
    if str_eq(s, "halt") {
        Some(Mnemonic::OpHalt)
    } else if str_eq(s, "set") {
        Some(Mnemonic::OpSet)
    } else if str_eq(s, "push") {
        Some(Mnemonic::OpPush)
    } else if str_eq(s, "pop") {
        Some(Mnemonic::OpPop)
    } else if str_eq(s, "eq") {
        Some(Mnemonic::OpEq)
    } else if str_eq(s, "gt") {
        Some(Mnemonic::OpGt)
    } else if str_eq(s, "jmp") {
        Some(Mnemonic::OpJmp)
    } else if str_eq(s, "jt") {
        Some(Mnemonic::OpJt)
    } else if str_eq(s, "jf") {
        Some(Mnemonic::OpJf)
    } else if str_eq(s, "add") {
        Some(Mnemonic::OpAdd)
    } else if str_eq(s, "mult") {
        Some(Mnemonic::OpMult)
    } else if str_eq(s, "mod") {
        Some(Mnemonic::OpMod)
    } else if str_eq(s, "and") {
        Some(Mnemonic::OpAnd)
    } else if str_eq(s, "or") {
        Some(Mnemonic::OpOr)
    } else if str_eq(s, "not") {
        Some(Mnemonic::OpNot)
    } else if str_eq(s, "rmem") {
        Some(Mnemonic::OpRMem)
    } else if str_eq(s, "wmem") {
        Some(Mnemonic::OpWMem)
    } else if str_eq(s, "call") {
        Some(Mnemonic::OpCall)
    } else if str_eq(s, "ret") {
        Some(Mnemonic::OpRet)
    } else if str_eq(s, "out") {
        Some(Mnemonic::OpOut)
    } else if str_eq(s, "in") {
        Some(Mnemonic::OpIn)
    } else if str_eq(s, "noop") {
        Some(Mnemonic::OpNoop)
    } else if str_eq(s, "data") {
        Some(Mnemonic::OpData)
    } else {
        None
    }
}

/// The operand count of a mnemonic.
pub fn arity_of(m: Mnemonic) -> (r: u16)
    ensures
        r == arity(m),
{
    match m {
        Mnemonic::OpHalt => 0,
        Mnemonic::OpSet => 2,
        Mnemonic::OpPush => 1,
        Mnemonic::OpPop => 1,
        Mnemonic::OpEq => 3,
        Mnemonic::OpGt => 3,
        Mnemonic::OpJmp => 1,
        Mnemonic::OpJt => 2,
        Mnemonic::OpJf => 2,
        Mnemonic::OpAdd => 3,
        Mnemonic::OpMult => 3,
        Mnemonic::OpMod => 3,
        Mnemonic::OpAnd => 3,
        Mnemonic::OpOr => 3,
        Mnemonic::OpNot => 2,
        Mnemonic::OpRMem => 2,
        Mnemonic::OpWMem => 2,
        Mnemonic::OpCall => 1,
        Mnemonic::OpRet => 0,
        Mnemonic::OpOut => 1,
        Mnemonic::OpIn => 1,
        Mnemonic::OpNoop => 0,
        Mnemonic::OpData => 1,
    }
}

/// One instruction as written: its mnemonic and its operand tokens.
#[derive(Clone, Debug)]
pub struct Instruction {
    pub mnemonic: Mnemonic,
    pub args: Vec<Token>,
}

/// The abstract form of an [`Instruction`].
#[verifier::ext_equal]
pub ghost struct InstrV {
    pub mnemonic: Mnemonic,
    pub args: Seq<TokenV>,
}

impl View for Instruction {
    type V = InstrV;

    open spec fn view(&self) -> InstrV {
        InstrV { mnemonic: self.mnemonic, args: self.args.deep_view() }
    }
}

impl DeepView for Instruction {
    type V = InstrV;

    open spec fn deep_view(&self) -> InstrV {
        self.view()
    }
}

/// How many words an instruction occupies in the image.
pub fn get_size(instruction: &Instruction) -> (r: u16)
    ensures
        r == instr_size(instruction.mnemonic),
{
    match instruction.mnemonic {
        Mnemonic::OpData => 1,
        m => 1 + arity_of(m),
    }
}

/// An instruction bound to the output address the sweep assigned it.
#[derive(Clone, Debug)]
pub struct PlacedInstruction {
    pub address: u16,
    pub line_number: usize,
    pub instruction: Instruction,
}

/// The abstract form of a [`PlacedInstruction`].
#[verifier::ext_equal]
pub ghost struct PlacedV {
    pub address: u16,
    pub line_number: usize,
    pub instr: InstrV,
}

impl View for PlacedInstruction {
    type V = PlacedV;

    open spec fn view(&self) -> PlacedV {
        PlacedV {
            address: self.address,
            line_number: self.line_number,
            instr: self.instruction.deep_view(),
        }
    }
}

impl DeepView for PlacedInstruction {
    type V = PlacedV;

    open spec fn deep_view(&self) -> PlacedV {
        self.view()
    }
}

/// A symbolic label bound to an output address.
#[derive(Clone, Debug)]
pub struct LabelBinding {
    pub name: String,
    pub address: u16,
}

/// The abstract form of a [`LabelBinding`].
#[verifier::ext_equal]
pub ghost struct LabelV {
    pub name: Seq<char>,
    pub address: u16,
}

impl View for LabelBinding {
    type V = LabelV;

    open spec fn view(&self) -> LabelV {
        LabelV { name: self.name@, address: self.address }
    }
}

impl DeepView for LabelBinding {
    type V = LabelV;

    open spec fn deep_view(&self) -> LabelV {
        self.view()
    }
}

/// The result of the parsing sweep: every instruction in address order,
/// and every symbolic label with the address it names.
#[derive(Debug)]
pub struct Parsing {
    pub instructions: Vec<PlacedInstruction>,
    pub labels: Vec<LabelBinding>,
}

/// The abstract form of a [`Parsing`].
#[verifier::ext_equal]
pub ghost struct ParsingV {
    pub instructions: Seq<PlacedV>,
    pub labels: Seq<LabelV>,
}

impl View for Parsing {
    type V = ParsingV;

    open spec fn view(&self) -> ParsingV {
        ParsingV { instructions: self.instructions.deep_view(), labels: self.labels.deep_view() }
    }
}


/// The whitespace characters that separate tokens: the ASCII spacing
/// characters, including the carriage return and line feed.
pub open spec fn is_space(c: char) -> bool {
    c == ' ' || c == '\t' || c == '\r' || c == '\n' || c == '\u{B}' || c == '\u{C}'
}

/// The first position at or after `i` holding a non-space character, or
/// the end.
pub open spec fn skip_ws(s: Seq<char>, i: int) -> int
    decreases s.len() - i,
{
    if 0 <= i < s.len() && is_space(s[i]) {
        skip_ws(s, i + 1)
    } else {
        i
    }
}

/// The first position at or after `i` holding a space, or the end.
pub open spec fn token_end(s: Seq<char>, i: int) -> int
    decreases s.len() - i,
{
    if 0 <= i < s.len() && !is_space(s[i]) {
        token_end(s, i + 1)
    } else {
        i
    }
}

pub proof fn lemma_skip_ws(s: Seq<char>, i: int)
    requires
        0 <= i <= s.len(),
    ensures
        i <= skip_ws(s, i) <= s.len(),
        skip_ws(s, i) < s.len() ==> !is_space(s[skip_ws(s, i)]),
    decreases s.len() - i,
{
    if i < s.len() && is_space(s[i]) {
        lemma_skip_ws(s, i + 1);
    }
}

pub proof fn lemma_token_end(s: Seq<char>, i: int)
    requires
        0 <= i <= s.len(),
    ensures
        i <= token_end(s, i) <= s.len(),
        token_end(s, i) < s.len() ==> is_space(s[token_end(s, i)]),
        forall|j: int| i <= j < token_end(s, i) ==> !is_space(#[trigger] s[j]),
    decreases s.len() - i,
{
    if i < s.len() && !is_space(s[i]) {
        lemma_token_end(s, i + 1);
    }
}

/// The whitespace-separated tokens of `s` from position `i` on.
pub open spec fn spec_tokens(s: Seq<char>, i: int) -> Seq<Seq<char>>
    decreases s.len() - i,
    when 0 <= i <= s.len()
    via spec_tokens_dec
{
    let j = skip_ws(s, i);
    if j >= s.len() {
        Seq::empty()
    } else {
        seq![s.subrange(j, token_end(s, j))] + spec_tokens(s, token_end(s, j))
    }
}

#[via_fn]
proof fn spec_tokens_dec(s: Seq<char>, i: int) {
    lemma_skip_ws(s, i);
    let j = skip_ws(s, i);
    if j < s.len() {
        lemma_token_end(s, j + 1);
        assert(token_end(s, j) == token_end(s, j + 1));
    }
}

/// True of `c` exactly when it separates tokens.
pub fn is_space_char(c: char) -> (r: bool)
    ensures
        r == is_space(c),
{
    c == ' ' || c == '\t' || c == '\r' || c == '\n' || c == '\u{B}' || c == '\u{C}'
}

/// Splits one line into its whitespace-separated tokens.
pub fn tokenize(line: &str) -> (r: Vec<String>)
    ensures
        r.deep_view() == spec_tokens(line@, 0),
{
    let n = line.unicode_len();
    let mut toks: Vec<String> = Vec::new();
    let mut i: usize = 0;
    while i < n
        invariant
            0 <= i <= n,
            n == line@.len(),
            toks.deep_view() + spec_tokens(line@, i as int) == spec_tokens(line@, 0),
        decreases n - i,
    {
        let c = line.get_char(i);
        if is_space_char(c) {
            proof {
                assert(skip_ws(line@, i as int) == skip_ws(line@, i + 1));
                assert(spec_tokens(line@, i as int) == spec_tokens(line@, i + 1));
            }
            i += 1;
        } else {
            let start = i;
            i += 1;
            while i < n && !is_space_char(line.get_char(i))
                invariant
                    start < i <= n,
                    n == line@.len(),
                    !is_space(line@[start as int]),
                    forall|j: int| start <= j < i ==> !is_space(#[trigger] line@[j]),
                    token_end(line@, start as int) == token_end(line@, i as int),
                decreases n - i,
            {
                proof {
                    assert(token_end(line@, i as int) == token_end(line@, i + 1));
                }
                i += 1;
            }
            proof {
                assert(token_end(line@, i as int) == i);
            }
            let tok = line.substring_char(start, i).to_owned();
            let ghost pre = toks.deep_view();
            toks.push(tok);
            proof {
                assert(toks.deep_view() =~= pre.push(tok@));
                assert(skip_ws(line@, start as int) == start);
                assert(spec_tokens(line@, start as int) == seq![
                    line@.subrange(start as int, i as int),
                ] + spec_tokens(line@, i as int));
                assert(toks.deep_view() + spec_tokens(line@, i as int) =~= pre + spec_tokens(
                    line@,
                    start as int,
                ));
            }
        }
    }
    proof {
        assert(spec_tokens(line@, n as int) =~= Seq::<Seq<char>>::empty());
        assert(toks.deep_view() =~= spec_tokens(line@, 0));
    }
    toks
}

/// The first position at or after `i` holding a line feed, or the end.
pub open spec fn line_break(s: Seq<char>, i: int) -> int
    decreases s.len() - i,
{
    if 0 <= i < s.len() && s[i] != '\n' {
        line_break(s, i + 1)
    } else {
        i
    }
}

pub proof fn lemma_line_break(s: Seq<char>, i: int)
    requires
        0 <= i <= s.len(),
    ensures
        i <= line_break(s, i) <= s.len(),
        line_break(s, i) < s.len() ==> s[line_break(s, i)] == '\n',
        forall|j: int| i <= j < line_break(s, i) ==> #[trigger] s[j] != '\n',
    decreases s.len() - i,
{
    if i < s.len() && s[i] != '\n' {
        lemma_line_break(s, i + 1);
    }
}

/// The line break position `b` is determined by its characterization:
/// no line feed before it, and a line feed or the end at it.
pub proof fn lemma_line_break_is(s: Seq<char>, i: int, b: int)
    requires
        0 <= i <= b <= s.len(),
        forall|j: int| i <= j < b ==> #[trigger] s[j] != '\n',
        b < s.len() ==> s[b] == '\n',
    ensures
        line_break(s, i) == b,
    decreases b - i,
{
    if i < b {
        lemma_line_break_is(s, i + 1, b);
    }
}

/// The lines of a source text, split at line feeds. The text after the
/// last line feed is a line too, so every text has at least one line.
pub open spec fn spec_lines(s: Seq<char>) -> Seq<Seq<char>>
    decreases s.len(),
    via spec_lines_dec
{
    let k = line_break(s, 0);
    if k >= s.len() {
        seq![s]
    } else {
        seq![s.take(k)] + spec_lines(s.skip(k + 1))
    }
}

#[via_fn]
proof fn spec_lines_dec(s: Seq<char>) {
    lemma_line_break(s, 0);
}

/// Splits a source text into lines at line feeds.
pub fn split_lines(source: &str) -> (r: Vec<String>)
    ensures
        r.deep_view() == spec_lines(source@),
{
    let n = source.unicode_len();
    let mut lines: Vec<String> = Vec::new();
    let mut start: usize = 0;
    proof {
        assert(source@.skip(0) =~= source@);
        assert(lines.deep_view() =~= Seq::<Seq<char>>::empty());
    }
    loop
        invariant
            0 <= start <= n,
            n == source@.len(),
            lines.deep_view() + spec_lines(source@.skip(start as int)) == spec_lines(source@),
        ensures
            0 <= start <= n,
            lines.deep_view() + spec_lines(source@.skip(start as int)) == spec_lines(source@),
            line_break(source@.skip(start as int), 0) == n - start,
        decreases n - start,
    {
        let mut i = start;
        while i < n && source.get_char(i) != '\n'
            invariant
                start <= i <= n,
                n == source@.len(),
                forall|j: int| start <= j < i ==> #[trigger] source@[j] != '\n',
            decreases n - i,
        {
            i += 1;
        }
        let ghost tail = source@.skip(start as int);
        proof {
            assert(forall|j: int| 0 <= j < i - start ==> #[trigger] tail[j] != '\n');
            lemma_line_break_is(tail, 0, i - start);
        }
        if i >= n {
            break;
        }
        let piece = source.substring_char(start, i).to_owned();
        let ghost pre = lines.deep_view();
        lines.push(piece);
        proof {
            assert(lines.deep_view() =~= pre.push(piece@));
            assert(tail.take(i - start) =~= source@.subrange(start as int, i as int));
            assert(tail.skip(i - start + 1) =~= source@.skip(i + 1));
            assert(spec_lines(tail) == seq![source@.subrange(start as int, i as int)]
                + spec_lines(source@.skip(i + 1)));
            assert(lines.deep_view() + spec_lines(source@.skip(i + 1)) =~= pre + spec_lines(
                tail,
            ));
        }
        start = i + 1;
    }
    let piece = source.substring_char(start, n).to_owned();
    let ghost pre = lines.deep_view();
    lines.push(piece);
    proof {
        let tail = source@.skip(start as int);
        assert(piece@ =~= tail);
        assert(lines.deep_view() =~= pre.push(piece@));
        assert(spec_lines(tail) =~= seq![tail]);
        assert(lines.deep_view() =~= spec_lines(source@));
    }
    lines
}


/// The parts of one line that the token scan gathers: at most one
/// symbolic label, at most one mnemonic, and the operand tokens.
#[verifier::ext_equal]
pub ghost struct LineParts {
    pub label: Option<Seq<char>>,
    pub mnemonic: Option<Mnemonic>,
    pub args: Seq<TokenV>,
}

/// The sweep's running state: the instructions and labels gathered so
/// far and the next output address.
#[verifier::ext_equal]
pub ghost struct PState {
    pub instrs: Seq<PlacedV>,
    pub labels: Seq<LabelV>,
    pub pointer: u16,
}

/// The first binding at or after `i` whose name is `name`, or the
/// table's length.
pub open spec fn label_index(labels: Seq<LabelV>, name: Seq<char>, i: int) -> int
    decreases labels.len() - i,
{
    if !(0 <= i < labels.len()) {
        labels.len() as int
    } else if labels[i].name == name {
        i
    } else {
        label_index(labels, name, i + 1)
    }
}

/// The address a label name resolves to, if it is bound.
pub open spec fn lookup_label(labels: Seq<LabelV>, name: Seq<char>) -> Option<u16> {
    let i = label_index(labels, name, 0);
    if i < labels.len() {
        Some(labels[i].address)
    } else {
        None
    }
}

/// Binds `name` to `address`: a rebinding replaces the old address, so
/// of two definitions of one name the later wins.
pub open spec fn upsert_label(labels: Seq<LabelV>, name: Seq<char>, address: u16) -> Seq<LabelV> {
    let i = label_index(labels, name, 0);
    if i < labels.len() {
        labels.update(i, LabelV { name, address })
    } else {
        labels.push(LabelV { name, address })
    }
}

/// Scans the tokens of one line from position `j` on. A `#` token ends
/// the line; a token ending in `:` is a label, numeric ones asserting
/// the current output address and symbolic ones binding a name; the
/// first other token is the mnemonic and the rest are operands.
pub open spec fn scan_line(
    toks: Seq<Seq<char>>,
    j: int,
    pointer: u16,
    line: usize,
    acc: LineParts,
) -> Result<LineParts, AsmErrorV>
    decreases toks.len() - j,
{
    if !(0 <= j < toks.len()) {
        Ok(acc)
    } else {
        let t = toks[j];
        if t.len() > 0 && t[0] == '#' {
            Ok(acc)
        } else if t.len() > 0 && t.last() == ':' {
            if acc.label is Some {
                Err(AsmErrorV::SecondLabel { line })
            } else {
                let name = t.drop_last();
                match spec_parse_u16(name) {
                    Some(v) => if v == pointer {
                        scan_line(toks, j + 1, pointer, line, acc)
                    } else {
                        Err(AsmErrorV::PointerLabelMismatch { found: v, expected: pointer, line })
                    },
                    None => scan_line(
                        toks,
                        j + 1,
                        pointer,
                        line,
                        LineParts { label: Some(name), ..acc },
                    ),
                }
            }
        } else if acc.mnemonic is None {
            match spec_mnemonic_of(t) {
                None => Err(AsmErrorV::UnknownOp { op: t, line }),
                Some(m) => scan_line(
                    toks,
                    j + 1,
                    pointer,
                    line,
                    LineParts { mnemonic: Some(m), ..acc },
                ),
            }
        } else {
            let tok = match spec_parse_u16(t) {
                Some(v) => TokenV::Value(v),
                None => TokenV::Label(t),
            };
            scan_line(toks, j + 1, pointer, line, LineParts { args: acc.args.push(tok), ..acc })
        }
    }
}

/// The empty scan accumulator.
pub open spec fn empty_parts() -> LineParts {
    LineParts { label: None, mnemonic: None, args: Seq::empty() }
}

/// One line's effect on the sweep: bind its label, check its mnemonic's
/// arity, and place its instruction at the current output address.
pub open spec fn apply_line_spec(line: Seq<char>, line_no: usize, st: PState) -> Result<
    PState,
    AsmErrorV,
> {
    match scan_line(spec_tokens(line, 0), 0, st.pointer, line_no, empty_parts()) {
        Err(e) => Err(e),
        Ok(parts) => {
            let labels2 = match parts.label {
                Some(nm) => upsert_label(st.labels, nm, st.pointer),
                None => st.labels,
            };
            match parts.mnemonic {
                None => Ok(PState { labels: labels2, ..st }),
                Some(m) => if parts.args.len() != arity(m) {
                    Err(AsmErrorV::WrongArity { mnemonic: m })
                } else if st.pointer + instr_size(m) > 65535 {
                    Err(AsmErrorV::AddressOverflow { line: line_no })
                } else {
                    Ok(
                        PState {
                            instrs: st.instrs.push(
                                PlacedV {
                                    address: st.pointer,
                                    line_number: line_no,
                                    instr: InstrV { mnemonic: m, args: parts.args },
                                },
                            ),
                            labels: labels2,
                            pointer: (st.pointer + instr_size(m)) as u16,
                        },
                    )
                },
            }
        },
    }
}

/// The sweep over the lines from index `k` on.
pub open spec fn parse_lines_spec(lines: Seq<Seq<char>>, k: int, st: PState) -> Result<
    PState,
    AsmErrorV,
>
    decreases lines.len() - k,
{
    if !(0 <= k < lines.len()) {
        Ok(st)
    } else {
        match apply_line_spec(lines[k], (k + 1) as usize, st) {
            Err(e) => Err(e),
            Ok(st2) => parse_lines_spec(lines, k + 1, st2),
        }
    }
}

/// The sweep's starting state.
pub open spec fn init_pstate() -> PState {
    PState { instrs: Seq::empty(), labels: Seq::empty(), pointer: 0 }
}

/// The complete specification of parsing: split into lines, scan each,
/// and gather the placed instructions and the label table.
pub open spec fn spec_parse(src: Seq<char>) -> Result<ParsingV, AsmErrorV> {
    match parse_lines_spec(spec_lines(src), 0, init_pstate()) {
        Ok(st) => Ok(ParsingV { instructions: st.instrs, labels: st.labels }),
        Err(e) => Err(e),
    }
}

/// The abstract form of a gathered `Option<String>` label.
pub open spec fn opt_str_view(o: Option<String>) -> Option<Seq<char>> {
    match o {
        Some(s) => Some(s@),
        None => None,
    }
}

/// Binds `name` to `address` in the table, replacing the binding of an
/// already-bound name.
#[verifier::loop_isolation(false)]
fn upsert_binding(labels: Vec<LabelBinding>, name: &String, address: u16) -> (r: Vec<LabelBinding>)
    ensures
        r.deep_view() == upsert_label(labels.deep_view(), name@, address),
{
    let ghost lv = labels.deep_view();
    let ghost nm = name@;
    let mut ls = labels;
    let n = ls.len();
    let mut k: usize = 0;
    while k < n
        invariant
            0 <= k <= n,
            n == ls.len(),
            ls.deep_view() == lv,
            label_index(lv, nm, 0) == label_index(lv, nm, k as int),
        decreases n - k,
    {
        proof {
            assert(lv[k as int] == ls@[k as int].deep_view());
        }
        if str_eq(ls[k].name.as_str(), name.as_str()) {
            proof {
                assert(label_index(lv, nm, k as int) == k);
            }
            ls[k] = LabelBinding { name: name.clone(), address };
            proof {
                assert(ls.deep_view() =~= lv.update(k as int, LabelV { name: nm, address }));
                assert(ls.deep_view() == upsert_label(lv, nm, address));
            }
            return ls;
        }
        proof {
            assert(label_index(lv, nm, k as int) == label_index(lv, nm, k + 1));
        }
        k += 1;
    }
    proof {
        assert(label_index(lv, nm, n as int) == n);
    }
    ls.push(LabelBinding { name: name.clone(), address });
    proof {
        assert(ls.deep_view() =~= lv.push(LabelV { name: nm, address }));
        assert(ls.deep_view() == upsert_label(lv, nm, address));
    }
    ls
}

/// Applies one source line to the sweep state, handing back the grown
/// instruction list, the label table and the next output address. On a
/// fault the gathered state is abandoned, so only the fault is
/// specified.
#[verifier::loop_isolation(false)]
fn apply_line(
    line: &str,
    line_no: usize,
    instructions: Vec<PlacedInstruction>,
    labels: Vec<LabelBinding>,
    pointer: u16,
) -> (r: Result<(Vec<PlacedInstruction>, Vec<LabelBinding>, u16), AsmError>)
    ensures
        match apply_line_spec(
            line@,
            line_no,
            (PState {
                instrs: instructions.deep_view(),
                labels: labels.deep_view(),
                pointer,
            }),
        ) {
            Ok(st2) => r is Ok && r->Ok_0.0.deep_view() == st2.instrs && r->Ok_0.1.deep_view()
                == st2.labels && r->Ok_0.2 == st2.pointer,
            Err(ev) => r is Err && r->Err_0@ == ev,
        },
{
    let ghost st = PState {
        instrs: instructions.deep_view(),
        labels: labels.deep_view(),
        pointer,
    };
    let mut instrs2 = instructions;
    let mut labels2 = labels;
    let toks = tokenize(line);
    let ghost toksv = spec_tokens(line@, 0);
    let mut label: Option<String> = None;
    let mut mnem: Option<Mnemonic> = None;
    let mut args: Vec<Token> = Vec::new();
    let n_toks = toks.len();
    let mut j: usize = 0;
    let mut hit_comment = false;
    proof {
        assert(args.deep_view() =~= Seq::<TokenV>::empty());
        assert(LineParts { label: opt_str_view(label), mnemonic: mnem, args: args.deep_view() }
            == empty_parts());
    }
    while j < n_toks && !hit_comment
        invariant
            0 <= j <= n_toks,
            n_toks == toks.len(),
            toks.deep_view() == toksv,
            !hit_comment ==> scan_line(
                toksv,
                j as int,
                pointer,
                line_no,
                (LineParts {
                    label: opt_str_view(label),
                    mnemonic: mnem,
                    args: args.deep_view(),
                }),
            ) == scan_line(toksv, 0, pointer, line_no, empty_parts()),
            hit_comment ==> scan_line(toksv, 0, pointer, line_no, empty_parts()) == Ok::<
                LineParts,
                AsmErrorV,
            >(
                LineParts {
                    label: opt_str_view(label),
                    mnemonic: mnem,
                    args: args.deep_view(),
                },
            ),
        decreases n_toks - j,
    {
        let ghost acc = LineParts {
            label: opt_str_view(label),
            mnemonic: mnem,
            args: args.deep_view(),
        };
        let t = &toks[j];
        proof {
            assert(t@ == toksv[j as int]);
        }
        let tlen = t.as_str().unicode_len();
        if tlen > 0 && t.as_str().get_char(0) == '#' {
            proof {
                assert(toksv[j as int][0] == '#');
                assert(scan_line(toksv, j as int, pointer, line_no, acc) == Ok::<
                    LineParts,
                    AsmErrorV,
                >(acc));
            }
            hit_comment = true;
        } else if tlen > 0 && t.as_str().get_char(tlen - 1) == ':' {
            proof {
                assert(toksv[j as int].last() == ':');
            }
            if label.is_some() {
                proof {
                    assert(scan_line(toksv, 0, pointer, line_no, empty_parts()) == Err::<
                        LineParts,
                        AsmErrorV,
                    >(AsmErrorV::SecondLabel { line: line_no }));
                    assert(spec_tokens(line@, 0) == toksv);
                    assert(st.pointer == pointer);
                    assert(scan_line(spec_tokens(line@, 0), 0, st.pointer, line_no, empty_parts())
                        == Err::<LineParts, AsmErrorV>(AsmErrorV::SecondLabel { line: line_no }));
                    assert(apply_line_spec(line@, line_no, st) == Err::<PState, AsmErrorV>(
                        AsmErrorV::SecondLabel { line: line_no },
                    ));
                }
                return Err(AsmError::SecondLabel { line: line_no });
            }
            let name = t.as_str().substring_char(0, tlen - 1).to_owned();
            proof {
                assert(name@ =~= toksv[j as int].drop_last());
            }
            match parse_u16_token(name.as_str()) {
                Some(v) => {
                    if v != pointer {
                        proof {
                            assert(scan_line(toksv, 0, pointer, line_no, empty_parts()) == Err::<
                                LineParts,
                                AsmErrorV,
                            >(
                                AsmErrorV::PointerLabelMismatch {
                                    found: v,
                                    expected: pointer,
                                    line: line_no,
                                },
                            ));
                            assert(scan_line(
                                spec_tokens(line@, 0),
                                0,
                                st.pointer,
                                line_no,
                                empty_parts(),
                            ) == Err::<LineParts, AsmErrorV>(
                                AsmErrorV::PointerLabelMismatch {
                                    found: v,
                                    expected: pointer,
                                    line: line_no,
                                },
                            ));
                            assert(apply_line_spec(line@, line_no, st) == Err::<
                                PState,
                                AsmErrorV,
                            >(
                                AsmErrorV::PointerLabelMismatch {
                                    found: v,
                                    expected: pointer,
                                    line: line_no,
                                },
                            ));
                        }
                        return Err(
                            AsmError::PointerLabelMismatch {
                                found: v,
                                expected: pointer,
                                line: line_no,
                            },
                        );
                    }
                    proof {
                        assert(scan_line(toksv, j as int, pointer, line_no, acc) == scan_line(
                            toksv,
                            j + 1,
                            pointer,
                            line_no,
                            acc,
                        ));
                    }
                },
                None => {
                    label = Some(name);
                    proof {
                        assert(scan_line(toksv, j as int, pointer, line_no, acc) == scan_line(
                            toksv,
                            j + 1,
                            pointer,
                            line_no,
                            (LineParts {
                                label: opt_str_view(label),
                                mnemonic: mnem,
                                args: args.deep_view(),
                            }),
                        ));
                    }
                },
            }
        } else if mnem.is_none() {
            match mnemonic_of(t.as_str()) {
                None => {
                    proof {
                        assert(scan_line(toksv, 0, pointer, line_no, empty_parts()) == Err::<
                            LineParts,
                            AsmErrorV,
                        >(AsmErrorV::UnknownOp { op: toksv[j as int], line: line_no }));
                        assert(scan_line(
                            spec_tokens(line@, 0),
                            0,
                            st.pointer,
                            line_no,
                            empty_parts(),
                        ) == Err::<LineParts, AsmErrorV>(
                            AsmErrorV::UnknownOp { op: toksv[j as int], line: line_no },
                        ));
                        assert(apply_line_spec(line@, line_no, st) == Err::<PState, AsmErrorV>(
                            AsmErrorV::UnknownOp { op: toksv[j as int], line: line_no },
                        ));
                    }
                    return Err(AsmError::UnknownOp { op: t.clone(), line: line_no });
                },
                Some(m) => {
                    mnem = Some(m);
                    proof {
                        assert(scan_line(toksv, j as int, pointer, line_no, acc) == scan_line(
                            toksv,
                            j + 1,
                            pointer,
                            line_no,
                            (LineParts {
                                label: opt_str_view(label),
                                mnemonic: mnem,
                                args: args.deep_view(),
                            }),
                        ));
                    }
                },
            }
        } else {
            let tok = match parse_u16_token(t.as_str()) {
                Some(v) => Token::Value(v),
                None => Token::Label(t.clone()),
            };
            let ghost argspre = args.deep_view();
            args.push(tok);
            proof {
                assert(args.deep_view() =~= argspre.push(tok@));
                assert(scan_line(toksv, j as int, pointer, line_no, acc) == scan_line(
                    toksv,
                    j + 1,
                    pointer,
                    line_no,
                    (LineParts {
                        label: opt_str_view(label),
                        mnemonic: mnem,
                        args: args.deep_view(),
                    }),
                ));
            }
        }
        j += 1;
    }
    let ghost parts = LineParts {
        label: opt_str_view(label),
        mnemonic: mnem,
        args: args.deep_view(),
    };
    proof {
        if !hit_comment {
            assert(scan_line(toksv, j as int, pointer, line_no, parts) == Ok::<
                LineParts,
                AsmErrorV,
            >(parts));
        }
        assert(scan_line(toksv, 0, pointer, line_no, empty_parts()) == Ok::<LineParts, AsmErrorV>(
            parts,
        ));
    }
    if let Some(name) = label {
        labels2 = upsert_binding(labels2, &name, pointer);
    }
    let mut pointer2 = pointer;
    if let Some(m) = mnem {
        let ar = arity_of(m);
        if args.len() != ar as usize {
            return Err(AsmError::WrongArity { mnemonic: m });
        }
        let instr = Instruction { mnemonic: m, args };
        let size = get_size(&instr);
        let np: u32 = pointer as u32 + size as u32;
        if np > 65535 {
            return Err(AsmError::AddressOverflow { line: line_no });
        }
        let ghost ipre = instrs2.deep_view();
        instrs2.push(
            PlacedInstruction { address: pointer, line_number: line_no, instruction: instr },
        );
        proof {
            assert(instrs2.deep_view() =~= ipre.push(
                PlacedV {
                    address: pointer,
                    line_number: line_no,
                    instr: InstrV { mnemonic: m, args: parts.args },
                },
            ));
        }
        pointer2 = np as u16;
    }
    Ok((instrs2, labels2, pointer2))
}

/// Parses a source text in one sweep, gathering every instruction with
/// its output address and every symbolic label with the address it
/// names, exactly as [`spec_parse`] describes.
pub fn parse(source: &str) -> (r: Result<Parsing, AsmError>)
    ensures
        match spec_parse(source@) {
            Ok(pv) => r is Ok && r->Ok_0@ == pv,
            Err(ev) => r is Err && r->Err_0@ == ev,
        },
{
    let lines = split_lines(source);
    let ghost linesv = spec_lines(source@);
    let mut instructions: Vec<PlacedInstruction> = Vec::new();
    let mut labels: Vec<LabelBinding> = Vec::new();
    let mut pointer: u16 = 0;
    proof {
        assert(instructions.deep_view() =~= Seq::<PlacedV>::empty());
        assert(labels.deep_view() =~= Seq::<LabelV>::empty());
        assert(PState { instrs: instructions.deep_view(), labels: labels.deep_view(), pointer }
            == init_pstate());
    }
    let n = lines.len();
    let mut k: usize = 0;
    while k < n
        invariant
            0 <= k <= n,
            n == lines.len(),
            lines.deep_view() == linesv,
            linesv == spec_lines(source@),
            parse_lines_spec(
                linesv,
                k as int,
                (PState {
                    instrs: instructions.deep_view(),
                    labels: labels.deep_view(),
                    pointer,
                }),
            ) == parse_lines_spec(linesv, 0, init_pstate()),
        decreases n - k,
    {
        proof {
            assert(lines@[k as int].deep_view() == linesv[k as int]);
        }
        let line = lines[k].clone();
        match apply_line(line.as_str(), k + 1, instructions, labels, pointer) {
            Ok(next) => {
                instructions = next.0;
                labels = next.1;
                pointer = next.2;
            },
            Err(e) => {
                return Err(e);
            },
        }
        k += 1;
    }
    Ok(Parsing { instructions, labels })
}



} // verus!
