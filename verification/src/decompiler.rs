//! The disassembler: walks an image front to back and renders one text
//! line per instruction, `address:<TAB>mnemonic<TAB>operand...`, each
//! number in decimal. A word that is no opcode, or an instruction cut
//! off by the end of the image, is rendered as `address:<TAB>word` and
//! consumes one word, so the walk never fails and the output is valid
//! assembler input.

use vstd::prelude::*;

use vstd::slice::slice_index_get;

use crate::numbers::{append_dec, dec_chars};
use crate::parser::{instr_size, mnemonic_of_opcode, mnemonic_text};

verus! {

/// The rendered operands of the instruction at `p`: a tab and a decimal
/// word for each operand position `j` up to the instruction's size.
pub open spec fn operand_text(mem: Seq<u16>, p: int, j: int, size: int) -> Seq<char>
    decreases size - j,
{
    if j >= size {
        Seq::empty()
    } else {
        "\t"@ + dec_chars(mem[p + j] as nat) + operand_text(mem, p, j + 1, size)
    }
}

/// Whether the word at `p` begins a complete instruction.
pub open spec fn whole_instr_at(mem: Seq<u16>, p: int) -> bool {
    mem[p] <= 21 && p + instr_size(mnemonic_of_opcode(mem[p])) <= mem.len()
}

/// One rendered line without its line feed: the address, the mnemonic
/// and its operands for a complete instruction, or the bare word where
/// none begins.
pub open spec fn disasm_line_body(mem: Seq<u16>, p: int) -> Seq<char> {
    let w = mem[p];
    if whole_instr_at(mem, p) {
        dec_chars(p as nat) + ":\t"@ + mnemonic_text(mnemonic_of_opcode(w)) + operand_text(
            mem,
            p,
            1,
            instr_size(mnemonic_of_opcode(w)),
        )
    } else {
        dec_chars(p as nat) + ":\t"@ + dec_chars(w as nat)
    }
}

/// One rendered line, line feed included.
pub open spec fn disasm_line(mem: Seq<u16>, p: int) -> Seq<char> {
    disasm_line_body(mem, p) + "\n"@
}

/// How many words the line at `p` consumes.
pub open spec fn disasm_advance(mem: Seq<u16>, p: int) -> int {
    if whole_instr_at(mem, p) {
        instr_size(mnemonic_of_opcode(mem[p]))
    } else {
        1
    }
}

/// The rendered text of the whole image from position `p` on.
pub open spec fn spec_disasm(mem: Seq<u16>, p: int) -> Seq<char>
    decreases mem.len() - p,
{
    if !(0 <= p < mem.len()) {
        Seq::empty()
    } else {
        disasm_line(mem, p) + spec_disasm(mem, p + disasm_advance(mem, p))
    }
}

/// The size in words of the instruction a valid opcode word begins.
pub fn opcode_size(w: u16) -> (r: usize)
    requires
        w <= 21,
    ensures
        r == instr_size(mnemonic_of_opcode(w)),
{
    if w == 0 {
        1
    } else if w == 1 {
        3
    } else if w == 2 {
        2
    } else if w == 3 {
        2
    } else if w == 4 {
        4
    } else if w == 5 {
        4
    } else if w == 6 {
        2
    } else if w == 7 {
        3
    } else if w == 8 {
        3
    } else if w == 9 {
        4
    } else if w == 10 {
        4
    } else if w == 11 {
        4
    } else if w == 12 {
        4
    } else if w == 13 {
        4
    } else if w == 14 {
        3
    } else if w == 15 {
        3
    } else if w == 16 {
        3
    } else if w == 17 {
        2
    } else if w == 18 {
        1
    } else if w == 19 {
        2
    } else if w == 20 {
        2
    } else {
        1
    }
}

/// The written mnemonic of a valid opcode word.
pub fn opcode_name(w: u16) -> (r: &'static str)
    requires
        w <= 21,
    ensures
        r@ == mnemonic_text(mnemonic_of_opcode(w)),
{
    if w == 0 {
        "halt"
    } else if w == 1 {
        "set"
    } else if w == 2 {
        "push"
    } else if w == 3 {
        "pop"
    } else if w == 4 {
        "eq"
    } else if w == 5 {
        "gt"
    } else if w == 6 {
        "jmp"
    } else if w == 7 {
        "jt"
    } else if w == 8 {
        "jf"
    } else if w == 9 {
        "add"
    } else if w == 10 {
        "mult"
    } else if w == 11 {
        "mod"
    } else if w == 12 {
        "and"
    } else if w == 13 {
        "or"
    } else if w == 14 {
        "not"
    } else if w == 15 {
        "rmem"
    } else if w == 16 {
        "wmem"
    } else if w == 17 {
        "call"
    } else if w == 18 {
        "ret"
    } else if w == 19 {
        "out"
    } else if w == 20 {
        "in"
    } else {
        "noop"
    }
}

/// Disassembles an image to text, exactly as [`spec_disasm`] describes.
/// Total: every image, of any content, renders to a line per walked
/// position.
#[verifier::loop_isolation(false)]
pub fn decompile(memory: &[u16]) -> (r: String)
    ensures
        r@ == spec_disasm(memory@, 0),
{
    let ghost memv = memory@;
    let mut out = String::new();
    let n = memory.len();
    let mut p: usize = 0;
    proof {
        reveal_strlit(":\t");
        reveal_strlit("\t");
        reveal_strlit("\n");
        assert(out@ + spec_disasm(memv, 0) =~= spec_disasm(memv, 0));
    }
    while p < n
        invariant
            0 <= p <= n,
            out@ + spec_disasm(memv, p as int) == spec_disasm(memv, 0),
        decreases n - p,
    {
        let w = *slice_index_get(memory, p);
        let ghost line_start = out@;
        append_dec(&mut out, p as u64);
        out.append(":\t");
        let size: usize = if w <= 21 {
            opcode_size(w)
        } else {
            1
        };
        if w <= 21 && size <= n - p {
            out.append(opcode_name(w));
            let mut j: usize = 1;
            let ghost ops_start = out@;
            proof {
                assert(out@ + operand_text(memv, p as int, 1, size as int) =~= ops_start
                    + operand_text(memv, p as int, 1, size as int));
            }
            while j < size
                invariant
                    1 <= j <= size,
                    out@ + operand_text(memv, p as int, j as int, size as int) == ops_start
                        + operand_text(memv, p as int, 1, size as int),
                decreases size - j,
            {
                out.append("\t");
                append_dec(&mut out, *slice_index_get(memory, p + j) as u64);
                proof {
                    assert(out@ + operand_text(memv, p as int, j + 1, size as int) =~= ops_start
                        + operand_text(memv, p as int, 1, size as int));
                }
                j += 1;
            }
            proof {
                assert(operand_text(memv, p as int, size as int, size as int) =~= Seq::<
                    char,
                >::empty());
                assert(out@ =~= ops_start + operand_text(memv, p as int, 1, size as int));
            }
            out.append("\n");
            proof {
                assert(out@ =~= line_start + disasm_line(memv, p as int));
                assert(out@ + spec_disasm(memv, p + size) =~= spec_disasm(memv, 0));
            }
            p += size;
        } else {
            append_dec(&mut out, w as u64);
            out.append("\n");
            proof {
                assert(out@ =~= line_start + disasm_line(memv, p as int));
                assert(out@ + spec_disasm(memv, p + 1) =~= spec_disasm(memv, 0));
            }
            p += 1;
        }
    }
    proof {
        assert(spec_disasm(memv, n as int) =~= Seq::<char>::empty());
        assert(out@ =~= spec_disasm(memv, 0));
    }
    out
}

} // verus!
