//! Decimal rendering and parsing of machine words, with exact
//! character-level specifications. The disassembler renders every address
//! and operand in decimal, and the assembler reads decimal operand and
//! pointer-label tokens back; the two directions are proved inverse here.

use vstd::prelude::*;

verus! {

/// The decimal digit character for a value in `0..=9`.
pub open spec fn digit_char(d: int) -> char {
    if d == 0 {
        '0'
    } else if d == 1 {
        '1'
    } else if d == 2 {
        '2'
    } else if d == 3 {
        '3'
    } else if d == 4 {
        '4'
    } else if d == 5 {
        '5'
    } else if d == 6 {
        '6'
    } else if d == 7 {
        '7'
    } else if d == 8 {
        '8'
    } else {
        '9'
    }
}

/// The decimal rendering of `v`, most significant digit first, with no
/// sign and no leading zero except for the single digit of `v == 0`.
pub open spec fn dec_chars(v: nat) -> Seq<char>
    decreases v,
{
    if v < 10 {
        seq![digit_char(v as int)]
    } else {
        dec_chars(v / 10) + seq![digit_char((v % 10) as int)]
    }
}

pub open spec fn is_digit(c: char) -> bool {
    48 <= c as u32 <= 57
}

pub open spec fn digit_val(c: char) -> int {
    c as u32 - 48
}

pub open spec fn all_digits(s: Seq<char>) -> bool {
    forall|i: int| 0 <= i < s.len() ==> is_digit(#[trigger] s[i])
}

/// The numeric value of a digit string, read most significant digit first.
pub open spec fn digits_val(s: Seq<char>) -> int
    decreases s.len(),
{
    if s.len() == 0 {
        0
    } else {
        digits_val(s.drop_last()) * 10 + digit_val(s.last())
    }
}

/// The token with an optional leading `+` sign stripped.
pub open spec fn unsigned_body(s: Seq<char>) -> Seq<char> {
    if s.len() > 0 && s[0] == '+' {
        s.skip(1)
    } else {
        s
    }
}

/// What `str::parse::<u16>` accepts: an optional `+` sign followed by at
/// least one decimal digit, denoting a value that fits in 16 bits.
pub open spec fn spec_parse_u16(s: Seq<char>) -> Option<u16> {
    let body = unsigned_body(s);
    if body.len() > 0 && all_digits(body) && digits_val(body) <= 65535 {
        Some(digits_val(body) as u16)
    } else {
        None
    }
}

proof fn lemma_digit_char_val(d: int)
    requires
        0 <= d <= 9,
    ensures
        is_digit(digit_char(d)),
        digit_val(digit_char(d)) == d,
{
}

/// Every character of a decimal rendering is a digit.
pub proof fn lemma_dec_chars_digits(v: nat)
    ensures
        dec_chars(v).len() >= 1,
        all_digits(dec_chars(v)),
    decreases v,
{
    if v < 10 {
        lemma_digit_char_val(v as int);
    } else {
        lemma_dec_chars_digits(v / 10);
        lemma_digit_char_val((v % 10) as int);
        assert forall|i: int| 0 <= i < dec_chars(v).len() implies is_digit(#[trigger] dec_chars(v)[i]) by {
            if i < dec_chars(v / 10).len() {
                assert(dec_chars(v)[i] == dec_chars(v / 10)[i]);
            }
        }
    }
}

/// Reading a decimal rendering back yields the value it was made from.
pub proof fn lemma_digits_val_dec_chars(v: nat)
    ensures
        digits_val(dec_chars(v)) == v,
    decreases v,
{
    if v < 10 {
        lemma_digit_char_val(v as int);
        assert(dec_chars(v).drop_last() =~= Seq::<char>::empty());
        assert(digits_val(Seq::<char>::empty()) == 0);
    } else {
        lemma_digits_val_dec_chars(v / 10);
        lemma_digit_char_val((v % 10) as int);
        assert(dec_chars(v).drop_last() =~= dec_chars(v / 10));
        assert(digits_val(dec_chars(v)) == (v / 10) * 10 + v % 10);
    }
}

/// Parsing inverts rendering for every 16-bit value.
pub proof fn lemma_parse_dec_chars(v: u16)
    ensures
        spec_parse_u16(dec_chars(v as nat)) == Some(v),
{
    lemma_dec_chars_digits(v as nat);
    lemma_digits_val_dec_chars(v as nat);
    assert(is_digit(dec_chars(v as nat)[0]));
    assert(dec_chars(v as nat)[0] != '+');
}

/// Appends one decimal digit character to `out`.
fn push_digit(out: &mut String, d: u16)
    requires
        d <= 9,
    ensures
        final(out)@ == old(out)@ + seq![digit_char(d as int)],
{
    let piece: &str = if d == 0 {
        "0"
    } else if d == 1 {
        "1"
    } else if d == 2 {
        "2"
    } else if d == 3 {
        "3"
    } else if d == 4 {
        "4"
    } else if d == 5 {
        "5"
    } else if d == 6 {
        "6"
    } else if d == 7 {
        "7"
    } else if d == 8 {
        "8"
    } else {
        "9"
    };
    proof {
        reveal_strlit("0");
        reveal_strlit("1");
        reveal_strlit("2");
        reveal_strlit("3");
        reveal_strlit("4");
        reveal_strlit("5");
        reveal_strlit("6");
        reveal_strlit("7");
        reveal_strlit("8");
        reveal_strlit("9");
    }
    out.append(piece);
    proof {
        assert(out@ =~= old(out)@ + seq![digit_char(d as int)]);
    }
}

/// Appends the decimal rendering of `v` to `out`.
pub fn append_dec(out: &mut String, v: u64)
    ensures
        final(out)@ == old(out)@ + dec_chars(v as nat),
    decreases v,
{
    if v >= 10 {
        append_dec(out, v / 10);
    }
    push_digit(out, (v % 10) as u16);
    proof {
        if v >= 10 {
            assert(out@ =~= old(out)@ + dec_chars(v as nat));
        }
    }
}

/// Parses a token exactly as `str::parse::<u16>` would: an optional `+`
/// sign, then decimal digits, rejecting values above 65535.
pub fn parse_u16_token(s: &str) -> (r: Option<u16>)
    ensures
        r == spec_parse_u16(s@),
{
    let n = s.unicode_len();
    let start: usize = if n > 0 && s.get_char(0) == '+' {
        1
    } else {
        0
    };
    let ghost body = unsigned_body(s@);
    proof {
        assert(s@.skip(0) =~= s@);
    }
    if n == start {
        return None;
    }
    let mut acc: u32 = 0;
    let mut i: usize = start;
    while i < n
        invariant
            start <= i <= n,
            n == s@.len(),
            0 < n,
            body == unsigned_body(s@),
            body == s@.skip(start as int),
            n > start,
            acc <= 65535,
            all_digits(body.take(i - start)),
            acc == digits_val(body.take(i - start)),
        decreases n - i,
    {
        let c = s.get_char(i);
        let code = c as u32;
        if code < 48 || code > 57 {
            proof {
                assert(body[i - start] == s@[i as int]);
                assert(!is_digit(body[i - start]));
                assert(!all_digits(body));
            }
            return None;
        }
        let d = code - 48;
        let next = acc * 10 + d;
        proof {
            assert(body.take(i + 1 - start).drop_last() =~= body.take(i - start));
            assert(body.take(i + 1 - start).last() == s@[i as int]);
            assert(digits_val(body.take(i + 1 - start)) == next);
        }
        if next > 65535 {
            proof {
                if all_digits(body) {
                    lemma_digits_val_grows(body, i + 1 - start);
                }
            }
            return None;
        }
        acc = next;
        i += 1;
    }
    proof {
        assert(body.take(n - start) =~= body);
    }
    Some(acc as u16)
}

/// A digit string's value never falls as it is extended: the value of the
/// whole is at least the value of any prefix, so a prefix that already
/// exceeds 65535 dooms the whole string.
proof fn lemma_digits_val_grows(s: Seq<char>, k: int)
    requires
        0 <= k <= s.len(),
        all_digits(s),
    ensures
        digits_val(s) >= digits_val(s.take(k)),
        digits_val(s) >= 0,
    decreases s.len() - k,
{
    if k == s.len() {
        assert(s.take(k) =~= s);
        lemma_digits_val_nonneg(s);
    } else {
        lemma_digits_val_grows(s, k + 1);
        assert(s.take(k + 1).drop_last() =~= s.take(k));
        lemma_digits_val_nonneg(s.take(k));
        assert(digits_val(s.take(k + 1)) == digits_val(s.take(k)) * 10 + digit_val(s.take(k + 1).last()));
        assert(is_digit(s[k]));
        assert(digits_val(s.take(k + 1)) >= digits_val(s.take(k)));
    }
}

proof fn lemma_digits_val_nonneg(s: Seq<char>)
    requires
        all_digits(s),
    ensures
        digits_val(s) >= 0,
    decreases s.len(),
{
    if s.len() > 0 {
        assert(all_digits(s.drop_last())) by {
            assert(forall|i: int| 0 <= i < s.len() - 1 ==> s.drop_last()[i] == s[i]);
        }
        lemma_digits_val_nonneg(s.drop_last());
        assert(is_digit(s.last()));
    }
}

} // verus!
