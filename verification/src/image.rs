//! Loading a binary image: the file's bytes are grouped into
//! non-overlapping pairs, each decoded little-endian into one word, and
//! a trailing odd byte is discarded.

use vstd::prelude::*;

use vstd::bytes::{spec_u16_from_le_bytes, spec_u16_to_le_bytes, u16_from_le_bytes};
use vstd::bytes::lemma_auto_spec_u16_to_from_le_bytes;
use vstd::slice::slice_subrange;

use crate::compiler::words_le_bytes;

verus! {

/// The words a byte stream decodes to: little-endian pairs, any odd
/// trailing byte dropped.
pub open spec fn spec_words_of(bytes: Seq<u8>) -> Seq<u16>
    decreases bytes.len(),
{
    if bytes.len() < 2 {
        Seq::empty()
    } else {
        seq![spec_u16_from_le_bytes(bytes.take(2))] + spec_words_of(bytes.skip(2))
    }
}

/// Decoding yields one word for each whole pair of bytes: an odd
/// trailing byte contributes nothing.
pub proof fn lemma_words_of_len(bytes: Seq<u8>)
    ensures
        spec_words_of(bytes).len() == bytes.len() / 2,
    decreases bytes.len(),
{
    if bytes.len() >= 2 {
        lemma_words_of_len(bytes.skip(2));
    }
}

/// Decoding inverts the byte layout the compiler emits: the words of
/// the laid-out bytes are the original words.
pub proof fn lemma_words_of_le_bytes(ws: Seq<u16>)
    ensures
        spec_words_of(words_le_bytes(ws)) == ws,
    decreases ws.len(),
{
    lemma_auto_spec_u16_to_from_le_bytes();
    if ws.len() == 0 {
        assert(spec_words_of(words_le_bytes(ws)) =~= ws);
    } else {
        lemma_words_of_le_bytes(ws.skip(1));
        let bs = words_le_bytes(ws);
        assert(bs.take(2) =~= spec_u16_to_le_bytes(ws[0]));
        assert(bs.skip(2) =~= words_le_bytes(ws.skip(1)));
        assert(spec_words_of(bs) =~= ws);
    }
}

/// Decodes a byte stream into the image it denotes, exactly as
/// [`spec_words_of`] describes.
#[verifier::loop_isolation(false)]
pub fn load_image(bytes: &[u8]) -> (r: Vec<u16>)
    ensures
        r@ == spec_words_of(bytes@),
{
    let ghost bv = bytes@;
    let mut words: Vec<u16> = Vec::new();
    let n = bytes.len();
    let mut i: usize = 0;
    proof {
        assert(bv.skip(0) =~= bv);
    }
    while i + 1 < n
        invariant
            0 <= i <= n,
            i % 2 == 0,
            words@ + spec_words_of(bv.skip(i as int)) == spec_words_of(bv),
        decreases n - i,
    {
        let pair = slice_subrange(bytes, i, i + 2);
        let w = u16_from_le_bytes(pair);
        let ghost pre = words@;
        words.push(w);
        proof {
            assert(bv.skip(i as int).take(2) =~= pair@);
            assert(bv.skip(i as int).skip(2) =~= bv.skip(i + 2));
            assert(spec_words_of(bv.skip(i as int)) == seq![w] + spec_words_of(bv.skip(i + 2)));
            assert(words@ + spec_words_of(bv.skip(i + 2)) =~= pre + spec_words_of(
                bv.skip(i as int),
            ));
        }
        i += 2;
    }
    proof {
        assert(bv.skip(i as int).len() < 2);
        assert(spec_words_of(bv.skip(i as int)) =~= Seq::<u16>::empty());
        assert(words@ =~= spec_words_of(bv));
    }
    words
}

} // verus!
