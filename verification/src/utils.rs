//! Decoding of little-endian words, done by `byteorder`.

use byteorder::ByteOrder;
use vstd::prelude::*;

verus! {

/// The 32-bit word whose little-endian bytes are `b0`, `b1`, `b2`, `b3`.
pub open spec fn le_word(b0: u8, b1: u8, b2: u8, b3: u8) -> u32 {
    (b0 + b1 * 0x100 + b2 * 0x1_0000 + b3 * 0x100_0000) as u32
}

/// The word that starts at byte `4 * i` of `bytes`.
pub open spec fn word_at(bytes: Seq<u8>, i: int) -> u32 {
    le_word(bytes[4 * i], bytes[4 * i + 1], bytes[4 * i + 2], bytes[4 * i + 3])
}

/// `LittleEndian::read_u32_into`: every word of `dst` is overwritten with the
/// little-endian value of the four bytes of `src` at its position, and `dst`
/// keeps its length. The call panics unless `src` is four times as long as
/// `dst`, which the precondition excludes.
#[verifier::external_body]
fn read_words(src: &[u8], dst: &mut Vec<u32>)
    requires
        src@.len() == 4 * old(dst)@.len(),
    ensures
        final(dst)@.len() == old(dst)@.len(),
        forall|i: int| 0 <= i < final(dst)@.len() ==> #[trigger] final(dst)@[i] == word_at(src@, i),
{
    byteorder::LittleEndian::read_u32_into(src, dst)
}

/// The little-endian 32-bit words that `x` is made of.
pub fn to_u32_array(x: &[u8]) -> (out: Vec<u32>)
    requires
        x@.len() % 4 == 0,
    ensures
        out@.len() * 4 == x@.len(),
        forall|i: int| 0 <= i < out@.len() ==> #[trigger] out@[i] == word_at(x@, i),
{
    let n: usize = x.len() / 4;
    let mut out: Vec<u32> = Vec::new();
    let mut i: usize = 0;
    while i < n
        invariant
            i <= n,
            out@.len() == i,
        decreases n - i,
    {
        out.push(0);
        i = i + 1;
    }
    read_words(x, &mut out);
    out
}

} // verus!
