//! Words and bytes as they lie in device memory.
//!
//! Tables and parameter blocks are built as words of 32 bits and go to
//! the device as the bytes of those words, in the byte order of the
//! machine that runs both.

use vstd::prelude::*;
use vstd::slice::slice_to_vec;

verus! {

/// The word that four bytes hold, least significant byte first.
pub open spec fn word_le(bytes: Seq<u8>, k: int) -> int {
    bytes[4 * k] + 0x100 * bytes[4 * k + 1] + 0x1_0000 * bytes[4 * k + 2] + 0x100_0000 * bytes[4
        * k + 3]
}

/// The word that four bytes hold, most significant byte first.
pub open spec fn word_be(bytes: Seq<u8>, k: int) -> int {
    bytes[4 * k + 3] + 0x100 * bytes[4 * k + 2] + 0x1_0000 * bytes[4 * k + 1] + 0x100_0000
        * bytes[4 * k]
}

/// Whether `bytes` holds `words` one after the other, every word in the
/// same byte order.
pub open spec fn bytes_hold_words(bytes: Seq<u8>, words: Seq<u32>) -> bool {
    &&& bytes.len() == 4 * words.len()
    &&& {
        ||| forall|k: int| 0 <= k < words.len() ==> word_le(bytes, k) == #[trigger] words[k]
        ||| forall|k: int| 0 <= k < words.len() ==> word_be(bytes, k) == #[trigger] words[k]
    }
}

/// `bytemuck::cast_slice` from words of 32 bits to bytes. The cast cannot
/// fail, since every address is aligned for a byte and every length in
/// bytes is a whole number of bytes. The result is the memory of the
/// words: four bytes for each, in the byte order of the machine.
#[verifier::external_body]
fn words_as_bytes(words: &[u32]) -> (bytes: &[u8])
    ensures
        bytes_hold_words(bytes@, words@),
{
    bytemuck::cast_slice::<u32, u8>(words)
}

/// The bytes of the given words: four for each word, one word after the
/// other.
pub fn words_to_bytes(words: &Vec<u32>) -> (bytes: Vec<u8>)
    ensures
        bytes_hold_words(bytes@, words@),
{
    slice_to_vec(words_as_bytes(words.as_slice()))
}

} // verus!
