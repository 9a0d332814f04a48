//! Words as the bytes that a device buffer takes, and back.

use vstd::prelude::*;

verus! {

/// `bytes` holds the words one after the other, least significant byte first.
pub open spec fn little_endian(words: Seq<u32>, bytes: Seq<u8>) -> bool {
    &&& bytes.len() == 4 * words.len()
    &&& forall|i: int|
        0 <= i < words.len() ==> #[trigger] words[i] == bytes[4 * i] + 0x100 * bytes[4 * i + 1]
            + 0x1_0000 * bytes[4 * i + 2] + 0x100_0000 * bytes[4 * i + 3]
}

/// `bytes` holds the words one after the other, most significant byte first.
pub open spec fn big_endian(words: Seq<u32>, bytes: Seq<u8>) -> bool {
    &&& bytes.len() == 4 * words.len()
    &&& forall|i: int|
        0 <= i < words.len() ==> #[trigger] words[i] == bytes[4 * i + 3] + 0x100 * bytes[4 * i + 2]
            + 0x1_0000 * bytes[4 * i + 1] + 0x100_0000 * bytes[4 * i]
}

/// `bytes` is the memory of the words, in one byte order or the other
/// throughout; which one is the machine's.
pub open spec fn encodes(words: Seq<u32>, bytes: Seq<u8>) -> bool {
    little_endian(words, bytes) || big_endian(words, bytes)
}

/// The memory of the words.
///
/// Calls `bytemuck::cast_slice` from `u32` to `u8`, which reinterprets the
/// slice in place. It cannot fail: bytes need no alignment, and four of them
/// make up every word. Claimed of it: the words stand one after the other, four
/// bytes each, in the machine's byte order, which is left open.
#[verifier::external_body]
pub(crate) fn words_to_bytes(words: &[u32]) -> (bytes: Vec<u8>)
    ensures
        encodes(words@, bytes@),
{
    bytemuck::cast_slice::<u32, u8>(words).to_vec()
}

/// The words in some memory.
///
/// Calls `bytemuck::pod_collect_to_vec` from `u8` to `u32`, which copies the
/// bytes into as many words as hold them, wherever they lie. Claimed of it: the
/// words are those that the bytes hold in the machine's byte order, which is
/// left open. A slice that ends within a word is left out.
#[verifier::external_body]
pub(crate) fn bytes_to_words(bytes: &[u8]) -> (words: Vec<u32>)
    requires
        bytes@.len() % 4 == 0,
    ensures
        encodes(words@, bytes@),
{
    bytemuck::pod_collect_to_vec::<u8, u32>(bytes)
}

} // verus!
