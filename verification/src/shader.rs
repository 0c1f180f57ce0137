//! SPIR-V modules arrive as bytes; Vulkan takes them as little-endian
//! 32-bit words.

use vstd::prelude::*;

verus! {

/// The little-endian word made of bytes `4i .. 4i + 4`.
pub open spec fn le_word(bytes: Seq<u8>, i: int) -> u32 {
    (bytes[4 * i] + bytes[4 * i + 1] * 0x100 + bytes[4 * i + 2] * 0x1_0000 + bytes[4 * i + 3]
        * 0x100_0000) as u32
}

/// Decode a SPIR-V byte stream into its words; a trailing partial word is
/// dropped.
pub fn spirv_words(bytes: &[u8]) -> (words: Vec<u32>)
    ensures
        words.len() == bytes.len() / 4,
        forall|i: int| 0 <= i < words.len() ==> #[trigger] words[i] == le_word(bytes@, i),
{
    let count = bytes.len() / 4;
    let mut words: Vec<u32> = Vec::new();
    let mut i: usize = 0;
    while i < count
        invariant
            count == bytes.len() / 4,
            i <= count,
            words.len() == i,
            forall|j: int| 0 <= j < i ==> #[trigger] words[j] == le_word(bytes@, j),
        decreases count - i,
    {
        let b0 = bytes[4 * i] as u32;
        let b1 = bytes[4 * i + 1] as u32;
        let b2 = bytes[4 * i + 2] as u32;
        let b3 = bytes[4 * i + 3] as u32;
        let w = b0 + b1 * 0x100 + b2 * 0x1_0000 + b3 * 0x100_0000;
        words.push(w);
        i += 1;
    }
    words
}

} // verus!
