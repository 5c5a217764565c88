//! The program image: a sequence of 32-bit words, each stored as four
//! bytes, most significant first.
use vstd::prelude::*;

verus! {

/// The word stored big-endian at bytes `4 * i` to `4 * i + 3`.
pub open spec fn word_at(bytes: Seq<u8>, i: int) -> u32 {
    (bytes[4 * i] as nat * 0x100_0000 + bytes[4 * i + 1] as nat * 0x1_0000 + bytes[4 * i + 2] as nat
        * 0x100 + bytes[4 * i + 3] as nat) as u32
}

/// The words of a program image, or `None` when its length is not a
/// multiple of four.
pub fn words_from_bytes(bytes: &[u8]) -> (r: Option<Vec<u32>>)
    ensures
        r is Some <==> bytes@.len() % 4 == 0,
        r matches Some(words) ==> {
            &&& words@.len() == bytes@.len() / 4
            &&& forall|i: int| 0 <= i < words@.len() ==> #[trigger] words@[i] == word_at(bytes@, i)
        },
{
    if bytes.len() % 4 != 0 {
        return None;
    }
    let len = bytes.len();
    let n = len / 4;
    let mut words: Vec<u32> = Vec::with_capacity(n);
    let mut i: usize = 0;
    while i < n
        invariant
            len == bytes@.len(),
            n == bytes@.len() / 4,
            bytes@.len() % 4 == 0,
            i <= n,
            words@.len() == i,
            forall|k: int| 0 <= k < i ==> #[trigger] words@[k] == word_at(bytes@, k),
        decreases n - i,
    {
        assert(4 * i + 4 <= bytes@.len()) by (nonlinear_arith)
            requires
                i < n,
                n == bytes@.len() / 4,
        ;
        let j = 4 * i;
        let w: u32 = bytes[j] as u32 * 0x100_0000 + bytes[j + 1] as u32 * 0x1_0000 + bytes[j + 2] as u32
            * 0x100 + bytes[j + 3] as u32;
        words.push(w);
        i = i + 1;
    }
    Some(words)
}

} // verus!
