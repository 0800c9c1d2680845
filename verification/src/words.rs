//! Words of 64 bits as bytes, as the data port and the test patterns hold them.

use vstd::prelude::*;

verus! {

/// A word without its `k` lowest bytes.
pub open spec fn without_bytes(word: u64, k: nat) -> u64
    decreases k,
{
    if k == 0 {
        word
    } else {
        without_bytes(word, (k - 1) as nat) / 256
    }
}

/// Byte `k` of a word, the lowest one first.
pub open spec fn le_byte(word: u64, k: nat) -> u8 {
    (without_bytes(word, k) % 256) as u8
}

/// Dropping the lowest byte first changes nothing.
proof fn lemma_without_bytes(word: u64, k: nat)
    ensures
        without_bytes(word, k + 1) == without_bytes(word / 256, k),
    decreases k,
{
    if k > 0 {
        lemma_without_bytes(word, (k - 1) as nat);
    } else {
        reveal_with_fuel(without_bytes, 2);
    }
}

/// A word is determined by its eight bytes.
pub proof fn law_word_is_its_bytes(a: u64, b: u64)
    requires
        forall|k: nat| k < 8 ==> #[trigger] le_byte(a, k) == le_byte(b, k),
    ensures
        a == b,
{
    reveal_with_fuel(without_bytes, 9);
    assert(without_bytes(a, 8) == 0 && without_bytes(b, 8) == 0);
    assert(le_byte(a, 7) == le_byte(b, 7));
    assert(without_bytes(a, 7) == without_bytes(b, 7));
    assert(le_byte(a, 6) == le_byte(b, 6));
    assert(without_bytes(a, 6) == without_bytes(b, 6));
    assert(le_byte(a, 5) == le_byte(b, 5));
    assert(without_bytes(a, 5) == without_bytes(b, 5));
    assert(le_byte(a, 4) == le_byte(b, 4));
    assert(without_bytes(a, 4) == without_bytes(b, 4));
    assert(le_byte(a, 3) == le_byte(b, 3));
    assert(without_bytes(a, 3) == without_bytes(b, 3));
    assert(le_byte(a, 2) == le_byte(b, 2));
    assert(without_bytes(a, 2) == without_bytes(b, 2));
    assert(le_byte(a, 1) == le_byte(b, 1));
    assert(without_bytes(a, 1) == without_bytes(b, 1));
    assert(le_byte(a, 0) == le_byte(b, 0));
}

/// Stores a word in `data`, its lowest byte first.
pub fn store_word(data: &mut [u8], offset: usize, word: u64)
    requires
        offset + 8 <= old(data).len(),
    ensures
        final(data).len() == old(data).len(),
        forall|k: int|
            0 <= k < final(data).len() ==> #[trigger] final(data)@[k] == (if offset <= k < offset
                + 8 {
                le_byte(word, (k - offset) as nat)
            } else {
                old(data)@[k]
            }),
{
    let ghost before = data@;
    let mut rest: u64 = word;
    let mut k: usize = 0;
    while k < 8
        invariant
            k <= 8,
            offset + 8 <= data.len(),
            data.len() == before.len(),
            rest == without_bytes(word, k as nat),
            forall|j: int|
                0 <= j < data.len() ==> #[trigger] data@[j] == (if offset <= j < offset + k {
                    le_byte(word, (j - offset) as nat)
                } else {
                    before[j]
                }),
        decreases 8 - k,
    {
        data[offset + k] = (rest % 256) as u8;
        rest = rest / 256;
        k = k + 1;
    }
}

/// Loads a word from `data`, its lowest byte first.
pub fn load_word(data: &[u8], offset: usize) -> (word: u64)
    requires
        offset + 8 <= data.len(),
    ensures
        forall|k: int| 0 <= k < 8 ==> le_byte(word, k as nat) == #[trigger] data@[offset + k],
{
    let mut word: u64 = 0;
    let mut k: usize = 8;
    let mut bound: u64 = 1;
    while k > 0
        invariant
            k <= 8,
            offset + 8 <= data.len(),
            k == 8 ==> bound == 1,
            k == 7 ==> bound == 0x100,
            k == 6 ==> bound == 0x1_0000,
            k == 5 ==> bound == 0x100_0000,
            k == 4 ==> bound == 0x1_0000_0000,
            k == 3 ==> bound == 0x100_0000_0000,
            k == 2 ==> bound == 0x1_0000_0000_0000,
            k == 1 ==> bound == 0x100_0000_0000_0000,
            k > 0 ==> word < bound,
            forall|j: int| k <= j < 8 ==> le_byte(word, (j - k) as nat) == #[trigger] data@[offset
                + j],
        decreases k,
    {
        let ghost before = word;
        k = k - 1;
        word = word * 256 + data[offset + k] as u64;
        if k > 0 {
            bound = bound * 256;
        }
        assert(word / 256 == before);
        assert(word % 256 == data@[offset + k] as u64);
        assert forall|j: int| k <= j < 8 implies le_byte(word, (j - k) as nat) == #[trigger] data@[
        offset + j] by {
            if j > k {
                lemma_without_bytes(word, (j - k - 1) as nat);
            }
        }
    }
    word
}

} // verus!
