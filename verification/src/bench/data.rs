//! Test data: checksums, patterns and comparisons.

use crate::words::{le_byte, store_word, without_bytes};
use vstd::prelude::*;

verus! {

/// First block of the region that diagnostics use.
pub const TEST_START_LBA: u32 = 2_099_200;

/// Start value of a checksum.
pub const CHECKSUM_SEED: u64 = 0xcbf2_9ce4_8422_2325;

/// Factor of a checksum step.
pub const CHECKSUM_PRIME: u64 = 0x0000_0100_0000_01b3;

/// Multiplier that spreads small numbers.
pub const SPREAD: u64 = 0x9e37_79b9_7f4a_7c15;

/// First multiplier of the mixing steps.
pub const MIX_A: u64 = 0xbf58_476d_1ce4_e5b9;

/// Second multiplier of the mixing steps.
pub const MIX_B: u64 = 0x94d0_49bb_1331_11eb;

/// Iterations of a unit of computation.
pub const COMPUTE_ITERATIONS_PER_UNIT: u64 = 4096;

/// Start value of a computation.
pub const COMPUTE_SEED: u64 = 0x243f_6a88_85a3_08d3;

/// Checksum of `bytes` that continues from `seed`: each byte is mixed in with
/// an exclusive or and a multiplication.
pub open spec fn checksum_from(seed: u64, bytes: Seq<u8>) -> u64
    decreases bytes.len(),
{
    if bytes.len() == 0 {
        seed
    } else {
        (checksum_from(seed, bytes.drop_last()) ^ (bytes.last() as u64)).wrapping_mul(
            CHECKSUM_PRIME,
        )
    }
}

/// Continues a checksum.
pub fn update_checksum(checksum: u64, bytes: &[u8]) -> (result: u64)
    ensures
        result == checksum_from(checksum, bytes@),
{
    let mut result: u64 = checksum;
    let mut i: usize = 0;
    while i < bytes.len()
        invariant
            i <= bytes.len(),
            result == checksum_from(checksum, bytes@.take(i as int)),
        decreases bytes.len() - i,
    {
        assert(bytes@.take(i + 1).drop_last() =~= bytes@.take(i as int));
        result = (result ^ (bytes[i] as u64)).wrapping_mul(CHECKSUM_PRIME);
        i = i + 1;
    }
    assert(bytes@.take(i as int) =~= bytes@);
    result
}

/// Checksum of `data`.
pub fn checksum(data: &[u8]) -> (result: u64)
    ensures
        result == checksum_from(CHECKSUM_SEED, data@),
{
    update_checksum(CHECKSUM_SEED, data)
}

/// A checksum can be taken piece by piece.
pub proof fn law_checksum_of_pieces(seed: u64, a: Seq<u8>, b: Seq<u8>)
    ensures
        checksum_from(seed, a + b) == checksum_from(checksum_from(seed, a), b),
    decreases b.len(),
{
    if b.len() == 0 {
        assert(a + b =~= a);
    } else {
        assert((a + b).drop_last() =~= a + b.drop_last());
        law_checksum_of_pieces(seed, a, b.drop_last());
    }
}

/// One iteration of a unit of computation.
pub open spec fn work_step(state: u64, unit: u64, iteration: u64) -> u64 {
    let mixed = state ^ (unit.wrapping_mul(SPREAD) ^ iteration);
    let turned = ((mixed << 17u64) | (mixed >> 47u64)).wrapping_mul(MIX_A);
    turned ^ (turned >> 29u64)
}

/// The first `n` iterations of a unit of computation.
pub open spec fn work(state: u64, unit: u64, n: nat) -> u64
    decreases n,
{
    if n == 0 {
        state
    } else {
        work_step(work(state, unit, (n - 1) as nat), unit, (n - 1) as u64)
    }
}

/// Performs a unit of computation.
pub fn compute_work_unit(state: u64, unit: u64) -> (result: u64)
    ensures
        result == work(state, unit, COMPUTE_ITERATIONS_PER_UNIT as nat),
{
    let mut result: u64 = state;
    let mut iteration: u64 = 0;
    while iteration < COMPUTE_ITERATIONS_PER_UNIT
        invariant
            iteration <= COMPUTE_ITERATIONS_PER_UNIT,
            result == work(state, unit, iteration as nat),
        decreases COMPUTE_ITERATIONS_PER_UNIT - iteration,
    {
        let mixed: u64 = result ^ (unit.wrapping_mul(SPREAD) ^ iteration);
        let turned: u64 = ((mixed << 17u64) | (mixed >> 47u64)).wrapping_mul(MIX_A);
        result = turned ^ (turned >> 29u64);
        iteration = iteration + 1;
    }
    result
}

/// Position within a group of requests that is sampled.
pub open spec fn sampled_position(group: usize, stride: usize) -> usize {
    let spread = group.wrapping_mul(0x9e37_79b9);
    let once = spread ^ (spread >> (usize::BITS / 2));
    let twice = once ^ (once >> (usize::BITS / 4));
    twice % stride
}

/// The latency of the request is sampled. A stride of 0 counts as 1.
pub open spec fn is_sampled(request: usize, stride: usize) -> bool {
    let s = if stride == 0 {
        1usize
    } else {
        stride
    };
    request % s == sampled_position((request / s) as usize, s)
}

/// Tells whether the latency of the request is sampled: one request of each
/// group of `stride` requests, at a position that varies from group to group.
#[verifier::when_used_as_spec(is_sampled)]
pub fn should_sample_latency(request: usize, stride: usize) -> (sample: bool)
    ensures
        sample == is_sampled(request, stride),
{
    let s: usize = if stride == 0 {
        1
    } else {
        stride
    };
    let group: usize = request / s;
    let spread: usize = group.wrapping_mul(0x9e37_79b9);
    let once: usize = spread ^ (spread >> (usize::BITS / 2));
    let twice: usize = once ^ (once >> (usize::BITS / 4));
    request % s == twice % s
}

/// Of each complete group of `stride` requests exactly one is sampled.
pub proof fn law_one_sample_per_group(group: usize, stride: usize)
    requires
        stride > 0,
        (group + 1) * stride <= usize::MAX,
    ensures
        ({
            let position = group * stride + sampled_position(group, stride);
            &&& group * stride <= position < (group + 1) * stride
            &&& is_sampled(position as usize, stride)
            &&& forall|request: usize|
                group * stride <= request < (group + 1) * stride && #[trigger] is_sampled(
                    request,
                    stride,
                ) ==> request == position
        }),
{
    let (g, s) = (group as int, stride as int);
    assert((g + 1) * s == g * s + s) by (nonlinear_arith);
    assert(0 <= g * s) by (nonlinear_arith)
        requires
            0 <= g,
            0 <= s,
    ;
    let position = (g * s + sampled_position(group, stride)) as usize;
    lemma_place_in_group(position, group, stride);
    assert forall|request: usize|
        g * s <= request < (g + 1) * s && #[trigger] is_sampled(request, stride) implies request
        == position by {
        lemma_place_in_group(request, group, stride);
    }
}

/// The group of a request and its place in it.
proof fn lemma_place_in_group(request: usize, group: usize, stride: usize)
    requires
        stride > 0,
        group * stride <= request < group * stride + stride,
    ensures
        request / stride == group,
        request % stride == request - group * stride,
{
    vstd::arithmetic::div_mod::lemma_fundamental_div_mod_converse(
        request as int,
        stride as int,
        group as int,
        request - group * stride,
    );
}

/// One step of the pattern generator.
pub open spec fn pattern_step(state: u64, word: u64) -> u64 {
    let a = state ^ word.wrapping_mul(MIX_A);
    let b = (a ^ (a >> 30u64)).wrapping_mul(MIX_A);
    let c = (b ^ (b >> 27u64)).wrapping_mul(MIX_B);
    c ^ (c >> 31u64)
}

/// State of the pattern generator of a block after `n` words.
pub open spec fn pattern_state(seed: u64, lba: u64, n: nat) -> u64
    decreases n,
{
    if n == 0 {
        seed ^ lba.wrapping_mul(SPREAD)
    } else {
        pattern_step(pattern_state(seed, lba, (n - 1) as nat), (n - 1) as u64)
    }
}

/// Byte `i` of the pattern of a region that starts at `TEST_START_LBA`: each
/// block is made of 64 words of its own, each in the order of its bytes.
pub open spec fn pattern_byte(seed: u64, i: int) -> u8 {
    le_byte(
        pattern_state(
            seed,
            (TEST_START_LBA + i / 512) as u64,
            (i % 512 / 8 + 1) as nat,
        ),
        (i % 8) as nat,
    )
}

/// Where a word of the pattern lies.
proof fn lemma_pattern_place(seed: u64, block: int, word: int, i: int)
    requires
        0 <= block,
        0 <= word < 64,
        block * 512 + word * 8 <= i < block * 512 + word * 8 + 8,
    ensures
        pattern_byte(seed, i) == le_byte(
            pattern_state(seed, (TEST_START_LBA + block) as u64, (word + 1) as nat),
            (i - block * 512 - word * 8) as nat,
        ),
{
    assert(i / 512 == block);
    assert(i % 512 / 8 == word);
    assert(i % 8 == i - block * 512 - word * 8);
}

/// Fills the complete blocks of `data` with the pattern of a seed.
pub fn fill_pattern(data: &mut [u8], seed: u64)
    ensures
        final(data).len() == old(data).len(),
        forall|i: int|
            0 <= i < final(data).len() ==> #[trigger] final(data)@[i] == (if i < old(data).len()
                / 512 * 512 {
                pattern_byte(seed, i)
            } else {
                old(data)@[i]
            }),
{
    let ghost before = data@;
    let blocks: usize = data.len() / 512;
    let mut block: usize = 0;
    while block < blocks
        invariant
            block <= blocks,
            blocks == before.len() / 512,
            data.len() == before.len(),
            forall|i: int|
                0 <= i < data.len() ==> #[trigger] data@[i] == (if i < block * 512 {
                    pattern_byte(seed, i)
                } else {
                    before[i]
                }),
        decreases blocks - block,
    {
        let lba: u64 = TEST_START_LBA as u64 + block as u64;
        let mut state: u64 = seed ^ lba.wrapping_mul(SPREAD);
        let mut word: usize = 0;
        while word < 64
            invariant
                word <= 64,
                block < blocks,
                blocks == before.len() / 512,
                data.len() == before.len(),
                lba == TEST_START_LBA + block,
                state == pattern_state(seed, lba, word as nat),
                forall|i: int|
                    0 <= i < data.len() ==> #[trigger] data@[i] == (if i < block * 512 + word * 8 {
                        pattern_byte(seed, i)
                    } else {
                        before[i]
                    }),
            decreases 64 - word,
        {
            let ghost earlier = data@;
            let a: u64 = state ^ (word as u64).wrapping_mul(MIX_A);
            let b: u64 = (a ^ (a >> 30u64)).wrapping_mul(MIX_A);
            let c: u64 = (b ^ (b >> 27u64)).wrapping_mul(MIX_B);
            state = c ^ (c >> 31u64);
            let offset: usize = block * 512 + word * 8;
            store_word(data, offset, state);
            assert forall|i: int| 0 <= i < data.len() implies #[trigger] data@[i] == (if i < block
                * 512 + (word + 1) * 8 {
                pattern_byte(seed, i)
            } else {
                before[i]
            }) by {
                if offset <= i < offset + 8 {
                    lemma_pattern_place(seed, block as int, word as int, i);
                } else {
                    assert(data@[i] == earlier[i]);
                }
            }
            word = word + 1;
        }
        block = block + 1;
    }
}

/// Byte `i` of the pattern that the busy test writes from `start_lba` on.
pub open spec fn busy_pattern_byte(start_lba: u32, tag: u8, i: int) -> u8 {
    le_byte((start_lba + i / 512) as u64, (i % 4) as nat).wrapping_add(
        ((i % 256) as u8).wrapping_mul(29),
    ).wrapping_add(tag)
}

/// Fills `buffer` with the pattern that the busy test writes.
pub fn fill_async_write_test_pattern(buffer: &mut [u8], start_lba: u32, tag: u8)
    requires
        old(buffer).len() % 512 == 0,
        start_lba + old(buffer).len() / 512 <= 0x1_0000_0000,
    ensures
        final(buffer).len() == old(buffer).len(),
        forall|i: int|
            0 <= i < final(buffer).len() ==> #[trigger] final(buffer)@[i] == busy_pattern_byte(
                start_lba,
                tag,
                i,
            ),
{
    let mut i: usize = 0;
    while i < buffer.len()
        invariant
            i <= buffer.len(),
            buffer.len() == old(buffer).len(),
            buffer.len() % 512 == 0,
            start_lba + buffer.len() / 512 <= 0x1_0000_0000,
            forall|k: int|
                0 <= k < i ==> #[trigger] buffer@[k] == busy_pattern_byte(start_lba, tag, k),
        decreases buffer.len() - i,
    {
        let lba: u64 = start_lba as u64 + (i / 512) as u64;
        let part: u64 = match i % 4 {
            0 => lba % 256,
            1 => lba / 256 % 256,
            2 => lba / 256 / 256 % 256,
            _ => lba / 256 / 256 / 256 % 256,
        };
        proof {
            reveal_with_fuel(without_bytes, 4);
        }
        let low: usize = i % 256;
        buffer[i] = (part as u8).wrapping_add((low as u8).wrapping_mul(29)).wrapping_add(tag);
        i = i + 1;
    }
}

/// The first position at which two sequences differ, with the expected and the
/// actual byte.
pub open spec fn is_first_mismatch(
    actual: Seq<u8>,
    expected: Seq<u8>,
    result: Option<(usize, u8, u8)>,
) -> bool {
    match result {
        Some((offset, e, a)) => {
            &&& offset < actual.len() && offset < expected.len()
            &&& actual[offset as int] == a && expected[offset as int] == e && a != e
            &&& forall|i: int| 0 <= i < offset ==> #[trigger] actual[i] == expected[i]
        },
        None => forall|i: int|
            0 <= i < actual.len() && i < expected.len() ==> #[trigger] actual[i] == expected[i],
    }
}

/// Finds the first position at which two buffers differ, as far as both go.
pub fn first_mismatch(actual: &[u8], expected: &[u8]) -> (result: Option<(usize, u8, u8)>)
    ensures
        is_first_mismatch(actual@, expected@, result),
{
    let mut i: usize = 0;
    while i < actual.len() && i < expected.len()
        invariant
            i <= actual.len(),
            i <= expected.len(),
            forall|k: int| 0 <= k < i ==> #[trigger] actual@[k] == expected@[k],
        decreases actual.len() - i,
    {
        if actual[i] != expected[i] {
            return Some((i, expected[i], actual[i]));
        }
        i = i + 1;
    }
    None
}

/// Tells whether two buffers hold the same bytes.
pub fn same_bytes(actual: &[u8], expected: &[u8]) -> (same: bool)
    ensures
        same == (actual@ == expected@),
{
    if actual.len() != expected.len() {
        return false;
    }
    let same = first_mismatch(actual, expected).is_none();
    assert(same ==> actual@ =~= expected@);
    same
}

/// What a region holds after the first `requests` pieces of `piece` bytes were
/// written, in a cycle of `per_region` pieces.
pub fn expected_region_after_requests(
    piece: usize,
    per_region: usize,
    backup: &[u8],
    pattern: &[u8],
    requests: usize,
) -> (expected: Vec<u8>)
    requires
        piece * per_region <= backup.len(),
        backup.len() == pattern.len(),
    ensures
        expected.len() == backup.len(),
        forall|i: int|
            0 <= i < expected.len() ==> #[trigger] expected@[i] == (if i < piece * (if requests
                < per_region {
                requests
            } else {
                per_region
            }) {
                pattern@[i]
            } else {
                backup@[i]
            }),
{
    let written: usize = if requests < per_region {
        requests
    } else {
        per_region
    };
    assert(piece * written <= piece * per_region) by (nonlinear_arith)
        requires
            written <= per_region,
    ;
    let end: usize = piece * written;
    let mut expected: Vec<u8> = vstd::slice::slice_to_vec(backup);
    let mut i: usize = 0;
    while i < end
        invariant
            i <= end,
            end <= backup.len(),
            expected.len() == backup.len(),
            backup.len() == pattern.len(),
            forall|k: int|
                0 <= k < expected.len() ==> #[trigger] expected@[k] == (if k < i {
                    pattern@[k]
                } else {
                    backup@[k]
                }),
        decreases end - i,
    {
        expected.set(i, pattern[i]);
        i = i + 1;
    }
    expected
}

} // verus!
