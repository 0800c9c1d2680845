//! Statistics over samples.

use vstd::prelude::*;

verus! {

/// Sum of samples.
pub open spec fn sum(values: Seq<u64>) -> nat
    decreases values.len(),
{
    if values.len() == 0 {
        0
    } else {
        sum(values.drop_last()) + values.last() as nat
    }
}

/// A sum is at most the number of samples times a bound of each.
proof fn lemma_sum_bounds(values: Seq<u64>, low: int, high: int)
    requires
        forall|i: int| 0 <= i < values.len() ==> low <= #[trigger] values[i] <= high,
    ensures
        low * values.len() <= sum(values) <= high * values.len(),
    decreases values.len(),
{
    if values.len() == 0 {
        assert(low * 0 == 0 && high * 0 == 0);
    } else {
        let n = values.len() - 1;
        lemma_sum_bounds(values.drop_last(), low, high);
        assert(low * (n + 1) == low * n + low) by (nonlinear_arith);
        assert(high * (n + 1) == high * n + high) by (nonlinear_arith);
    }
}

/// Adds up samples.
pub fn total(values: &[u64]) -> (total: u128)
    ensures
        total == sum(values@),
{
    let mut total: u128 = 0;
    let mut i: usize = 0;
    while i < values.len()
        invariant
            i <= values.len(),
            total == sum(values@.take(i as int)),
            total <= i * 0xffff_ffff_ffff_ffff,
        decreases values.len() - i,
    {
        proof {
            assert(values@.take(i + 1).drop_last() =~= values@.take(i as int));
            assert(i * 0xffff_ffff_ffff_ffff + 0xffff_ffff_ffff_ffff == (i + 1)
                * 0xffff_ffff_ffff_ffff) by (nonlinear_arith);
            assert((i + 1) * 0xffff_ffff_ffff_ffff <= 0x1_0000_0000_0000_0000
                * 0xffff_ffff_ffff_ffff) by (nonlinear_arith)
                requires
                    i + 1 <= 0x1_0000_0000_0000_0000,
            ;
        }
        total = total + values[i] as u128;
        i = i + 1;
    }
    assert(values@.take(i as int) =~= values@);
    total
}

/// Mean of samples, rounded down; 0 if there are none.
pub open spec fn mean_of(values: Seq<u64>) -> int {
    if values.len() == 0 {
        0
    } else {
        sum(values) as int / values.len() as int
    }
}

/// Computes the mean of samples, rounded down.
pub fn mean(values: &[u64]) -> (mean: u64)
    ensures
        mean == mean_of(values@),
{
    if values.len() == 0 {
        return 0;
    }
    let total: u128 = total(values);
    proof {
        lemma_sum_bounds(values@, 0, u64::MAX as int);
        let (s, n) = (sum(values@) as int, values@.len() as int);
        assert(s / n <= 0xffff_ffff_ffff_ffff) by (nonlinear_arith)
            requires
                n > 0,
                0 <= s <= 0xffff_ffff_ffff_ffff * n,
        ;
    }
    (total / values.len() as u128) as u64
}

/// The mean of samples lies between their smallest and their largest.
pub proof fn law_mean_is_within_range(values: Seq<u64>, low: u64, high: u64)
    requires
        values.len() > 0,
        forall|i: int| 0 <= i < values.len() ==> low <= #[trigger] values[i] <= high,
    ensures
        low <= mean_of(values) <= high,
{
    lemma_sum_bounds(values, low as int, high as int);
    let (s, n) = (sum(values) as int, values.len() as int);
    let (l, h) = (low as int, high as int);
    assert(l <= s / n <= h) by (nonlinear_arith)
        requires
            n > 0,
            l * n <= s <= h * n,
    ;
}

/// Samples in ascending order.
pub open spec fn sorted(values: Seq<u64>) -> bool {
    forall|i: int, j: int| 0 <= i <= j < values.len() ==> values[i] <= values[j]
}

/// Merges two sorted sequences.
fn merge(a: &Vec<u64>, b: &Vec<u64>) -> (merged: Vec<u64>)
    requires
        sorted(a@),
        sorted(b@),
        a.len() + b.len() <= usize::MAX,
    ensures
        sorted(merged@),
        merged@.to_multiset() == a@.to_multiset().add(b@.to_multiset()),
{
    broadcast use vstd::seq_lib::group_to_multiset_ensures;

    let mut merged: Vec<u64> = Vec::with_capacity(a.len() + b.len());
    let mut i: usize = 0;
    let mut j: usize = 0;
    proof {
        assert(a@.take(0) =~= Seq::empty());
        assert(b@.take(0) =~= Seq::empty());
        assert(merged@ =~= Seq::<u64>::empty());
        assert(Seq::<u64>::empty().to_multiset() =~= vstd::multiset::Multiset::empty());
        assert(merged@.to_multiset() =~= a@.take(0).to_multiset().add(b@.take(0).to_multiset()));
    }
    while i < a.len() || j < b.len()
        invariant
            i <= a.len(),
            j <= b.len(),
            a.len() + b.len() <= usize::MAX,
            sorted(a@),
            sorted(b@),
            sorted(merged@),
            merged@.to_multiset() == a@.take(i as int).to_multiset().add(
                b@.take(j as int).to_multiset(),
            ),
            forall|k: int, l: int|
                0 <= k < merged.len() && i <= l < a.len() ==> merged@[k] <= a@[l],
            forall|k: int, l: int|
                0 <= k < merged.len() && j <= l < b.len() ==> merged@[k] <= b@[l],
        decreases a.len() - i + b.len() - j,
    {
        broadcast use vstd::seq_lib::group_to_multiset_ensures;

        if j >= b.len() || (i < a.len() && a[i] <= b[j]) {
            assert(a@.take(i + 1) =~= a@.take(i as int).push(a@[i as int]));
            merged.push(a[i]);
            i = i + 1;
        } else {
            assert(b@.take(j + 1) =~= b@.take(j as int).push(b@[j as int]));
            merged.push(b[j]);
            j = j + 1;
        }
        assert(merged@.to_multiset() =~= a@.take(i as int).to_multiset().add(
            b@.take(j as int).to_multiset(),
        ));
    }
    assert(a@.take(i as int) =~= a@);
    assert(b@.take(j as int) =~= b@);
    merged
}

/// Sorts samples.
pub fn sort(values: &[u64]) -> (result: Vec<u64>)
    ensures
        sorted(result@),
        result@.to_multiset() == values@.to_multiset(),
        result.len() == values.len(),
    decreases values.len(),
{
    broadcast use vstd::seq_lib::group_to_multiset_ensures;

    if values.len() <= 1 {
        let copy = vstd::slice::slice_to_vec(values);
        assert(copy@ =~= values@);
        return copy;
    }
    let middle: usize = values.len() / 2;
    let (left, right) = values.split_at(middle);
    assert(values@ =~= left@ + right@);
    let left_sorted = sort(left);
    let right_sorted = sort(right);
    let merged = merge(&left_sorted, &right_sorted);
    proof {
        vstd::seq_lib::lemma_multiset_commutative(left@, right@);
        assert(merged@.to_multiset() =~= values@.to_multiset());
        assert(merged@.to_multiset().len() == merged.len());
        assert(values@.to_multiset().len() == values.len());
    }
    merged
}

/// Position of a percentile among `len` sorted samples: the smallest one that
/// has that share of the samples up to and including it.
pub open spec fn percentile_index(len: int, percent: int) -> int {
    let rank = (len * percent + 99) / 100;
    if rank == 0 {
        0
    } else if rank > len {
        len - 1
    } else {
        rank - 1
    }
}

/// Takes a percentile from sorted samples.
pub fn percentile(sorted: &[u64], percent: usize) -> (value: u64)
    requires
        sorted.len() > 0,
        sorted.len() * percent <= usize::MAX,
    ensures
        value == sorted@[percentile_index(sorted.len() as int, percent as int)],
{
    let product: usize = sorted.len() * percent;
    let rank: usize = if product % 100 == 0 {
        product / 100
    } else {
        product / 100 + 1
    };
    let index: usize = rank.saturating_sub(1);
    if index < sorted.len() {
        sorted[index]
    } else {
        sorted[sorted.len() - 1]
    }
}

/// At least the given share of the samples is no larger than the percentile,
/// and every sample before it is no larger.
pub proof fn law_percentile_covers_its_share(values: Seq<u64>, percent: int)
    requires
        sorted(values),
        values.len() > 0,
        0 <= percent <= 100,
    ensures
        ({
            let index = percentile_index(values.len() as int, percent);
            &&& 0 <= index < values.len()
            &&& forall|i: int| 0 <= i <= index ==> #[trigger] values[i] <= values[index]
            &&& (index + 1) * 100 >= values.len() * percent
        }),
{
    let n = values.len() as int;
    assert(n * percent <= n * 100) by (nonlinear_arith)
        requires
            0 <= percent <= 100,
            n > 0,
    ;
    assert(n * percent >= 0) by (nonlinear_arith)
        requires
            0 <= percent,
            n > 0,
    ;
}

/// Number of samples below a threshold.
pub open spec fn below(values: Seq<u64>, threshold: u64) -> nat
    decreases values.len(),
{
    if values.len() == 0 {
        0
    } else {
        below(values.drop_last(), threshold) + (if values.last() < threshold {
            1nat
        } else {
            0nat
        })
    }
}

/// Counts the samples below a threshold.
pub fn count_below(values: &[u64], threshold: u64) -> (count: usize)
    ensures
        count == below(values@, threshold),
        count <= values.len(),
{
    let mut count: usize = 0;
    let mut i: usize = 0;
    while i < values.len()
        invariant
            i <= values.len(),
            count == below(values@.take(i as int), threshold),
            count <= i,
        decreases values.len() - i,
    {
        assert(values@.take(i + 1).drop_last() =~= values@.take(i as int));
        if values[i] < threshold {
            count = count + 1;
        }
        i = i + 1;
    }
    assert(values@.take(i as int) =~= values@);
    count
}

/// A higher threshold has at least as many samples below it.
pub proof fn law_higher_threshold_counts_more(values: Seq<u64>, low: u64, high: u64)
    requires
        low <= high,
    ensures
        below(values, low) <= below(values, high) <= values.len(),
    decreases values.len(),
{
    if values.len() > 0 {
        law_higher_threshold_counts_more(values.drop_last(), low, high);
    }
}

/// Statistics of latencies.
#[derive(Clone, Copy, Debug, PartialEq, Eq, Structural)]
pub struct LatencyStats {
    /// Mean, rounded down.
    pub average: u64,
    /// Median.
    pub p50: u64,
    /// 95th percentile.
    pub p95: u64,
    /// 99th percentile.
    pub p99: u64,
    /// Largest.
    pub max: u64,
}

/// Statistics of sorted latencies.
pub open spec fn latency_stats_of(values: Seq<u64>) -> LatencyStats {
    let n = values.len() as int;
    if n == 0 {
        LatencyStats { average: 0, p50: 0, p95: 0, p99: 0, max: 0 }
    } else {
        LatencyStats {
            average: mean_of(values) as u64,
            p50: values[percentile_index(n, 50)],
            p95: values[percentile_index(n, 95)],
            p99: values[percentile_index(n, 99)],
            max: values[n - 1],
        }
    }
}

/// Computes the statistics of sorted latencies.
pub fn latency_stats(sorted: &[u64]) -> (stats: LatencyStats)
    requires
        sorted.len() * 99 <= usize::MAX,
    ensures
        stats == latency_stats_of(sorted@),
{
    if sorted.len() == 0 {
        return LatencyStats { average: 0, p50: 0, p95: 0, p99: 0, max: 0 };
    }
    LatencyStats {
        average: mean(sorted),
        p50: percentile(sorted, 50),
        p95: percentile(sorted, 95),
        p99: percentile(sorted, 99),
        max: sorted[sorted.len() - 1],
    }
}

/// The statistics are those of the latencies, in whatever order they are given.
pub open spec fn sums_up(stats: LatencyStats, values: Seq<u64>) -> bool {
    exists|ordered: Seq<u64>|
        #![trigger sorted(ordered)]
        sorted(ordered) && ordered.to_multiset() == values.to_multiset() && stats
            == latency_stats_of(ordered)
}

/// Sorts latencies and computes their statistics.
pub fn latency_report(values: &[u64]) -> (stats: LatencyStats)
    requires
        values.len() * 99 <= usize::MAX,
    ensures
        sums_up(stats, values@),
{
    let ordered = sort(values);
    let stats = latency_stats(&ordered);
    assert(sorted(ordered@));
    stats
}

/// Smallest sample, 0 if there is none.
pub open spec fn is_minimum(values: Seq<u64>, min: u64) -> bool {
    if values.len() == 0 {
        min == 0
    } else {
        &&& exists|i: int| 0 <= i < values.len() && #[trigger] values[i] == min
        &&& forall|i: int| 0 <= i < values.len() ==> min <= #[trigger] values[i]
    }
}

/// Largest sample, 0 if there is none.
pub open spec fn is_maximum(values: Seq<u64>, max: u64) -> bool {
    if values.len() == 0 {
        max == 0
    } else {
        &&& exists|i: int| 0 <= i < values.len() && #[trigger] values[i] == max
        &&& forall|i: int| 0 <= i < values.len() ==> #[trigger] values[i] <= max
    }
}

/// Finds the smallest and the largest sample.
pub fn extremes(values: &[u64]) -> (result: (u64, u64))
    ensures
        is_minimum(values@, result.0),
        is_maximum(values@, result.1),
{
    if values.len() == 0 {
        return (0, 0);
    }
    let mut min: u64 = values[0];
    let mut max: u64 = values[0];
    let mut i: usize = 1;
    while i < values.len()
        invariant
            1 <= i <= values.len(),
            exists|k: int| 0 <= k < i && #[trigger] values@[k] == min,
            exists|k: int| 0 <= k < i && #[trigger] values@[k] == max,
            forall|k: int| 0 <= k < i ==> min <= #[trigger] values@[k] <= max,
        decreases values.len() - i,
    {
        if values[i] < min {
            min = values[i];
        }
        if values[i] > max {
            max = values[i];
        }
        i = i + 1;
    }
    (min, max)
}

/// Distance of two numbers.
pub open spec fn distance(a: int, b: int) -> int {
    if a < b {
        b - a
    } else {
        a - b
    }
}

/// Sum of the squared distances of samples from a centre.
pub open spec fn square_sum(values: Seq<u64>, centre: int) -> int
    decreases values.len(),
{
    if values.len() == 0 {
        0
    } else {
        square_sum(values.drop_last(), centre) + distance(values.last() as int, centre) * distance(
            values.last() as int,
            centre,
        )
    }
}

proof fn lemma_square_sum_grows(values: Seq<u64>, centre: int, n: int)
    requires
        0 <= n <= values.len(),
    ensures
        0 <= square_sum(values.take(n), centre) <= square_sum(values, centre),
    decreases values.len(),
{
    lemma_square_sum_nonnegative(values.take(n), centre);
    if n == values.len() {
        assert(values.take(n) =~= values);
    } else {
        lemma_square_sum_grows(values.drop_last(), centre, n);
        assert(values.drop_last().take(n) =~= values.take(n));
        let d = distance(values.last() as int, centre);
        assert(d * d >= 0) by (nonlinear_arith);
    }
}

proof fn lemma_square_sum_nonnegative(values: Seq<u64>, centre: int)
    ensures
        0 <= square_sum(values, centre),
    decreases values.len(),
{
    if values.len() > 0 {
        lemma_square_sum_nonnegative(values.drop_last(), centre);
        let d = distance(values.last() as int, centre);
        assert(d * d >= 0) by (nonlinear_arith);
    }
}

/// Sums the squared distances of samples from a centre, if the sum can be held.
pub fn squares(values: &[u64], centre: u64) -> (result: Option<u128>)
    ensures
        result == (if square_sum(values@, centre as int) <= u128::MAX {
            Some(square_sum(values@, centre as int) as u128)
        } else {
            None
        }),
{
    let mut total: u128 = 0;
    let mut i: usize = 0;
    while i < values.len()
        invariant
            i <= values.len(),
            total == square_sum(values@.take(i as int), centre as int),
        decreases values.len() - i,
    {
        let value: u64 = values[i];
        let difference: u128 = if value < centre {
            (centre - value) as u128
        } else {
            (value - centre) as u128
        };
        proof {
            assert(values@.take(i + 1).drop_last() =~= values@.take(i as int));
            assert(difference * difference <= 0xffff_ffff_ffff_ffff * 0xffff_ffff_ffff_ffff)
                by (nonlinear_arith)
                requires
                    0 <= difference <= 0xffff_ffff_ffff_ffff,
            ;
            lemma_square_sum_grows(values@, centre as int, i + 1);
        }
        let square: u128 = difference * difference;
        match total.checked_add(square) {
            Some(sum) => {
                total = sum;
            },
            None => {
                return None;
            },
        }
        i = i + 1;
    }
    assert(values@.take(i as int) =~= values@);
    Some(total)
}

/// The integer square root, rounded down.
pub open spec fn is_square_root(root: int, value: int) -> bool {
    0 <= root && root * root <= value < (root + 1) * (root + 1)
}

/// Computes the integer square root, rounded down.
pub fn integer_sqrt(value: u128) -> (root: u128)
    ensures
        is_square_root(root as int, value as int),
        root <= u64::MAX,
{
    if value < 2 {
        assert(0int * 0 == 0 && 1int * 1 == 1 && 2int * 2 == 4);
        return value;
    }
    let mut low: u128 = 1;
    let mut high: u128 = if value < 0xffff_ffff_ffff_ffff {
        value + 1
    } else {
        0x1_0000_0000_0000_0000
    };
    proof {
        let (h, v) = (high as int, value as int);
        if value < 0xffff_ffff_ffff_ffff {
            assert((v + 1) * (v + 1) > v) by (nonlinear_arith)
                requires
                    v >= 2,
            ;
        } else {
            assert(0x1_0000_0000_0000_0000int * 0x1_0000_0000_0000_0000int
                == 0x1_0000_0000_0000_0000_0000_0000_0000_0000int);
        }
        assert(high * high > value);
    }
    while low + 1 < high
        invariant
            1 <= low < high <= 0x1_0000_0000_0000_0000,
            low * low <= value < high * high,
        decreases high - low,
    {
        let mid: u128 = low + (high - low) / 2;
        proof {
            let (m, v) = (mid as int, value as int);
            assert(m <= v / m <==> m * m <= v) by (nonlinear_arith)
                requires
                    m > 0,
                    v >= 0,
            ;
        }
        if mid <= value / mid {
            low = mid;
        } else {
            high = mid;
        }
    }
    low
}

/// A number has only one integer square root.
pub proof fn law_square_root_is_unique(a: int, b: int, value: int)
    requires
        is_square_root(a, value),
        is_square_root(b, value),
    ensures
        a == b,
{
    if a < b {
        assert((a + 1) * (a + 1) <= b * b) by (nonlinear_arith)
            requires
                0 <= a < b,
        ;
    } else if b < a {
        assert((b + 1) * (b + 1) <= a * a) by (nonlinear_arith)
            requires
                0 <= b < a,
        ;
    }
}

/// Statistics of scalar results.
#[derive(Clone, Copy, Debug, PartialEq, Eq, Structural)]
pub struct ScalarStats {
    /// Mean, rounded down.
    pub mean: u64,
    /// Smallest.
    pub min: u64,
    /// Largest.
    pub max: u64,
    /// Standard deviation, rounded down.
    pub stddev: u64,
}

/// The statistics describe the values.
pub open spec fn describes(stats: ScalarStats, values: Seq<u64>) -> bool {
    &&& stats.mean == mean_of(values)
    &&& is_minimum(values, stats.min)
    &&& is_maximum(values, stats.max)
    &&& if values.len() == 0 {
        stats.stddev == 0
    } else {
        is_square_root(
            stats.stddev as int,
            square_sum(values, mean_of(values)) / values.len() as int,
        )
    }
}

/// Tells whether the variance of the values can be computed: the sum of their
/// squared deviations must fit 128 bits.
pub fn variance_fits(values: &[u64]) -> (fits: bool)
    ensures
        fits == (square_sum(values@, mean_of(values@)) <= u128::MAX),
{
    squares(values, mean(values)).is_some()
}

/// Computes the statistics of scalar results.
pub fn scalar_stats(values: &[u64]) -> (stats: ScalarStats)
    requires
        square_sum(values@, mean_of(values@)) <= u128::MAX,
    ensures
        describes(stats, values@),
{
    if values.len() == 0 {
        return ScalarStats { mean: 0, min: 0, max: 0, stddev: 0 };
    }
    let mean: u64 = mean(values);
    let variance: u128 = match squares(values, mean) {
        Some(total) => total / values.len() as u128,
        None => 0,
    };
    let (min, max): (u64, u64) = extremes(values);
    let stddev: u128 = integer_sqrt(variance);
    proof {
        lemma_square_sum_nonnegative(values@, mean as int);
    }
    ScalarStats { mean, min, max, stddev: stddev as u64 }
}

/// The low 64 bits of a number.
pub open spec fn low64(value: int) -> u64 {
    (value % 0x1_0000_0000_0000_0000) as u64
}

/// Keeps the low 64 bits of a number.
fn truncate(value: u128) -> (low: u64)
    ensures
        low == low64(value as int),
{
    (value % 0x1_0000_0000_0000_0000) as u64
}

/// Thousandths of units per second; an interval of 0 counts as a nanosecond.
pub open spec fn rate_of(units: u64, elapsed_ns: u64) -> u64 {
    low64(
        units * 1_000_000_000_000int / (if elapsed_ns == 0 {
            1int
        } else {
            elapsed_ns as int
        }),
    )
}

/// Computes thousandths of units per second.
#[verifier::when_used_as_spec(rate_of)]
pub fn rate_per_second_milli(units: u64, elapsed_ns: u64) -> (rate: u64)
    ensures
        rate == rate_of(units, elapsed_ns),
{
    let nanoseconds: u128 = if elapsed_ns == 0 {
        1
    } else {
        elapsed_ns as u128
    };
    truncate(units as u128 * 1_000_000_000_000 / nanoseconds)
}

/// Thousandths of MiB per second; an interval of 0 counts as a nanosecond.
pub open spec fn throughput_of(bytes: u64, elapsed_ns: u64) -> u64 {
    low64(
        bytes * 1_000_000_000_000int / ((if elapsed_ns == 0 {
            1int
        } else {
            elapsed_ns as int
        }) * 1_048_576),
    )
}

/// Computes thousandths of MiB per second.
#[verifier::when_used_as_spec(throughput_of)]
pub fn throughput_mib_s_milli(bytes: u64, elapsed_ns: u64) -> (throughput: u64)
    ensures
        throughput == throughput_of(bytes, elapsed_ns),
{
    let nanoseconds: u128 = if elapsed_ns == 0 {
        1
    } else {
        elapsed_ns as u128
    };
    truncate(bytes as u128 * 1_000_000_000_000 / (nanoseconds * 1_048_576))
}

/// Thousandths of the denominator; a denominator of 0 counts as 1.
pub open spec fn ratio_of(numerator: u64, denominator: u64) -> u64 {
    low64(
        numerator * 1_000int / (if denominator == 0 {
            1int
        } else {
            denominator as int
        }),
    )
}

/// Computes thousandths of the denominator.
#[verifier::when_used_as_spec(ratio_of)]
pub fn ratio_permille(numerator: u64, denominator: u64) -> (ratio: u64)
    ensures
        ratio == ratio_of(numerator, denominator),
{
    let divisor: u128 = if denominator == 0 {
        1
    } else {
        denominator as u128
    };
    truncate(numerator as u128 * 1_000 / divisor)
}

/// Thousandths of a baseline; 0 without a baseline.
pub open spec fn retention_of(value: u64, baseline: u64) -> u64 {
    if baseline == 0 {
        0
    } else {
        low64(value * 1_000int / baseline as int)
    }
}

/// Computes thousandths of a baseline.
#[verifier::when_used_as_spec(retention_of)]
pub fn retention_permille(value: u64, baseline: u64) -> (ratio: u64)
    ensures
        ratio == retention_of(value, baseline),
{
    if baseline == 0 {
        0
    } else {
        truncate(value as u128 * 1_000 / baseline as u128)
    }
}

/// Thousandths of a mean; 0 for no samples.
pub open spec fn average_milli_of(total: u64, count: usize) -> u64 {
    if count == 0 {
        0
    } else {
        low64(total * 1_000int / count as int)
    }
}

/// Computes thousandths of a mean.
#[verifier::when_used_as_spec(average_milli_of)]
pub fn average_milli(total: u64, count: usize) -> (average: u64)
    ensures
        average == average_milli_of(total, count),
{
    if count == 0 {
        0
    } else {
        truncate(total as u128 * 1_000 / count as u128)
    }
}

/// Sum of samples, at most the largest number of 64 bits.
pub fn sum_u64(values: &[u64]) -> (total: u64)
    ensures
        total == (if sum(values@) > u64::MAX {
            u64::MAX as nat
        } else {
            sum(values@)
        }),
{
    let all: u128 = total(values);
    if all > u64::MAX as u128 {
        u64::MAX
    } else {
        all as u64
    }
}

} // verus!
