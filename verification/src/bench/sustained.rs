//! Long series of reads: throughput and the spread of latencies.

use crate::bench::measure::countable;
use crate::bench::stats::{
    below, count_below, describes, latency_report, law_higher_threshold_counts_more, mean_of,
    retention_permille, scalar_stats, square_sum, sums_up, throughput_mib_s_milli, LatencyStats,
    ScalarStats,
};
use vstd::prelude::*;

verus! {

/// A request this slow is reported on its own.
pub const SLOW_NS: u64 = 1_000_000;

/// Slow requests that are reported of a run at most.
pub const SLOW_SAMPLES: usize = 8;

/// The throughput of a series of rounds.
#[derive(Debug)]
pub struct RateSeries {
    /// Throughput of each round.
    pub rates: Vec<u64>,
    /// Time of all rounds.
    pub elapsed_total_ns: u64,
}

impl RateSeries {
    /// No round yet.
    pub fn new() -> (series: RateSeries)
        ensures
            series.rates@ == Seq::<u64>::empty(),
            series.elapsed_total_ns == 0,
    {
        RateSeries { rates: Vec::new(), elapsed_total_ns: 0 }
    }

    /// What a round makes of the series.
    pub open spec fn grown(self, after: RateSeries, bytes: u64, elapsed_ns: u64) -> bool {
        &&& after.rates@ == self.rates@.push(throughput_mib_s_milli(bytes, elapsed_ns))
        &&& after.elapsed_total_ns == self.elapsed_total_ns.saturating_add(elapsed_ns)
    }

    /// Takes a round and tells its throughput.
    pub fn add(&mut self, bytes: u64, elapsed_ns: u64) -> (throughput: u64)
        ensures
            throughput == throughput_mib_s_milli(bytes, elapsed_ns),
            old(self).grown(*final(self), bytes, elapsed_ns),
    {
        let throughput: u64 = throughput_mib_s_milli(bytes, elapsed_ns);
        self.rates.push(throughput);
        self.elapsed_total_ns = self.elapsed_total_ns.saturating_add(elapsed_ns);
        throughput
    }

    /// Throughput of all rounds together, of which each moved so many bytes.
    pub fn aggregate(&self, bytes: u64) -> (throughput: u64)
        requires
            bytes * self.rates@.len() <= u64::MAX,
        ensures
            throughput == throughput_mib_s_milli(
                (bytes * self.rates@.len()) as u64,
                self.elapsed_total_ns,
            ),
    {
        throughput_mib_s_milli(bytes * self.rates.len() as u64, self.elapsed_total_ns)
    }

    /// How the rounds vary.
    pub fn spread(&self) -> (stats: ScalarStats)
        requires
            square_sum(self.rates@, mean_of(self.rates@)) <= u128::MAX,
        ensures
            describes(stats, self.rates@),
    {
        scalar_stats(&self.rates)
    }
}

/// The slow requests among the first `n`, each with its number.
pub open spec fn slow_among(latencies: Seq<u64>, n: nat) -> Seq<(usize, u64)>
    decreases n,
{
    if n == 0 {
        Seq::empty()
    } else {
        let before = slow_among(latencies, (n - 1) as nat);
        if latencies[n - 1] >= SLOW_NS {
            before.push(((n - 1) as usize, latencies[n - 1]))
        } else {
            before
        }
    }
}

/// Picks the first slow requests of a run.
pub fn slow_samples(latencies: &[u64]) -> (slow: Vec<(usize, u64)>)
    ensures
        ({
            let all = slow_among(latencies@, latencies@.len());
            slow@ == if all.len() > SLOW_SAMPLES {
                all.take(SLOW_SAMPLES as int)
            } else {
                all
            }
        }),
{
    let mut slow: Vec<(usize, u64)> = Vec::new();
    let mut i: usize = 0;
    while i < latencies.len()
        invariant
            i <= latencies.len(),
            ({
                let all = slow_among(latencies@, i as nat);
                slow@ == if all.len() > SLOW_SAMPLES {
                    all.take(SLOW_SAMPLES as int)
                } else {
                    all
                }
            }),
        decreases latencies.len() - i,
    {
        let ghost before = slow_among(latencies@, i as nat);
        if latencies[i] >= SLOW_NS && slow.len() < SLOW_SAMPLES {
            slow.push((i, latencies[i]));
        }
        i = i + 1;
        assert({
            let all = slow_among(latencies@, i as nat);
            slow@ =~= if all.len() > SLOW_SAMPLES {
                all.take(SLOW_SAMPLES as int)
            } else {
                all
            }
        });
    }
    slow
}

/// The runs over the long region.
#[derive(Debug)]
pub struct SustainedResults {
    /// Runs without timing each request.
    pub whole: RateSeries,
    /// Runs with timing each request.
    pub instrumented: RateSeries,
    /// Times of the timed requests.
    pub latencies: Vec<u64>,
}

/// What the runs amount to.
#[derive(Clone, Copy, Debug, PartialEq, Eq, Structural)]
pub struct SustainedSummary {
    /// Throughput without timing each request.
    pub whole_mib_s_milli: u64,
    /// Throughput with timing each request.
    pub instrumented_mib_s_milli: u64,
    /// The latter in thousandths of the former.
    pub instrumentation_ratio_permille: u64,
    /// Times of requests.
    pub latency: LatencyStats,
    /// Requests below 500 us.
    pub below_500us: usize,
    /// Requests from 500 us to below 1 ms.
    pub from_500us_to_1ms: usize,
    /// Requests from 1 ms to below 3 ms.
    pub from_1ms_to_3ms: usize,
    /// Requests from 3 ms on.
    pub from_3ms: usize,
}

impl SustainedResults {
    /// No run yet.
    pub fn new() -> (results: SustainedResults)
        ensures
            results.whole.rates@ == Seq::<u64>::empty(),
            results.whole.elapsed_total_ns == 0,
            results.instrumented.rates@ == Seq::<u64>::empty(),
            results.instrumented.elapsed_total_ns == 0,
            results.latencies@ == Seq::<u64>::empty(),
    {
        SustainedResults {
            whole: RateSeries::new(),
            instrumented: RateSeries::new(),
            latencies: Vec::new(),
        }
    }

    /// What a run makes of the results. The times of its requests count if each was
    /// timed.
    pub open spec fn grown(
        self,
        after: SustainedResults,
        instrumented: bool,
        bytes: u64,
        elapsed_ns: u64,
        latencies: Seq<u64>,
    ) -> bool {
        if instrumented {
            &&& after.whole == self.whole
            &&& self.instrumented.grown(after.instrumented, bytes, elapsed_ns)
            &&& after.latencies@ == self.latencies@ + latencies
        } else {
            &&& after.instrumented == self.instrumented
            &&& self.whole.grown(after.whole, bytes, elapsed_ns)
            &&& after.latencies@ == self.latencies@
        }
    }

    /// Takes a run. The times of its requests count if each was timed.
    pub fn add(&mut self, instrumented: bool, bytes: u64, elapsed_ns: u64, latencies: &[u64]) -> (
        throughput: u64)
        ensures
            throughput == throughput_mib_s_milli(bytes, elapsed_ns),
            old(self).grown(*final(self), instrumented, bytes, elapsed_ns, latencies@),
    {
        if instrumented {
            self.latencies.extend_from_slice(latencies);
            assert(self.latencies@ =~= old(self).latencies@ + latencies@);
            self.instrumented.add(bytes, elapsed_ns)
        } else {
            self.whole.add(bytes, elapsed_ns)
        }
    }

    /// The summary says what the runs amount to, of which each moved so many bytes.
    /// Every request that was timed is in exactly one of the four groups.
    pub open spec fn summed_up(self, bytes: u64, summary: SustainedSummary) -> bool {
        &&& summary.whole_mib_s_milli == throughput_mib_s_milli(
            (bytes * self.whole.rates@.len()) as u64,
            self.whole.elapsed_total_ns,
            )
        &&& summary.instrumented_mib_s_milli == throughput_mib_s_milli(
            (bytes * self.whole.rates@.len()) as u64,
            self.instrumented.elapsed_total_ns,
            )
        &&& summary.instrumentation_ratio_permille == retention_permille(
            summary.instrumented_mib_s_milli,
            summary.whole_mib_s_milli,
            )
        &&& sums_up(summary.latency, self.latencies@)
        &&& summary.below_500us == below(self.latencies@, 500_000)
        &&& summary.from_500us_to_1ms == below(self.latencies@, 1_000_000) - below(
            self.latencies@,
            500_000,
            )
        &&& summary.from_1ms_to_3ms == below(self.latencies@, 3_000_000) - below(
            self.latencies@,
            1_000_000,
            )
        &&& summary.from_3ms == self.latencies@.len() - below(self.latencies@, 3_000_000)
        &&& summary.below_500us + summary.from_500us_to_1ms + summary.from_1ms_to_3ms
            + summary.from_3ms == self.latencies@.len()
    }

    /// Sums up the runs, of which each moved so many bytes. Both kinds are
    /// compared over the same number of runs.
    pub fn summary(&self, bytes: u64) -> (summary: SustainedSummary)
        requires
            bytes * self.whole.rates@.len() <= u64::MAX,
            self.whole.rates@.len() == self.instrumented.rates@.len(),
            countable(self.latencies@.len()),
        ensures
            self.summed_up(bytes, summary),
    {
        let whole: u64 = self.whole.aggregate(bytes);
        let instrumented: u64 = self.instrumented.aggregate(bytes);
        let first: usize = count_below(&self.latencies, 500_000);
        let second: usize = count_below(&self.latencies, 1_000_000);
        let third: usize = count_below(&self.latencies, 3_000_000);
        proof {
            law_higher_threshold_counts_more(self.latencies@, 500_000, 1_000_000);
            law_higher_threshold_counts_more(self.latencies@, 1_000_000, 3_000_000);
        }
        SustainedSummary {
            whole_mib_s_milli: whole,
            instrumented_mib_s_milli: instrumented,
            instrumentation_ratio_permille: retention_permille(instrumented, whole),
            latency: latency_report(&self.latencies),
            below_500us: first,
            from_500us_to_1ms: second - first,
            from_1ms_to_3ms: third - second,
            from_3ms: self.latencies.len() - third,
        }
    }
}

} // verus!
