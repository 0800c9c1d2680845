//! What rounds of reads add up to.

use crate::bench::read::{ComputeMode, ComputeResult, IoMode, ReadWorkload, RoundEnd};
use crate::bench::stats::{
    describes, latency_report, mean, mean_of, rate_per_second_milli, retention_permille,
    scalar_stats, square_sum, sums_up, throughput_mib_s_milli, LatencyStats, ScalarStats,
};
use crate::bench::wake::AsyncObservation;
use vstd::prelude::*;

verus! {

/// Rounds of every case.
pub const TEST_ROUNDS: usize = 5;

/// One request of so many is timed in a case.
pub const MATRIX_LATENCY_SAMPLE_STRIDE: usize = 16;

/// The measurements of one round.
#[derive(Debug)]
pub struct IoMeasurements {
    /// Times of the timed requests.
    pub request_latencies_ns: Vec<u64>,
    /// Times from the interrupt to the end of the wait.
    pub irq_entry_latencies_ns: Vec<u64>,
    /// Times from the notification to the end of the wait.
    pub irq_notify_latencies_ns: Vec<u64>,
    /// Asynchronous requests that an interrupt ended.
    pub irq_completions: usize,
    /// Asynchronous requests that were over before the wait.
    pub fast_path_completions: usize,
    /// Asynchronous requests that a deadline ended.
    pub deadline_fallbacks: usize,
}

/// A sequence with one more sample, where there is one.
pub open spec fn with_sample(values: Seq<u64>, sample: Option<u64>) -> Seq<u64> {
    match sample {
        Some(value) => values.push(value),
        None => values,
    }
}

/// A time that counts: one of 0 is missing.
pub open spec fn present(time: u64) -> Option<u64> {
    if time != 0 {
        Some(time)
    } else {
        None
    }
}

impl IoMeasurements {
    /// Nothing is measured yet.
    pub fn new() -> (empty: IoMeasurements)
        ensures
            empty.request_latencies_ns@ == Seq::<u64>::empty(),
            empty.irq_entry_latencies_ns@ == Seq::<u64>::empty(),
            empty.irq_notify_latencies_ns@ == Seq::<u64>::empty(),
            empty.observed() == 0,
    {
        IoMeasurements {
            request_latencies_ns: Vec::new(),
            irq_entry_latencies_ns: Vec::new(),
            irq_notify_latencies_ns: Vec::new(),
            irq_completions: 0,
            fast_path_completions: 0,
            deadline_fallbacks: 0,
        }
    }

    /// Asynchronous requests that were counted.
    pub open spec fn observed(self) -> int {
        self.irq_completions + self.fast_path_completions + self.deadline_fallbacks
    }

    /// Tells whether another request can be counted.
    pub fn has_room(&self) -> (room: bool)
        ensures
            room == (self.observed() < usize::MAX),
    {
        self.irq_completions < usize::MAX && self.fast_path_completions < usize::MAX
            - self.irq_completions && self.deadline_fallbacks < usize::MAX - self.irq_completions
            - self.fast_path_completions
    }

    /// Takes a request. Its time counts if it was measured; what was seen of an
    /// asynchronous one is counted under exactly one of three heads.
    pub fn record(&mut self, latency_ns: Option<u64>, observation: Option<AsyncObservation>)
        requires
            old(self).observed() < usize::MAX,
        ensures
            final(self).request_latencies_ns@ == with_sample(
                old(self).request_latencies_ns@,
                latency_ns,
            ),
            final(self).irq_entry_latencies_ns@ == with_sample(
                old(self).irq_entry_latencies_ns@,
                match (latency_ns, observation) {
                    (Some(_), Some(seen)) => present(seen.entry_to_resume_ns),
                    _ => None,
                },
            ),
            final(self).irq_notify_latencies_ns@ == with_sample(
                old(self).irq_notify_latencies_ns@,
                match (latency_ns, observation) {
                    (Some(_), Some(seen)) => present(seen.notify_to_resume_ns),
                    _ => None,
                },
            ),
            final(self).deadline_fallbacks == old(self).deadline_fallbacks + (match observation {
                Some(seen) if seen.deadline_fallback => 1int,
                _ => 0int,
            }),
            final(self).fast_path_completions == old(self).fast_path_completions + (
            match observation {
                Some(seen) if !seen.deadline_fallback && seen.irq_events == 0 => 1int,
                _ => 0int,
            }),
            final(self).irq_completions == old(self).irq_completions + (match observation {
                Some(seen) if !seen.deadline_fallback && seen.irq_events != 0 => 1int,
                _ => 0int,
            }),
            final(self).observed() == old(self).observed() + (if observation is Some {
                1int
            } else {
                0int
            }),
    {
        if let Some(latency) = latency_ns {
            self.request_latencies_ns.push(latency);
            if let Some(seen) = observation {
                if seen.entry_to_resume_ns != 0 {
                    self.irq_entry_latencies_ns.push(seen.entry_to_resume_ns);
                }
                if seen.notify_to_resume_ns != 0 {
                    self.irq_notify_latencies_ns.push(seen.notify_to_resume_ns);
                }
            }
        }
        if let Some(seen) = observation {
            if seen.deadline_fallback {
                self.deadline_fallbacks = self.deadline_fallbacks + 1;
            } else if seen.irq_events == 0 {
                self.fast_path_completions = self.fast_path_completions + 1;
            } else {
                self.irq_completions = self.irq_completions + 1;
            }
        }
    }
}

/// The cases of a workload.
#[derive(Clone, Copy, Debug, PartialEq, Eq, Structural)]
pub struct Case {
    /// How requests are waited for.
    pub io_mode: IoMode,
    /// What runs beside them.
    pub compute_mode: Option<ComputeMode>,
}

impl Case {
    /// Name for reports.
    pub fn name(self) -> (name: &'static str)
        ensures
            name@ == (match (self.io_mode, self.compute_mode) {
                (IoMode::Sync, None) => "sync_only"@,
                (IoMode::Async, None) => "async_only"@,
                (IoMode::Sync, Some(ComputeMode::NoYield)) => "sync_compute_no_yield"@,
                (IoMode::Async, Some(ComputeMode::NoYield)) => "async_compute_no_yield"@,
                (IoMode::Sync, Some(ComputeMode::YieldPerUnit)) => "sync_compute_yield"@,
                (IoMode::Async, Some(ComputeMode::YieldPerUnit)) => "async_compute_yield"@,
            }),
    {
        match (self.io_mode, self.compute_mode) {
            (IoMode::Sync, None) => "sync_only",
            (IoMode::Async, None) => "async_only",
            (IoMode::Sync, Some(ComputeMode::NoYield)) => "sync_compute_no_yield",
            (IoMode::Async, Some(ComputeMode::NoYield)) => "async_compute_no_yield",
            (IoMode::Sync, Some(ComputeMode::YieldPerUnit)) => "sync_compute_yield",
            (IoMode::Async, Some(ComputeMode::YieldPerUnit)) => "async_compute_yield",
        }
    }
}

/// The work of computations that ran alone.
#[derive(Debug)]
pub struct Baselines {
    /// Those that never yielded.
    pub no_yield: Vec<u64>,
    /// Those that yielded.
    pub yielding: Vec<u64>,
}

impl Baselines {
    /// There is none.
    pub open spec fn is_blank(self) -> bool {
        self.no_yield@ == Seq::<u64>::empty() && self.yielding@ == Seq::<u64>::empty()
    }

    /// None yet.
    pub fn new() -> (empty: Baselines)
        ensures
            empty.is_blank(),
    {
        Baselines { no_yield: Vec::new(), yielding: Vec::new() }
    }

    /// Mean work of a computation that runs alone; 0 without one.
    pub open spec fn of(self, mode: Option<ComputeMode>) -> int {
        match mode {
            None => 0,
            Some(ComputeMode::NoYield) => mean_of(self.no_yield@),
            Some(ComputeMode::YieldPerUnit) => mean_of(self.yielding@),
        }
    }

    /// Computes the mean work of a computation that runs alone.
    pub fn work(&self, mode: Option<ComputeMode>) -> (work: u64)
        ensures
            work == self.of(mode),
    {
        match mode {
            None => 0,
            Some(ComputeMode::NoYield) => mean(&self.no_yield),
            Some(ComputeMode::YieldPerUnit) => mean(&self.yielding),
        }
    }

    /// Takes the work of a computation that ran alone.
    pub fn take(&mut self, mode: ComputeMode, work_per_s_milli: u64)
        ensures
            final(self).no_yield@ == (match mode {
                ComputeMode::NoYield => old(self).no_yield@.push(work_per_s_milli),
                ComputeMode::YieldPerUnit => old(self).no_yield@,
            }),
            final(self).yielding@ == (match mode {
                ComputeMode::NoYield => old(self).yielding@,
                ComputeMode::YieldPerUnit => old(self).yielding@.push(work_per_s_milli),
            }),
    {
        match mode {
            ComputeMode::NoYield => {
                self.no_yield.push(work_per_s_milli);
            },
            ComputeMode::YieldPerUnit => {
                self.yielding.push(work_per_s_milli);
            },
        }
    }
}

/// The results of a case over all rounds.
#[derive(Debug)]
pub struct CaseAggregate {
    /// Throughput of each round, in thousandths of MiB per second.
    pub throughput_mib_s_milli: Vec<u64>,
    /// Work of each round, in thousandths of units per second.
    pub work_per_s_milli: Vec<u64>,
    /// Times of the timed requests.
    pub request_latencies_ns: Vec<u64>,
    /// Times from the interrupt to the end of the wait.
    pub irq_entry_latencies_ns: Vec<u64>,
    /// Times from the notification to the end of the wait.
    pub irq_notify_latencies_ns: Vec<u64>,
    /// Asynchronous requests that an interrupt ended.
    pub irq_completions: usize,
    /// Asynchronous requests that were over before the wait.
    pub fast_path_completions: usize,
    /// Asynchronous requests that a deadline ended.
    pub deadline_fallbacks: usize,
    /// Computations that ran until their deadline.
    pub compute_window_completions: usize,
}

/// The results of one round of a case.
#[derive(Clone, Copy, Debug, PartialEq, Eq, Structural)]
pub struct CaseReport {
    /// Thousandths of MiB per second.
    pub throughput_mib_s_milli: u64,
    /// Thousandths of requests per second.
    pub request_iops_milli: u64,
    /// Thousandths of units of work per second.
    pub work_per_s_milli: u64,
    /// That work in thousandths of the work without reads.
    pub baseline_retained_permille: u64,
    /// Times of requests.
    pub request: LatencyStats,
    /// Times from the interrupt to the end of the wait.
    pub entry: LatencyStats,
    /// Times from the notification to the end of the wait.
    pub notify: LatencyStats,
}

/// The results of a case.
#[derive(Clone, Copy, Debug, PartialEq, Eq, Structural)]
pub struct CaseSummary {
    /// Throughput of the rounds.
    pub throughput: ScalarStats,
    /// Work of the rounds.
    pub work: ScalarStats,
    /// Mean work in thousandths of the work without reads.
    pub baseline_retained_permille: u64,
    /// Requests that were timed.
    pub request_samples: usize,
    /// Times of requests.
    pub request: LatencyStats,
    /// Requests whose interrupt was timed.
    pub irq_samples: usize,
    /// Times from the interrupt to the end of the wait.
    pub entry: LatencyStats,
    /// Times from the notification to the end of the wait.
    pub notify: LatencyStats,
    /// Computations that ran until their deadline.
    pub compute_window_completions: usize,
    /// Asynchronous requests that an interrupt ended.
    pub irq_completions: usize,
    /// Asynchronous requests that were over before the wait.
    pub fast_path_completions: usize,
    /// Asynchronous requests that a deadline ended.
    pub deadline_fallbacks: usize,
}

/// Work of a computation; none where there is none.
pub open spec fn work_of(compute: Option<ComputeResult>) -> u64 {
    match compute {
        Some(result) => result.work_per_s_milli,
        None => 0,
    }
}

/// Statistics of so many samples can be computed.
pub open spec fn countable(samples: nat) -> bool {
    samples * 99 <= usize::MAX
}

/// Tells whether statistics of these samples can be computed.
pub fn is_countable(values: &[u64]) -> (fits: bool)
    ensures
        fits == countable(values@.len()),
{
    values.len() <= usize::MAX / 99
}

impl CaseAggregate {
    /// There is no round.
    pub open spec fn is_blank(self) -> bool {
        &&& self.throughput_mib_s_milli@ == Seq::<u64>::empty()
        &&& self.work_per_s_milli@ == Seq::<u64>::empty()
        &&& self.request_latencies_ns@ == Seq::<u64>::empty()
        &&& self.irq_entry_latencies_ns@ == Seq::<u64>::empty()
        &&& self.irq_notify_latencies_ns@ == Seq::<u64>::empty()
        &&& self.irq_completions == 0 && self.fast_path_completions == 0
        &&& self.deadline_fallbacks == 0 && self.compute_window_completions == 0
    }

    /// No round yet.
    pub fn new() -> (empty: CaseAggregate)
        ensures
            empty.is_blank(),
    {
        CaseAggregate {
            throughput_mib_s_milli: Vec::new(),
            work_per_s_milli: Vec::new(),
            request_latencies_ns: Vec::new(),
            irq_entry_latencies_ns: Vec::new(),
            irq_notify_latencies_ns: Vec::new(),
            irq_completions: 0,
            fast_path_completions: 0,
            deadline_fallbacks: 0,
            compute_window_completions: 0,
        }
    }

    /// The counts of another round still fit.
    pub open spec fn has_room(self, measurements: IoMeasurements) -> bool {
        &&& self.irq_completions + measurements.irq_completions <= usize::MAX
        &&& self.fast_path_completions + measurements.fast_path_completions <= usize::MAX
        &&& self.deadline_fallbacks + measurements.deadline_fallbacks <= usize::MAX
        &&& self.compute_window_completions < usize::MAX
    }

    /// What a round makes of these results, and its report.
    pub open spec fn grown(
        self,
        after: CaseAggregate,
        workload: ReadWorkload,
        end: RoundEnd,
        measurements: IoMeasurements,
        baseline_work_per_s_milli: u64,
        report: CaseReport,
    ) -> bool {
        &&& report.throughput_mib_s_milli == throughput_mib_s_milli(
            workload.total_bytes() as u64,
            end.elapsed_ns,
        )
        &&& report.request_iops_milli == rate_per_second_milli(
            workload.request_count() as u64,
            end.elapsed_ns,
        )
        &&& report.work_per_s_milli == work_of(end.compute)
        &&& report.baseline_retained_permille == retention_permille(
            work_of(end.compute),
            baseline_work_per_s_milli,
        )
        &&& sums_up(report.request, measurements.request_latencies_ns@)
        &&& sums_up(report.entry, measurements.irq_entry_latencies_ns@)
        &&& sums_up(report.notify, measurements.irq_notify_latencies_ns@)
        &&& after.throughput_mib_s_milli@ == self.throughput_mib_s_milli@.push(
            report.throughput_mib_s_milli,
        )
        &&& after.work_per_s_milli@ == self.work_per_s_milli@.push(
            report.work_per_s_milli,
        )
        &&& after.request_latencies_ns@ == self.request_latencies_ns@
            + measurements.request_latencies_ns@
        &&& after.irq_entry_latencies_ns@ == self.irq_entry_latencies_ns@
            + measurements.irq_entry_latencies_ns@
        &&& after.irq_notify_latencies_ns@ == self.irq_notify_latencies_ns@
            + measurements.irq_notify_latencies_ns@
        &&& after.irq_completions == self.irq_completions
            + measurements.irq_completions
        &&& after.fast_path_completions == self.fast_path_completions
            + measurements.fast_path_completions
        &&& after.deadline_fallbacks == self.deadline_fallbacks
            + measurements.deadline_fallbacks
        &&& after.compute_window_completions == self.compute_window_completions + (
        match end.compute {
            Some(result) if result.window_completed => 1int,
            _ => 0int,
        })
    }

    /// Takes a round and reports it.
    pub fn add(
        &mut self,
        workload: ReadWorkload,
        end: RoundEnd,
        measurements: &IoMeasurements,
        baseline_work_per_s_milli: u64,
    ) -> (report: CaseReport)
        requires
            old(self).has_room(*measurements),
            countable(measurements.request_latencies_ns@.len()),
            countable(measurements.irq_entry_latencies_ns@.len()),
            countable(measurements.irq_notify_latencies_ns@.len()),
        ensures
            old(self).grown(
                *final(self),
                workload,
                end,
                *measurements,
                baseline_work_per_s_milli,
                report,
            ),
    {
        let throughput: u64 = throughput_mib_s_milli(
            workload.total_bytes() as u64,
            end.elapsed_ns,
        );
        let work: u64 = match end.compute {
            Some(result) => result.work_per_s_milli,
            None => 0,
        };
        let report = CaseReport {
            throughput_mib_s_milli: throughput,
            request_iops_milli: rate_per_second_milli(
                workload.request_count() as u64,
                end.elapsed_ns,
            ),
            work_per_s_milli: work,
            baseline_retained_permille: retention_permille(work, baseline_work_per_s_milli),
            request: latency_report(&measurements.request_latencies_ns),
            entry: latency_report(&measurements.irq_entry_latencies_ns),
            notify: latency_report(&measurements.irq_notify_latencies_ns),
        };
        self.throughput_mib_s_milli.push(throughput);
        self.work_per_s_milli.push(work);
        self.request_latencies_ns.extend_from_slice(&measurements.request_latencies_ns);
        self.irq_entry_latencies_ns.extend_from_slice(&measurements.irq_entry_latencies_ns);
        self.irq_notify_latencies_ns.extend_from_slice(&measurements.irq_notify_latencies_ns);
        self.irq_completions = self.irq_completions + measurements.irq_completions;
        self.fast_path_completions = self.fast_path_completions
            + measurements.fast_path_completions;
        self.deadline_fallbacks = self.deadline_fallbacks + measurements.deadline_fallbacks;
        if let Some(result) = end.compute {
            if result.window_completed {
                self.compute_window_completions = self.compute_window_completions + 1;
            }
        }
        assert(self.request_latencies_ns@ =~= old(self).request_latencies_ns@
            + measurements.request_latencies_ns@);
        assert(self.irq_entry_latencies_ns@ =~= old(self).irq_entry_latencies_ns@
            + measurements.irq_entry_latencies_ns@);
        assert(self.irq_notify_latencies_ns@ =~= old(self).irq_notify_latencies_ns@
            + measurements.irq_notify_latencies_ns@);
        report
    }

    /// The summary says what the rounds amount to.
    pub open spec fn summed_up(
        self,
        baseline_work_per_s_milli: u64,
        summary: CaseSummary,
    ) -> bool {
        &&& describes(summary.throughput, self.throughput_mib_s_milli@)
        &&& describes(summary.work, self.work_per_s_milli@)
        &&& summary.baseline_retained_permille == retention_permille(
            summary.work.mean,
            baseline_work_per_s_milli,
        )
        &&& summary.request_samples == self.request_latencies_ns@.len()
        &&& sums_up(summary.request, self.request_latencies_ns@)
        &&& summary.irq_samples == self.irq_entry_latencies_ns@.len()
        &&& sums_up(summary.entry, self.irq_entry_latencies_ns@)
        &&& sums_up(summary.notify, self.irq_notify_latencies_ns@)
        &&& summary.compute_window_completions == self.compute_window_completions
        &&& summary.irq_completions == self.irq_completions
        &&& summary.fast_path_completions == self.fast_path_completions
        &&& summary.deadline_fallbacks == self.deadline_fallbacks
    }

    /// Reports all rounds.
    pub fn report_summary(&self, baseline_work_per_s_milli: u64) -> (summary: CaseSummary)
        requires
            square_sum(
                self.throughput_mib_s_milli@,
                mean_of(self.throughput_mib_s_milli@),
            ) <= u128::MAX,
            square_sum(self.work_per_s_milli@, mean_of(self.work_per_s_milli@)) <= u128::MAX,
            countable(self.request_latencies_ns@.len()),
            countable(self.irq_entry_latencies_ns@.len()),
            countable(self.irq_notify_latencies_ns@.len()),
        ensures
            self.summed_up(baseline_work_per_s_milli, summary),
    {
        let work = scalar_stats(&self.work_per_s_milli);
        CaseSummary {
            throughput: scalar_stats(&self.throughput_mib_s_milli),
            work,
            baseline_retained_permille: retention_permille(work.mean, baseline_work_per_s_milli),
            request_samples: self.request_latencies_ns.len(),
            request: latency_report(&self.request_latencies_ns),
            irq_samples: self.irq_entry_latencies_ns.len(),
            entry: latency_report(&self.irq_entry_latencies_ns),
            notify: latency_report(&self.irq_notify_latencies_ns),
            compute_window_completions: self.compute_window_completions,
            irq_completions: self.irq_completions,
            fast_path_completions: self.fast_path_completions,
            deadline_fallbacks: self.deadline_fallbacks,
        }
    }
}

} // verus!
