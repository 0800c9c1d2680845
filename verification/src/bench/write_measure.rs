//! What rounds of writes add up to.

use crate::bench::measure::{countable, is_countable, work_of};
use crate::bench::read::{ComputeResult, IoMode};
use crate::bench::stats::{
    average_milli, low64, mean, mean_of, percentile, percentile_index, retention_permille, sort,
    sorted, sum, sum_u64,
};
use crate::bench::write_seen::{RequestObservation, WriteFault};
use vstd::prelude::*;

verus! {

/// Statistics of samples.
#[derive(Clone, Copy, Debug, PartialEq, Eq, Structural)]
pub struct Stats {
    /// Mean, rounded down.
    pub mean: u64,
    /// Smallest.
    pub min: u64,
    /// Largest.
    pub max: u64,
    /// 95th percentile.
    pub p95: u64,
    /// 99th percentile.
    pub p99: u64,
}

/// Statistics of sorted samples; zeros without samples.
pub open spec fn stats_of(ordered: Seq<u64>) -> Stats {
    let n = ordered.len() as int;
    if n == 0 {
        Stats { mean: 0, min: 0, max: 0, p95: 0, p99: 0 }
    } else {
        Stats {
            mean: mean_of(ordered) as u64,
            min: ordered[0],
            max: ordered[n - 1],
            p95: ordered[percentile_index(n, 95)],
            p99: ordered[percentile_index(n, 99)],
        }
    }
}

/// The statistics are those of the samples, in whatever order they are given.
pub open spec fn portrays(stats: Stats, values: Seq<u64>) -> bool {
    exists|ordered: Seq<u64>|
        #![trigger sorted(ordered)]
        sorted(ordered) && ordered.to_multiset() == values.to_multiset() && stats == stats_of(
            ordered,
        )
}

/// Computes the statistics of samples.
pub fn stats(values: &[u64]) -> (result: Stats)
    requires
        countable(values@.len()),
    ensures
        portrays(result, values@),
{
    let ordered = sort(values);
    assert(sorted(ordered@));
    if ordered.len() == 0 {
        return Stats { mean: 0, min: 0, max: 0, p95: 0, p99: 0 };
    }
    Stats {
        mean: mean(&ordered),
        min: ordered[0],
        max: ordered[ordered.len() - 1],
        p95: percentile(&ordered, 95),
        p99: percentile(&ordered, 99),
    }
}

/// Thousandths of MiB per second; 0 for no time.
pub open spec fn write_throughput_of(bytes: u64, elapsed_ns: u64) -> u64 {
    if elapsed_ns == 0 {
        0
    } else {
        low64(bytes * 1_000_000_000_000int / (elapsed_ns * 1_048_576))
    }
}

/// Computes thousandths of MiB per second.
#[verifier::when_used_as_spec(write_throughput_of)]
pub fn write_throughput_mib_s_milli(bytes: u64, elapsed_ns: u64) -> (throughput: u64)
    ensures
        throughput == write_throughput_of(bytes, elapsed_ns),
{
    if elapsed_ns == 0 {
        0
    } else {
        (bytes as u128 * 1_000_000_000_000 / (elapsed_ns as u128 * 1_048_576)
            % 0x1_0000_0000_0000_0000) as u64
    }
}

/// Thousandths of units per second; 0 for no time.
pub open spec fn write_rate_of(units: u64, elapsed_ns: u64) -> u64 {
    if elapsed_ns == 0 {
        0
    } else {
        low64(units * 1_000_000_000_000int / elapsed_ns as int)
    }
}

/// The result of a computation beside writes that ran from one time to another.
pub fn write_compute_result(
    started_ns: u64,
    finished_ns: u64,
    units: u64,
    digest: u64,
    window_completed: bool,
) -> (result: ComputeResult)
    ensures
        result == (ComputeResult {
            elapsed_ns: finished_ns.saturating_sub(started_ns),
            units,
            digest,
            work_per_s_milli: write_rate_of(units, finished_ns.saturating_sub(started_ns)),
            window_completed,
        }),
{
    let elapsed_ns: u64 = finished_ns.saturating_sub(started_ns);
    let work_per_s_milli: u64 = if elapsed_ns == 0 {
        0
    } else {
        (units as u128 * 1_000_000_000_000 / elapsed_ns as u128 % 0x1_0000_0000_0000_0000) as u64
    };
    ComputeResult { elapsed_ns, units, digest, work_per_s_milli, window_completed }
}

/// The measurements of write requests. A request that ran into its deadline does
/// not count, so none of them is among these.
#[derive(Debug)]
pub struct WriteMeasurements {
    /// Times of the calls.
    pub request_latencies_ns: Vec<u64>,
    /// Times from the call to the transfer.
    pub api_to_transfer_ns: Vec<u64>,
    /// Times of the transfers, up to the interrupt where there is one.
    pub dma_transfer_ns: Vec<u64>,
    /// Times from the end of the transfer's wait to the wait for the card.
    pub wait_end_to_busy_ns: Vec<u64>,
    /// Times of the waits for the card.
    pub busy_ns: Vec<u64>,
    /// Times from the interrupt to the end of the wait.
    pub irq_to_resume_ns: Vec<u64>,
    /// Inquiries of all waits for the card.
    pub busy_attempts_total: u64,
    /// Inquiries of the longest one.
    pub busy_attempts_max: usize,
    /// Requests that an interrupt ended.
    pub irq_completions: usize,
    /// Interrupts of all requests.
    pub irq_events: usize,
    /// Raw status of all requests.
    pub rintsts_or: u32,
    /// DMA status of all requests.
    pub idsts_or: u32,
    /// Status words of the card of all requests.
    pub busy_r1_or: u32,
}

/// Time at which the hardware was done with a transfer.
pub open spec fn hardware_end(seen: RequestObservation, mode: IoMode) -> u64 {
    match mode {
        IoMode::Async => seen.irq_entry_ns,
        IoMode::Sync => seen.dma_terminal_ns,
    }
}

/// Time at which the wait for a transfer was over.
pub open spec fn wait_end(seen: RequestObservation, mode: IoMode) -> u64 {
    match mode {
        IoMode::Async => seen.dma_resume_ns,
        IoMode::Sync => seen.dma_terminal_ns,
    }
}

/// The parts of a write that counts follow each other within the call.
pub proof fn law_parts_fit_the_call(seen: RequestObservation, mode: IoMode)
    requires
        seen.fault(mode) is None,
    ensures
        seen.api_start_ns <= seen.transfer_start_ns <= hardware_end(seen, mode) <= wait_end(
            seen,
            mode,
        ) <= seen.busy_start_ns <= seen.busy_end_ns <= seen.api_end_ns,
{
}

impl WriteMeasurements {
    /// Nothing is measured yet.
    pub open spec fn is_blank(self) -> bool {
        &&& self.request_latencies_ns@ == Seq::<u64>::empty()
        &&& self.api_to_transfer_ns@ == Seq::<u64>::empty()
        &&& self.dma_transfer_ns@ == Seq::<u64>::empty()
        &&& self.wait_end_to_busy_ns@ == Seq::<u64>::empty()
        &&& self.busy_ns@ == Seq::<u64>::empty()
        &&& self.irq_to_resume_ns@ == Seq::<u64>::empty()
        &&& self.busy_attempts_total == 0
        &&& self.busy_attempts_max == 0
        &&& self.irq_completions == 0
        &&& self.irq_events == 0
        &&& self.rintsts_or == 0
        &&& self.idsts_or == 0
        &&& self.busy_r1_or == 0
    }

    /// These are the measurements of two runs, one after the other.
    pub open spec fn joins(self, first: WriteMeasurements, second: WriteMeasurements) -> bool {
        &&& self.request_latencies_ns@ == first.request_latencies_ns@ + second.request_latencies_ns@
        &&& self.api_to_transfer_ns@ == first.api_to_transfer_ns@ + second.api_to_transfer_ns@
        &&& self.dma_transfer_ns@ == first.dma_transfer_ns@ + second.dma_transfer_ns@
        &&& self.wait_end_to_busy_ns@ == first.wait_end_to_busy_ns@ + second.wait_end_to_busy_ns@
        &&& self.busy_ns@ == first.busy_ns@ + second.busy_ns@
        &&& self.irq_to_resume_ns@ == first.irq_to_resume_ns@ + second.irq_to_resume_ns@
        &&& self.busy_attempts_total == first.busy_attempts_total.saturating_add(
            second.busy_attempts_total,
        )
        &&& self.busy_attempts_max == (if second.busy_attempts_max > first.busy_attempts_max {
            second.busy_attempts_max
        } else {
            first.busy_attempts_max
        })
        &&& self.irq_completions == first.irq_completions + second.irq_completions
        &&& self.irq_events == first.irq_events + second.irq_events
        &&& self.rintsts_or == first.rintsts_or | second.rintsts_or
        &&& self.idsts_or == first.idsts_or | second.idsts_or
        &&& self.busy_r1_or == first.busy_r1_or | second.busy_r1_or
    }

    /// Nothing is measured yet.
    pub fn new() -> (empty: WriteMeasurements)
        ensures
            empty.is_blank(),
    {
        WriteMeasurements {
            request_latencies_ns: Vec::new(),
            api_to_transfer_ns: Vec::new(),
            dma_transfer_ns: Vec::new(),
            wait_end_to_busy_ns: Vec::new(),
            busy_ns: Vec::new(),
            irq_to_resume_ns: Vec::new(),
            busy_attempts_total: 0,
            busy_attempts_max: 0,
            irq_completions: 0,
            irq_events: 0,
            rintsts_or: 0,
            idsts_or: 0,
            busy_r1_or: 0,
        }
    }

    /// Takes a request, if it counts; else nothing changes.
    pub fn add(&mut self, mode: IoMode, seen: RequestObservation) -> (result: Result<
        (),
        WriteFault,
    >)
        requires
            old(self).irq_completions < usize::MAX,
            old(self).irq_events + seen.irq_events <= usize::MAX,
        ensures
            match (result, seen.fault(mode)) {
                (Err(fault), Some(expected)) => fault == expected && *final(self) == *old(self),
                (Ok(_), None) => true,
                _ => false,
            },
            result is Ok ==> {
                &&& final(self).request_latencies_ns@ == old(self).request_latencies_ns@.push(
                    (seen.api_end_ns - seen.api_start_ns) as u64,
                )
                &&& final(self).api_to_transfer_ns@ == old(self).api_to_transfer_ns@.push(
                    (seen.transfer_start_ns - seen.api_start_ns) as u64,
                )
                &&& final(self).dma_transfer_ns@ == old(self).dma_transfer_ns@.push(
                    (hardware_end(seen, mode) - seen.transfer_start_ns) as u64,
                )
                &&& final(self).wait_end_to_busy_ns@ == old(self).wait_end_to_busy_ns@.push(
                    (seen.busy_start_ns - wait_end(seen, mode)) as u64,
                )
                &&& final(self).busy_ns@ == old(self).busy_ns@.push(
                    (seen.busy_end_ns - seen.busy_start_ns) as u64,
                )
                &&& final(self).irq_to_resume_ns@ == (match mode {
                    IoMode::Async => old(self).irq_to_resume_ns@.push(
                        (seen.dma_resume_ns - seen.irq_entry_ns) as u64,
                    ),
                    IoMode::Sync => old(self).irq_to_resume_ns@,
                })
                &&& final(self).irq_completions == old(self).irq_completions + (match mode {
                    IoMode::Async => 1int,
                    IoMode::Sync => 0int,
                })
                &&& final(self).irq_events == old(self).irq_events + (match mode {
                    IoMode::Async => seen.irq_events as int,
                    IoMode::Sync => 0int,
                })
                &&& final(self).busy_attempts_total == old(
                    self,
                ).busy_attempts_total.saturating_add(seen.busy_attempts as u64)
                &&& final(self).busy_attempts_max == (if seen.busy_attempts > old(
                    self,
                ).busy_attempts_max {
                    seen.busy_attempts
                } else {
                    old(self).busy_attempts_max
                })
                &&& final(self).rintsts_or == old(self).rintsts_or | seen.irq_rintsts_bits
                    | seen.dma_terminal_rintsts_bits
                &&& final(self).idsts_or == old(self).idsts_or | seen.irq_idsts_bits
                    | seen.dma_terminal_idsts_bits
                &&& final(self).busy_r1_or == old(self).busy_r1_or | seen.busy_r1
            },
    {
        if let Some(fault) = seen.validate(mode) {
            return Err(fault);
        }
        proof {
            law_parts_fit_the_call(seen, mode);
        }
        let (done, awake): (u64, u64) = match mode {
            IoMode::Async => (seen.irq_entry_ns, seen.dma_resume_ns),
            IoMode::Sync => (seen.dma_terminal_ns, seen.dma_terminal_ns),
        };
        if let IoMode::Async = mode {
            self.irq_completions = self.irq_completions + 1;
            self.irq_events = self.irq_events + seen.irq_events;
            self.irq_to_resume_ns.push(seen.dma_resume_ns - seen.irq_entry_ns);
        }
        self.request_latencies_ns.push(seen.api_end_ns - seen.api_start_ns);
        self.api_to_transfer_ns.push(seen.transfer_start_ns - seen.api_start_ns);
        self.dma_transfer_ns.push(done - seen.transfer_start_ns);
        self.wait_end_to_busy_ns.push(seen.busy_start_ns - awake);
        self.busy_ns.push(seen.busy_end_ns - seen.busy_start_ns);
        self.busy_attempts_total = self.busy_attempts_total.saturating_add(
            seen.busy_attempts as u64,
        );
        if seen.busy_attempts > self.busy_attempts_max {
            self.busy_attempts_max = seen.busy_attempts;
        }
        self.rintsts_or = self.rintsts_or | seen.irq_rintsts_bits | seen.dma_terminal_rintsts_bits;
        self.idsts_or = self.idsts_or | seen.irq_idsts_bits | seen.dma_terminal_idsts_bits;
        self.busy_r1_or = self.busy_r1_or | seen.busy_r1;
        Ok(())
    }

    /// Takes the measurements of another round.
    pub fn append(&mut self, other: &WriteMeasurements)
        requires
            old(self).irq_completions + other.irq_completions <= usize::MAX,
            old(self).irq_events + other.irq_events <= usize::MAX,
        ensures
            final(self).joins(*old(self), *other),
    {
        self.request_latencies_ns.extend_from_slice(&other.request_latencies_ns);
        self.api_to_transfer_ns.extend_from_slice(&other.api_to_transfer_ns);
        self.dma_transfer_ns.extend_from_slice(&other.dma_transfer_ns);
        self.wait_end_to_busy_ns.extend_from_slice(&other.wait_end_to_busy_ns);
        self.busy_ns.extend_from_slice(&other.busy_ns);
        self.irq_to_resume_ns.extend_from_slice(&other.irq_to_resume_ns);
        self.busy_attempts_total = self.busy_attempts_total.saturating_add(
            other.busy_attempts_total,
        );
        if other.busy_attempts_max > self.busy_attempts_max {
            self.busy_attempts_max = other.busy_attempts_max;
        }
        self.irq_completions = self.irq_completions + other.irq_completions;
        self.irq_events = self.irq_events + other.irq_events;
        self.rintsts_or = self.rintsts_or | other.rintsts_or;
        self.idsts_or = self.idsts_or | other.idsts_or;
        self.busy_r1_or = self.busy_r1_or | other.busy_r1_or;
        assert(self.request_latencies_ns@ =~= old(self).request_latencies_ns@
            + other.request_latencies_ns@);
        assert(self.api_to_transfer_ns@ =~= old(self).api_to_transfer_ns@
            + other.api_to_transfer_ns@);
        assert(self.dma_transfer_ns@ =~= old(self).dma_transfer_ns@ + other.dma_transfer_ns@);
        assert(self.wait_end_to_busy_ns@ =~= old(self).wait_end_to_busy_ns@
            + other.wait_end_to_busy_ns@);
        assert(self.busy_ns@ =~= old(self).busy_ns@ + other.busy_ns@);
        assert(self.irq_to_resume_ns@ =~= old(self).irq_to_resume_ns@ + other.irq_to_resume_ns@);
    }

    /// Statistics of these measurements can be computed.
    pub open spec fn is_countable(self) -> bool {
        &&& countable(self.request_latencies_ns@.len())
        &&& countable(self.api_to_transfer_ns@.len())
        &&& countable(self.dma_transfer_ns@.len())
        &&& countable(self.wait_end_to_busy_ns@.len())
        &&& countable(self.busy_ns@.len())
        &&& countable(self.irq_to_resume_ns@.len())
    }

    /// Tells whether statistics of these measurements can be computed.
    pub fn fits(&self) -> (fits: bool)
        ensures
            fits == self.is_countable(),
    {
        is_countable(&self.request_latencies_ns) && is_countable(&self.api_to_transfer_ns)
            && is_countable(&self.dma_transfer_ns) && is_countable(&self.wait_end_to_busy_ns)
            && is_countable(&self.busy_ns) && is_countable(&self.irq_to_resume_ns)
    }

    /// Sums up the measurements.
    pub fn portrait(&self) -> (portrait: WritePortrait)
        requires
            self.is_countable(),
        ensures
            portrait.depicts(*self),
    {
        WritePortrait {
            request: stats(&self.request_latencies_ns),
            api_to_transfer: stats(&self.api_to_transfer_ns),
            dma: stats(&self.dma_transfer_ns),
            wait_end_to_busy: stats(&self.wait_end_to_busy_ns),
            busy: stats(&self.busy_ns),
            irq: stats(&self.irq_to_resume_ns),
            busy_share_permille: retention_permille(
                sum_u64(&self.busy_ns),
                sum_u64(&self.request_latencies_ns),
            ),
            busy_attempts_avg_milli: average_milli(
                self.busy_attempts_total,
                self.request_latencies_ns.len(),
            ),
            busy_attempts_max: self.busy_attempts_max,
            irq_completions: self.irq_completions,
            irq_events: self.irq_events,
            rintsts_or: self.rintsts_or,
            idsts_or: self.idsts_or,
            busy_r1_or: self.busy_r1_or,
        }
    }
}

/// A sum, at most the largest number of 64 bits.
pub open spec fn capped_sum(values: Seq<u64>) -> u64 {
    if sum(values) > u64::MAX {
        u64::MAX
    } else {
        sum(values) as u64
    }
}

/// The measurements of write requests, summed up.
#[derive(Clone, Copy, Debug, PartialEq, Eq, Structural)]
pub struct WritePortrait {
    /// Times of the calls.
    pub request: Stats,
    /// Times from the call to the transfer.
    pub api_to_transfer: Stats,
    /// Times of the transfers.
    pub dma: Stats,
    /// Times from the transfer to the wait for the card.
    pub wait_end_to_busy: Stats,
    /// Times of the waits for the card.
    pub busy: Stats,
    /// Times from the interrupt to the end of the wait.
    pub irq: Stats,
    /// Waits for the card in thousandths of the calls.
    pub busy_share_permille: u64,
    /// Mean number of inquiries, in thousandths.
    pub busy_attempts_avg_milli: u64,
    /// Inquiries of the longest wait for the card.
    pub busy_attempts_max: usize,
    /// Requests that an interrupt ended.
    pub irq_completions: usize,
    /// Interrupts of all requests.
    pub irq_events: usize,
    /// Raw status of all requests.
    pub rintsts_or: u32,
    /// DMA status of all requests.
    pub idsts_or: u32,
    /// Status words of the card of all requests.
    pub busy_r1_or: u32,
}

impl WritePortrait {
    /// It sums up the measurements.
    pub open spec fn depicts(self, measurements: WriteMeasurements) -> bool {
        &&& portrays(self.request, measurements.request_latencies_ns@)
        &&& portrays(self.api_to_transfer, measurements.api_to_transfer_ns@)
        &&& portrays(self.dma, measurements.dma_transfer_ns@)
        &&& portrays(self.wait_end_to_busy, measurements.wait_end_to_busy_ns@)
        &&& portrays(self.busy, measurements.busy_ns@)
        &&& portrays(self.irq, measurements.irq_to_resume_ns@)
        &&& self.busy_share_permille == retention_permille(
            capped_sum(measurements.busy_ns@),
            capped_sum(measurements.request_latencies_ns@),
        )
        &&& self.busy_attempts_avg_milli == average_milli(
            measurements.busy_attempts_total,
            measurements.request_latencies_ns@.len() as usize,
        )
        &&& self.busy_attempts_max == measurements.busy_attempts_max
        &&& self.irq_completions == measurements.irq_completions
        &&& self.irq_events == measurements.irq_events
        &&& self.rintsts_or == measurements.rintsts_or
        &&& self.idsts_or == measurements.idsts_or
        &&& self.busy_r1_or == measurements.busy_r1_or
    }
}

/// How a round of writes went.
#[derive(Clone, Copy, Debug, PartialEq, Eq, Structural)]
pub struct WriteRun {
    /// Time that the requests took.
    pub elapsed_ns: u64,
    /// Requests.
    pub requests: usize,
    /// Bytes written.
    pub bytes: u64,
    /// What the computation beside them achieved.
    pub compute: Option<ComputeResult>,
}

/// The results of a case over all rounds.
#[derive(Debug)]
pub struct WriteAggregate {
    /// Time of all rounds.
    pub elapsed_total_ns: u64,
    /// Requests of all rounds.
    pub requests_total: usize,
    /// Bytes of all rounds.
    pub bytes_total: u64,
    /// Throughput of each round.
    pub throughput_per_round: Vec<u64>,
    /// Work of each computation.
    pub compute_rates: Vec<u64>,
    /// Measurements of all rounds.
    pub measurements: WriteMeasurements,
}

/// The results of one round of a case.
#[derive(Clone, Copy, Debug, PartialEq, Eq, Structural)]
pub struct WriteReport {
    /// Thousandths of MiB per second.
    pub throughput_mib_s_milli: u64,
    /// Its measurements.
    pub portrait: WritePortrait,
    /// Thousandths of units of work per second.
    pub compute_work_per_s_milli: u64,
    /// That work in thousandths of the work without writes.
    pub compute_retention_permille: u64,
}

/// The results of a case.
#[derive(Clone, Copy, Debug, PartialEq, Eq, Structural)]
pub struct WriteSummary {
    /// Requests of all rounds.
    pub requests_total: usize,
    /// Bytes of all rounds.
    pub bytes_total: u64,
    /// Throughput of all rounds together.
    pub aggregate_mib_s_milli: u64,
    /// Throughput of the rounds.
    pub throughput: Stats,
    /// The measurements.
    pub portrait: WritePortrait,
    /// Work of the computations.
    pub compute: Stats,
    /// Mean work in thousandths of the work without writes.
    pub compute_retention_permille: u64,
}

impl WriteAggregate {
    /// There is no round.
    pub open spec fn is_blank(self) -> bool {
        &&& self.elapsed_total_ns == 0 && self.requests_total == 0 && self.bytes_total == 0
        &&& self.throughput_per_round@ == Seq::<u64>::empty()
        &&& self.compute_rates@ == Seq::<u64>::empty()
        &&& self.measurements.is_blank()
    }

    /// No round yet.
    pub fn new() -> (empty: WriteAggregate)
        ensures
            empty.is_blank(),
    {
        WriteAggregate {
            elapsed_total_ns: 0,
            requests_total: 0,
            bytes_total: 0,
            throughput_per_round: Vec::new(),
            compute_rates: Vec::new(),
            measurements: WriteMeasurements::new(),
        }
    }

    /// The counts of another round still fit.
    pub open spec fn has_room(self, measurements: WriteMeasurements) -> bool {
        &&& self.measurements.irq_completions + measurements.irq_completions <= usize::MAX
        &&& self.measurements.irq_events + measurements.irq_events <= usize::MAX
        &&& measurements.is_countable()
    }

    /// Tells whether the counts of another round still fit.
    pub fn fits(&self, measurements: &WriteMeasurements) -> (fits: bool)
        ensures
            fits == self.has_room(*measurements),
    {
        self.measurements.irq_completions <= usize::MAX - measurements.irq_completions
            && self.measurements.irq_events <= usize::MAX - measurements.irq_events
            && measurements.fits()
    }

    /// What a round makes of these results, and its report.
    pub open spec fn grown(
        self,
        after: WriteAggregate,
        run: WriteRun,
        measurements: WriteMeasurements,
        baseline_work_per_s_milli: u64,
        report: WriteReport,
    ) -> bool {
        &&& report.throughput_mib_s_milli == write_throughput_mib_s_milli(
            run.bytes,
            run.elapsed_ns,
        )
        &&& report.portrait.depicts(measurements)
        &&& report.compute_work_per_s_milli == work_of(run.compute)
        &&& report.compute_retention_permille == retention_permille(
            work_of(run.compute),
            baseline_work_per_s_milli,
        )
        &&& after.elapsed_total_ns == self.elapsed_total_ns.saturating_add(
            run.elapsed_ns,
        )
        &&& after.requests_total == self.requests_total.saturating_add(run.requests)
        &&& after.bytes_total == self.bytes_total.saturating_add(run.bytes)
        &&& after.throughput_per_round@ == self.throughput_per_round@.push(
            report.throughput_mib_s_milli,
        )
        &&& after.compute_rates@ == (match run.compute {
            Some(result) => self.compute_rates@.push(result.work_per_s_milli),
            None => self.compute_rates@,
        })
        &&& after.measurements.joins(self.measurements, measurements)
    }

    /// Takes a round and reports it.
    pub fn add(
        &mut self,
        run: WriteRun,
        measurements: &WriteMeasurements,
        baseline_work_per_s_milli: u64,
    ) -> (report: WriteReport)
        requires
            old(self).has_room(*measurements),
        ensures
            old(self).grown(
                *final(self),
                run,
                *measurements,
                baseline_work_per_s_milli,
                report,
            ),
    {
        let throughput: u64 = write_throughput_mib_s_milli(run.bytes, run.elapsed_ns);
        let work: u64 = match run.compute {
            Some(result) => result.work_per_s_milli,
            None => 0,
        };
        let report = WriteReport {
            throughput_mib_s_milli: throughput,
            portrait: measurements.portrait(),
            compute_work_per_s_milli: work,
            compute_retention_permille: retention_permille(work, baseline_work_per_s_milli),
        };
        self.elapsed_total_ns = self.elapsed_total_ns.saturating_add(run.elapsed_ns);
        self.requests_total = self.requests_total.saturating_add(run.requests);
        self.bytes_total = self.bytes_total.saturating_add(run.bytes);
        self.throughput_per_round.push(throughput);
        if let Some(result) = run.compute {
            self.compute_rates.push(result.work_per_s_milli);
        }
        self.measurements.append(measurements);
        report
    }

    /// Statistics of all rounds can be computed.
    pub open spec fn reportable(self) -> bool {
        &&& countable(self.throughput_per_round@.len())
        &&& countable(self.compute_rates@.len())
        &&& self.measurements.is_countable()
    }

    /// Tells whether statistics of all rounds can be computed.
    pub fn can_report(&self) -> (can: bool)
        ensures
            can == self.reportable(),
    {
        is_countable(&self.throughput_per_round) && is_countable(&self.compute_rates)
            && self.measurements.fits()
    }

    /// The summary says what the rounds amount to.
    pub open spec fn summed_up(
        self,
        baseline_work_per_s_milli: u64,
        summary: WriteSummary,
    ) -> bool {
        &&& summary.requests_total == self.requests_total
        &&& summary.bytes_total == self.bytes_total
        &&& summary.aggregate_mib_s_milli == write_throughput_mib_s_milli(
            self.bytes_total,
            self.elapsed_total_ns,
        )
        &&& portrays(summary.throughput, self.throughput_per_round@)
        &&& summary.portrait.depicts(self.measurements)
        &&& portrays(summary.compute, self.compute_rates@)
        &&& summary.compute_retention_permille == retention_permille(
            summary.compute.mean,
            baseline_work_per_s_milli,
        )
    }

    /// Reports all rounds.
    pub fn report_summary(&self, baseline_work_per_s_milli: u64) -> (summary: WriteSummary)
        requires
            self.reportable(),
        ensures
            self.summed_up(baseline_work_per_s_milli, summary),
    {
        let compute = stats(&self.compute_rates);
        WriteSummary {
            requests_total: self.requests_total,
            bytes_total: self.bytes_total,
            aggregate_mib_s_milli: write_throughput_mib_s_milli(
                self.bytes_total,
                self.elapsed_total_ns,
            ),
            throughput: stats(&self.throughput_per_round),
            portrait: self.measurements.portrait(),
            compute,
            compute_retention_permille: retention_permille(
                compute.mean,
                baseline_work_per_s_milli,
            ),
        }
    }
}

} // verus!
