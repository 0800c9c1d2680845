//! What the rounds of the read benchmark have shown.

use crate::bench::measure::{
    countable, is_countable, Baselines, Case, CaseAggregate, CaseReport, CaseSummary,
    IoMeasurements, MATRIX_LATENCY_SAMPLE_STRIDE,
};
use crate::bench::range::{
    complete, lookup, report_range_stage_comparisons, RangeComparisons, RangeScope,
    RangeStageSnapshot, RangeStageSummary, RequestSize, SHORT_BLOCKS,
};
use crate::bench::read::{ComputeMode, IoMode, ReadWorkload, RoundEnd, RoundPlan, WorkloadName};
use crate::bench::read_plan::{
    Diagnostic, ReportKind, LEGACY_CONTROL_BLOCKS, SUSTAINED_DIAGNOSTIC_BLOCKS,
};
use crate::bench::stage::StageAggregate;
use crate::bench::stats::{
    describes, mean_of, scalar_stats, square_sum, throughput_mib_s_milli, variance_fits,
    ScalarStats,
};
use crate::bench::sustained::{RateSeries, SustainedResults, SustainedSummary};
use vstd::prelude::*;

verus! {

/// Ways to read a range: two ranges, three sizes of requests, two ways of waiting.
pub const RANGE_WAYS: usize = 12;

/// Cases of a workload: two ways of waiting, each alone and beside two computations.
pub const CASES: usize = 6;

/// Place of a way to read a range.
#[verifier::allow_in_spec]
pub fn range_place(scope: RangeScope, size: RequestSize, io_mode: IoMode) -> usize
    returns
        ((match scope {
            RangeScope::Short => 0int,
            RangeScope::Wide => 6int,
        }) + (match size {
            RequestSize::One => 0int,
            RequestSize::Eight => 2int,
            RequestSize::ThirtyTwo => 4int,
        }) + (match io_mode {
            IoMode::Sync => 0int,
            IoMode::Async => 1int,
        })) as usize,
{
    let range: usize = match scope {
        RangeScope::Short => 0,
        RangeScope::Wide => 6,
    };
    let request: usize = match size {
        RequestSize::One => 0,
        RequestSize::Eight => 2,
        RequestSize::ThirtyTwo => 4,
    };
    match io_mode {
        IoMode::Sync => range + request,
        IoMode::Async => range + request + 1,
    }
}

/// Place of a case.
#[verifier::allow_in_spec]
pub fn case_place(case: Case) -> usize
    returns
        (match (case.compute_mode, case.io_mode) {
            (None, IoMode::Sync) => 0usize,
            (None, IoMode::Async) => 1,
            (Some(ComputeMode::NoYield), IoMode::Sync) => 2,
            (Some(ComputeMode::NoYield), IoMode::Async) => 3,
            (Some(ComputeMode::YieldPerUnit), IoMode::Sync) => 4,
            (Some(ComputeMode::YieldPerUnit), IoMode::Async) => 5,
        }),
{
    match (case.compute_mode, case.io_mode) {
        (None, IoMode::Sync) => 0,
        (None, IoMode::Async) => 1,
        (Some(ComputeMode::NoYield), IoMode::Sync) => 2,
        (Some(ComputeMode::NoYield), IoMode::Async) => 3,
        (Some(ComputeMode::YieldPerUnit), IoMode::Sync) => 4,
        (Some(ComputeMode::YieldPerUnit), IoMode::Async) => 5,
    }
}

/// The range and the size of requests that a workload stands for, if it belongs to
/// the comparison of ranges.
#[verifier::allow_in_spec]
pub fn way_of(workload: ReadWorkload) -> Option<(RangeScope, RequestSize)>
    returns
        ({
            let scope = if workload.total_blocks == SHORT_BLOCKS {
                RangeScope::Short
            } else {
                RangeScope::Wide
            };
            match workload.name {
                WorkloadName::RangeCmd17 => Some((scope, RequestSize::One)),
                WorkloadName::RangeCmd18x8 => Some((scope, RequestSize::Eight)),
                WorkloadName::RangeCmd18x32 => Some((scope, RequestSize::ThirtyTwo)),
                _ => None,
            }
        }),
{
    let scope = if workload.total_blocks == SHORT_BLOCKS {
        RangeScope::Short
    } else {
        RangeScope::Wide
    };
    match workload.name {
        WorkloadName::RangeCmd17 => Some((scope, RequestSize::One)),
        WorkloadName::RangeCmd18x8 => Some((scope, RequestSize::Eight)),
        WorkloadName::RangeCmd18x32 => Some((scope, RequestSize::ThirtyTwo)),
        _ => None,
    }
}

/// Different ways to read a range have different places, and so have different
/// cases; and a workload of the comparison of ranges tells which way it is.
pub proof fn law_each_result_has_its_place(
    scope: RangeScope,
    size: RequestSize,
    io_mode: IoMode,
    other_scope: RangeScope,
    other_size: RequestSize,
    other_mode: IoMode,
    case: Case,
    other_case: Case,
)
    ensures
        range_place(scope, size, io_mode) < RANGE_WAYS,
        range_place(scope, size, io_mode) == range_place(other_scope, other_size, other_mode)
            ==> scope == other_scope && size == other_size && io_mode == other_mode,
        case_place(case) < CASES,
        case_place(case) == case_place(other_case) ==> case == other_case,
        way_of(size.workload(scope)) == Some((scope, size)),
{
}

/// The results of the read benchmark.
#[derive(Debug)]
pub struct ReadResults {
    /// The short region, block by block, with polling.
    pub legacy_sync: RateSeries,
    /// The short region, block by block, with interrupts.
    pub legacy_async: RateSeries,
    /// The ways to read a range, each at its place.
    pub ranges: Vec<RangeStageSummary>,
    /// The long region.
    pub sustained: SustainedResults,
    /// The cases of the current workload, each at its place.
    pub cases: Vec<CaseAggregate>,
    /// The computations that ran alone.
    pub baselines: Baselines,
}

/// The report on a round.
#[derive(Clone, Copy, Debug, PartialEq, Eq)]
pub enum RoundReport {
    /// The round only prepares others.
    Preparation,
    /// Its throughput.
    Rate(u64),
    /// Its results count for a way to read a range.
    Range(RangeScope, RequestSize),
    /// The results of a case.
    Case(CaseReport),
}

impl ReadResults {
    /// Every result is at its place.
    pub open spec fn wf(self) -> bool {
        &&& self.ranges@.len() == RANGE_WAYS
        &&& forall|scope: RangeScope, size: RequestSize, io_mode: IoMode|
            {
                let summary = self.ranges@[#[trigger] range_place(scope, size, io_mode) as int];
                summary.scope == scope && summary.size == size && summary.io_mode == io_mode
            }
        &&& forall|i: int| 0 <= i < RANGE_WAYS ==> (#[trigger] self.ranges@[i]).stages.wf()
        &&& self.cases@.len() == CASES
    }

    /// No round yet.
    pub fn new() -> (results: ReadResults)
        ensures
            results.wf(),
            results.legacy_sync.rates@.len() == 0 && results.legacy_sync.elapsed_total_ns == 0,
            results.legacy_async.rates@.len() == 0 && results.legacy_async.elapsed_total_ns == 0,
            forall|i: int|
                0 <= i < RANGE_WAYS ==> {
                    let summary = #[trigger] results.ranges@[i];
                    summary.throughput_mib_s_milli@.len() == 0 && summary.elapsed_total_ns == 0
                        && summary.stages == StageAggregate::empty()
                },
            results.sustained.whole.rates@.len() == 0
                && results.sustained.whole.elapsed_total_ns == 0,
            results.sustained.instrumented.rates@.len() == 0
                && results.sustained.instrumented.elapsed_total_ns == 0,
            results.sustained.latencies@.len() == 0,
            blank_cases(results.cases@),
            results.baselines.is_blank(),
    {
        let mut ranges: Vec<RangeStageSummary> = Vec::new();
        ranges.push(RangeStageSummary::new(RangeScope::Short, RequestSize::One, IoMode::Sync));
        ranges.push(RangeStageSummary::new(RangeScope::Short, RequestSize::One, IoMode::Async));
        ranges.push(RangeStageSummary::new(RangeScope::Short, RequestSize::Eight, IoMode::Sync));
        ranges.push(RangeStageSummary::new(RangeScope::Short, RequestSize::Eight, IoMode::Async));
        ranges.push(
            RangeStageSummary::new(RangeScope::Short, RequestSize::ThirtyTwo, IoMode::Sync),
        );
        ranges.push(
            RangeStageSummary::new(RangeScope::Short, RequestSize::ThirtyTwo, IoMode::Async),
        );
        ranges.push(RangeStageSummary::new(RangeScope::Wide, RequestSize::One, IoMode::Sync));
        ranges.push(RangeStageSummary::new(RangeScope::Wide, RequestSize::One, IoMode::Async));
        ranges.push(RangeStageSummary::new(RangeScope::Wide, RequestSize::Eight, IoMode::Sync));
        ranges.push(RangeStageSummary::new(RangeScope::Wide, RequestSize::Eight, IoMode::Async));
        ranges.push(RangeStageSummary::new(RangeScope::Wide, RequestSize::ThirtyTwo, IoMode::Sync));
        ranges.push(
            RangeStageSummary::new(RangeScope::Wide, RequestSize::ThirtyTwo, IoMode::Async),
        );
        ReadResults {
            legacy_sync: RateSeries::new(),
            legacy_async: RateSeries::new(),
            ranges,
            sustained: SustainedResults::new(),
            cases: no_cases(),
            baselines: Baselines::new(),
        }
    }

    /// The counts of a round still fit.
    pub open spec fn has_room(
        self,
        diagnostic: Diagnostic,
        plan: RoundPlan,
        measurements: IoMeasurements,
        stages: StageAggregate,
    ) -> bool {
        match diagnostic {
            Diagnostic::Range => match way_of(plan.workload) {
                Some((scope, size)) => self.ranges@[range_place(
                    scope,
                    size,
                    plan.mode,
                ) as int].stages.requests + stages.requests <= usize::MAX,
                None => true,
            },
            Diagnostic::Matrix(_) => {
                &&& countable(measurements.request_latencies_ns@.len())
                &&& countable(measurements.irq_entry_latencies_ns@.len())
                &&& countable(measurements.irq_notify_latencies_ns@.len())
                &&& self.cases@[case_place(
                    Case { io_mode: plan.mode, compute_mode: plan.compute },
                ) as int].has_room(measurements)
            },
            _ => true,
        }
    }

    /// Tells whether the counts of a round still fit.
    pub fn fits(
        &self,
        diagnostic: Diagnostic,
        plan: RoundPlan,
        measurements: &IoMeasurements,
        stages: &StageAggregate,
    ) -> (fits: bool)
        requires
            self.wf(),
        ensures
            fits == self.has_room(diagnostic, plan, *measurements, *stages),
    {
        match diagnostic {
            Diagnostic::Range => match way_of(plan.workload) {
                Some((scope, size)) => {
                    let kept: usize = self.ranges[range_place(
                        scope,
                        size,
                        plan.mode,
                    )].stages.requests;
                    kept <= usize::MAX - stages.requests
                },
                None => true,
            },
            Diagnostic::Matrix(_) => {
                let kept = &self.cases[case_place(
                    Case { io_mode: plan.mode, compute_mode: plan.compute },
                )];
                is_countable(&measurements.request_latencies_ns) && is_countable(
                    &measurements.irq_entry_latencies_ns,
                ) && is_countable(&measurements.irq_notify_latencies_ns) && kept.irq_completions
                    <= usize::MAX - measurements.irq_completions && kept.fast_path_completions
                    <= usize::MAX - measurements.fast_path_completions && kept.deadline_fallbacks
                    <= usize::MAX - measurements.deadline_fallbacks
                    && kept.compute_window_completions < usize::MAX
            },
            _ => true,
        }
    }

    /// What a round makes of the results, and the report on it. A round counts for
    /// one result at most; all others stay as they are.
    pub open spec fn grown(
        self,
        after: ReadResults,
        diagnostic: Diagnostic,
        plan: RoundPlan,
        end: RoundEnd,
        measurements: IoMeasurements,
        stages: StageAggregate,
        report: RoundReport,
    ) -> bool {
        let bytes = plan.workload.total_bytes() as u64;
        match diagnostic {
            Diagnostic::Legacy => if plan.workload.request_blocks != 1 {
                after == self && report == RoundReport::Preparation
            } else {
                &&& report == RoundReport::Rate(throughput_mib_s_milli(bytes, end.elapsed_ns))
                &&& match plan.mode {
                    IoMode::Sync => {
                        &&& after == ReadResults { legacy_sync: after.legacy_sync, ..self }
                        &&& self.legacy_sync.grown(after.legacy_sync, bytes, end.elapsed_ns)
                    },
                    IoMode::Async => {
                        &&& after == ReadResults { legacy_async: after.legacy_async, ..self }
                        &&& self.legacy_async.grown(after.legacy_async, bytes, end.elapsed_ns)
                    },
                }
            },
            Diagnostic::Range => match way_of(plan.workload) {
                None => after == self && report == RoundReport::Preparation,
                Some((scope, size)) => {
                    let place = range_place(scope, size, plan.mode) as int;
                    &&& report == RoundReport::Range(scope, size)
                    &&& after == ReadResults { ranges: after.ranges, ..self }
                    &&& after.ranges@.len() == self.ranges@.len()
                    &&& forall|i: int|
                        0 <= i < self.ranges@.len() && i != place ==> #[trigger] after.ranges@[i]
                            == self.ranges@[i]
                    &&& self.ranges@[place].grown(after.ranges@[place], end.elapsed_ns, stages)
                },
            },
            Diagnostic::Sustained => {
                &&& report == RoundReport::Rate(throughput_mib_s_milli(bytes, end.elapsed_ns))
                &&& after == ReadResults { sustained: after.sustained, ..self }
                &&& self.sustained.grown(
                    after.sustained,
                    plan.stride is Some,
                    bytes,
                    end.elapsed_ns,
                    measurements.request_latencies_ns@,
                )
            },
            Diagnostic::Matrix(_) => if plan.stride != Some(MATRIX_LATENCY_SAMPLE_STRIDE) {
                after == self && report == RoundReport::Preparation
            } else {
                let case = Case { io_mode: plan.mode, compute_mode: plan.compute };
                let place = case_place(case) as int;
                &&& after == ReadResults { cases: after.cases, ..self }
                &&& after.cases@.len() == self.cases@.len()
                &&& forall|i: int|
                    0 <= i < self.cases@.len() && i != place ==> #[trigger] after.cases@[i]
                        == self.cases@[i]
                &&& report matches RoundReport::Case(result) && self.cases@[place].grown(
                    after.cases@[place],
                    plan.workload,
                    end,
                    measurements,
                    self.baselines.of(plan.compute) as u64,
                    result,
                )
            },
        }
    }

    /// Takes a round and reports it.
    pub fn take(
        &mut self,
        diagnostic: Diagnostic,
        plan: RoundPlan,
        end: RoundEnd,
        measurements: &IoMeasurements,
        stages: &StageAggregate,
    ) -> (report: RoundReport)
        requires
            old(self).wf(),
            stages.wf(),
            old(self).has_room(diagnostic, plan, *measurements, *stages),
        ensures
            final(self).wf(),
            old(self).grown(
                *final(self),
                diagnostic,
                plan,
                end,
                *measurements,
                *stages,
                report,
            ),
    {
        let bytes: u64 = plan.workload.total_bytes() as u64;
        match diagnostic {
            Diagnostic::Legacy => if plan.workload.request_blocks != 1 {
                RoundReport::Preparation
            } else {
                match plan.mode {
                    IoMode::Sync => RoundReport::Rate(self.legacy_sync.add(bytes, end.elapsed_ns)),
                    IoMode::Async => RoundReport::Rate(
                        self.legacy_async.add(bytes, end.elapsed_ns),
                    ),
                }
            },
            Diagnostic::Range => match way_of(plan.workload) {
                None => RoundReport::Preparation,
                Some((scope, size)) => {
                    let place: usize = range_place(scope, size, plan.mode);
                    self.ranges[place].add_round(end.elapsed_ns, stages);
                    RoundReport::Range(scope, size)
                },
            },
            Diagnostic::Sustained => RoundReport::Rate(
                self.sustained.add(
                    plan.stride.is_some(),
                    bytes,
                    end.elapsed_ns,
                    &measurements.request_latencies_ns,
                ),
            ),
            Diagnostic::Matrix(_) => match plan.stride {
                Some(MATRIX_LATENCY_SAMPLE_STRIDE) => {
                    let baseline: u64 = self.baselines.work(plan.compute);
                    let place: usize = case_place(
                        Case { io_mode: plan.mode, compute_mode: plan.compute },
                    );
                    RoundReport::Case(
                        self.cases[place].add(plan.workload, end, measurements, baseline),
                    )
                },
                _ => RoundReport::Preparation,
            },
        }
    }
}

/// Statistics of these results can be computed.
pub open spec fn describable(values: Seq<u64>) -> bool {
    square_sum(values, mean_of(values)) <= u128::MAX
}

/// The report on a part of the benchmark.
#[derive(Debug)]
pub enum ReadReport {
    /// The computations that ran alone.
    Baselines {
        /// Those that never yielded.
        no_yield: ScalarStats,
        /// Those that yielded.
        yielding: ScalarStats,
    },
    /// The short region, block by block.
    Legacy {
        /// Throughput of all rounds with polling together.
        sync_aggregate_mib_s_milli: u64,
        /// Throughput of all rounds with interrupts together.
        async_aggregate_mib_s_milli: u64,
        /// Rounds with polling.
        sync: ScalarStats,
        /// Rounds with interrupts.
        asynchronous: ScalarStats,
    },
    /// Both ranges.
    Ranges {
        /// The means of every way to read a range, each at its place.
        snapshots: Vec<RangeStageSnapshot>,
        /// How the rounds of every way vary.
        spreads: Vec<ScalarStats>,
        /// The comparisons.
        comparisons: RangeComparisons,
    },
    /// The long region.
    Sustained(SustainedSummary),
    /// The cases of a workload, each at its place.
    Cases(Vec<CaseSummary>),
}

/// Bytes of a round of the short region.
pub const LEGACY_BYTES: u64 = 131_072;

/// Bytes of a round of the long region.
pub const SUSTAINED_BYTES: u64 = 8_388_608;

/// These are the bytes of the two regions.
pub proof fn law_rounds_move_their_regions()
    ensures
        LEGACY_BYTES == LEGACY_CONTROL_BLOCKS * 512,
        SUSTAINED_BYTES == SUSTAINED_DIAGNOSTIC_BLOCKS * 512,
{
}

impl CaseAggregate {
    /// The results of the case can be reported.
    pub open spec fn reportable(self) -> bool {
        &&& describable(self.throughput_mib_s_milli@)
        &&& describable(self.work_per_s_milli@)
        &&& countable(self.request_latencies_ns@.len())
        &&& countable(self.irq_entry_latencies_ns@.len())
        &&& countable(self.irq_notify_latencies_ns@.len())
    }

    /// Tells whether the results of the case can be reported.
    pub fn can_report(&self) -> (can: bool)
        ensures
            can == self.reportable(),
    {
        variance_fits(&self.throughput_mib_s_milli) && variance_fits(&self.work_per_s_milli)
            && is_countable(&self.request_latencies_ns) && is_countable(
            &self.irq_entry_latencies_ns,
        ) && is_countable(&self.irq_notify_latencies_ns)
    }
}

impl ReadResults {
    /// The results of a part can be reported: its statistics can be computed, and the
    /// long region was read as often with timing each request as without.
    pub open spec fn reportable(self, kind: ReportKind) -> bool {
        match kind {
            ReportKind::Baselines => describable(self.baselines.no_yield@) && describable(
                self.baselines.yielding@,
            ),
            ReportKind::Rounds(Diagnostic::Legacy) => {
                &&& describable(self.legacy_sync.rates@)
                &&& describable(self.legacy_async.rates@)
                &&& LEGACY_BYTES * self.legacy_sync.rates@.len() <= u64::MAX
                &&& LEGACY_BYTES * self.legacy_async.rates@.len() <= u64::MAX
            },
            ReportKind::Rounds(Diagnostic::Range) => forall|i: int|
                0 <= i < RANGE_WAYS ==> describable(
                    (#[trigger] self.ranges@[i]).throughput_mib_s_milli@,
                ),
            ReportKind::Rounds(Diagnostic::Sustained) => {
                &&& SUSTAINED_BYTES * self.sustained.whole.rates@.len() <= u64::MAX
                &&& self.sustained.whole.rates@.len() == self.sustained.instrumented.rates@.len()
                &&& countable(self.sustained.latencies@.len())
            },
            ReportKind::Rounds(Diagnostic::Matrix(_)) => forall|i: int|
                0 <= i < CASES ==> (#[trigger] self.cases@[i]).reportable(),
        }
    }

    /// Tells whether both ranges can be reported.
    fn can_report_ranges(&self) -> (can: bool)
        requires
            self.wf(),
        ensures
            can == self.reportable(ReportKind::Rounds(Diagnostic::Range)),
    {
        let mut i: usize = 0;
        while i < RANGE_WAYS
            invariant
                self.wf(),
                i <= RANGE_WAYS,
                forall|j: int|
                    0 <= j < i ==> describable(
                        (#[trigger] self.ranges@[j]).throughput_mib_s_milli@,
                    ),
            decreases RANGE_WAYS - i,
        {
            if !variance_fits(&self.ranges[i].throughput_mib_s_milli) {
                return false;
            }
            i = i + 1;
        }
        true
    }

    /// Tells whether all cases can be reported.
    fn can_report_cases(&self) -> (can: bool)
        requires
            self.wf(),
        ensures
            can == (forall|i: int| 0 <= i < CASES ==> (#[trigger] self.cases@[i]).reportable()),
    {
        let mut i: usize = 0;
        while i < CASES
            invariant
                self.wf(),
                i <= CASES,
                forall|j: int| 0 <= j < i ==> (#[trigger] self.cases@[j]).reportable(),
            decreases CASES - i,
        {
            if !self.cases[i].can_report() {
                return false;
            }
            i = i + 1;
        }
        true
    }

    /// Tells whether the results of a part can be reported.
    pub fn can_report(&self, kind: ReportKind) -> (can: bool)
        requires
            self.wf(),
        ensures
            can == self.reportable(kind),
    {
        match kind {
            ReportKind::Baselines => variance_fits(&self.baselines.no_yield) && variance_fits(
                &self.baselines.yielding,
            ),
            ReportKind::Rounds(Diagnostic::Legacy) => variance_fits(&self.legacy_sync.rates)
                && variance_fits(&self.legacy_async.rates) && self.legacy_sync.rates.len() as u64
                <= u64::MAX / LEGACY_BYTES && self.legacy_async.rates.len() as u64 <= u64::MAX
                / LEGACY_BYTES,
            ReportKind::Rounds(Diagnostic::Range) => self.can_report_ranges(),
            ReportKind::Rounds(Diagnostic::Sustained) => self.sustained.whole.rates.len() as u64
                <= u64::MAX / SUSTAINED_BYTES && self.sustained.whole.rates.len()
                == self.sustained.instrumented.rates.len() && is_countable(
                &self.sustained.latencies,
            ),
            ReportKind::Rounds(Diagnostic::Matrix(_)) => self.can_report_cases(),
        }
    }

    /// The report on a part of the benchmark says what its rounds amount to.
    pub open spec fn reported(self, kind: ReportKind, report: ReadReport) -> bool {
        match kind {
            ReportKind::Baselines => report matches ReadReport::Baselines { no_yield, yielding }
                && describes(no_yield, self.baselines.no_yield@) && describes(
                yielding,
                self.baselines.yielding@,
            ),
            ReportKind::Rounds(Diagnostic::Legacy) => {
                &&& report matches ReadReport::Legacy {
                    sync_aggregate_mib_s_milli,
                    async_aggregate_mib_s_milli,
                    sync,
                    asynchronous,
                }
                &&& sync_aggregate_mib_s_milli == throughput_mib_s_milli(
                    (LEGACY_BYTES * self.legacy_sync.rates@.len()) as u64,
                    self.legacy_sync.elapsed_total_ns,
                )
                &&& async_aggregate_mib_s_milli == throughput_mib_s_milli(
                    (LEGACY_BYTES * self.legacy_async.rates@.len()) as u64,
                    self.legacy_async.elapsed_total_ns,
                )
                &&& describes(sync, self.legacy_sync.rates@)
                &&& describes(asynchronous, self.legacy_async.rates@)
            },
            ReportKind::Rounds(Diagnostic::Range) => {
                &&& report matches ReadReport::Ranges { snapshots, spreads, comparisons }
                &&& snapshots@ == snapshots_of(self.ranges@)
                &&& spreads@.len() == RANGE_WAYS
                &&& forall|i: int|
                    0 <= i < RANGE_WAYS ==> describes(
                        #[trigger] spreads@[i],
                        self.ranges@[i].throughput_mib_s_milli@,
                    )
                &&& comparisons.of(snapshots@)
            },
            ReportKind::Rounds(Diagnostic::Sustained) => report matches ReadReport::Sustained(
                summary,
            ) && self.sustained.summed_up(SUSTAINED_BYTES, summary),
            ReportKind::Rounds(Diagnostic::Matrix(_)) => {
                &&& report matches ReadReport::Cases(summaries)
                &&& summaries@.len() == CASES
                &&& forall|case: Case|
                    self.cases@[#[trigger] case_place(case) as int].summed_up(
                        self.baselines.of(case.compute_mode) as u64,
                        summaries@[case_place(case) as int],
                    )
            },
        }
    }

    /// Reports a part of the benchmark.
    pub fn report(&self, kind: ReportKind) -> (report: ReadReport)
        requires
            self.wf(),
            self.reportable(kind),
        ensures
            self.reported(kind, report),
    {
        match kind {
            ReportKind::Baselines => ReadReport::Baselines {
                no_yield: scalar_stats(&self.baselines.no_yield),
                yielding: scalar_stats(&self.baselines.yielding),
            },
            ReportKind::Rounds(Diagnostic::Legacy) => ReadReport::Legacy {
                sync_aggregate_mib_s_milli: self.legacy_sync.aggregate(LEGACY_BYTES),
                async_aggregate_mib_s_milli: self.legacy_async.aggregate(LEGACY_BYTES),
                sync: self.legacy_sync.spread(),
                asynchronous: self.legacy_async.spread(),
            },
            ReportKind::Rounds(Diagnostic::Range) => self.report_ranges(),
            ReportKind::Rounds(Diagnostic::Sustained) => ReadReport::Sustained(
                self.sustained.summary(SUSTAINED_BYTES),
            ),
            ReportKind::Rounds(Diagnostic::Matrix(_)) => ReadReport::Cases(self.report_cases()),
        }
    }

    /// Reports both ranges.
    fn report_ranges(&self) -> (report: ReadReport)
        requires
            self.wf(),
            self.reportable(ReportKind::Rounds(Diagnostic::Range)),
        ensures
            self.reported(ReportKind::Rounds(Diagnostic::Range), report),
    {
        let mut snapshots: Vec<RangeStageSnapshot> = Vec::new();
        let mut spreads: Vec<ScalarStats> = Vec::new();
        let mut i: usize = 0;
        while i < RANGE_WAYS
            invariant
                self.wf(),
                self.reportable(ReportKind::Rounds(Diagnostic::Range)),
                i <= RANGE_WAYS,
                snapshots@ == snapshots_of(self.ranges@.take(i as int)),
                spreads@.len() == i,
                forall|j: int|
                    0 <= j < i ==> describes(
                        #[trigger] spreads@[j],
                        self.ranges@[j].throughput_mib_s_milli@,
                    ),
            decreases RANGE_WAYS - i,
        {
            snapshots.push(self.ranges[i].snapshot());
            spreads.push(self.ranges[i].spread());
            i = i + 1;
            assert(snapshots@ =~= snapshots_of(self.ranges@.take(i as int)));
        }
        assert(self.ranges@.take(RANGE_WAYS as int) =~= self.ranges@);
        proof {
            lemma_snapshots_complete(*self);
        }
        let comparisons = report_range_stage_comparisons(&snapshots);
        ReadReport::Ranges { snapshots, spreads, comparisons }
    }

    /// Reports the cases of a workload.
    fn report_cases(&self) -> (summaries: Vec<CaseSummary>)
        requires
            self.wf(),
            forall|i: int| 0 <= i < CASES ==> (#[trigger] self.cases@[i]).reportable(),
        ensures
            summaries@.len() == CASES,
            forall|case: Case|
                self.cases@[#[trigger] case_place(case) as int].summed_up(
                    self.baselines.of(case.compute_mode) as u64,
                    summaries@[case_place(case) as int],
                ),
    {
        let mut summaries: Vec<CaseSummary> = Vec::new();
        let mut i: usize = 0;
        while i < CASES
            invariant
                self.wf(),
                i <= CASES,
                forall|j: int| 0 <= j < CASES ==> (#[trigger] self.cases@[j]).reportable(),
                summaries@.len() == i,
                forall|case: Case|
                    (#[trigger] case_place(case)) < i ==> self.cases@[case_place(
                        case,
                    ) as int].summed_up(
                        self.baselines.of(case.compute_mode) as u64,
                        summaries@[case_place(case) as int],
                    ),
            decreases CASES - i,
        {
            let mode = if i < 2 {
                None
            } else if i < 4 {
                Some(ComputeMode::NoYield)
            } else {
                Some(ComputeMode::YieldPerUnit)
            };
            let baseline: u64 = self.baselines.work(mode);
            summaries.push(self.cases[i].report_summary(baseline));
            i = i + 1;
        }
        summaries
    }

    /// Makes room for the cases of the next workload.
    pub fn next_workload(&mut self)
        requires
            old(self).wf(),
        ensures
            final(self).wf(),
            blank_cases(final(self).cases@),
            *final(self) == (ReadResults { cases: final(self).cases, ..*old(self) }),
    {
        self.cases = no_cases();
    }
}

/// The means of ways to read a range.
pub open spec fn snapshots_of(ranges: Seq<RangeStageSummary>) -> Seq<RangeStageSnapshot> {
    Seq::new(ranges.len(), |i: int| ranges[i].means())
}

proof fn lemma_lookup_finds(
    snapshots: Seq<RangeStageSnapshot>,
    i: int,
    scope: RangeScope,
    size: RequestSize,
    io_mode: IoMode,
)
    requires
        0 <= i < snapshots.len(),
        snapshots[i].scope == scope && snapshots[i].size == size && snapshots[i].io_mode
            == io_mode,
    ensures
        lookup(snapshots, scope, size, io_mode) is Some,
    decreases snapshots.len(),
{
    if i > 0 {
        lemma_lookup_finds(snapshots.skip(1), i - 1, scope, size, io_mode);
    }
}

proof fn lemma_snapshots_complete(results: ReadResults)
    requires
        results.wf(),
    ensures
        complete(snapshots_of(results.ranges@)),
{
    assert forall|scope: RangeScope, size: RequestSize, io_mode: IoMode|
        #[trigger] lookup(snapshots_of(results.ranges@), scope, size, io_mode) is Some by {
        lemma_lookup_finds(
            snapshots_of(results.ranges@),
            range_place(scope, size, io_mode) as int,
            scope,
            size,
            io_mode,
        );
    }
}

/// Cases without a round.
pub open spec fn blank_cases(cases: Seq<CaseAggregate>) -> bool {
    &&& cases.len() == CASES
    &&& forall|i: int| 0 <= i < CASES ==> (#[trigger] cases[i]).is_blank()
}

/// Makes cases without a round.
fn no_cases() -> (cases: Vec<CaseAggregate>)
    ensures
        blank_cases(cases@),
{
    let mut cases: Vec<CaseAggregate> = Vec::new();
    while cases.len() < CASES
        invariant
            cases.len() <= CASES,
            forall|i: int| 0 <= i < cases.len() ==> (#[trigger] cases@[i]).is_blank(),
        decreases CASES - cases.len(),
    {
        cases.push(CaseAggregate::new());
    }
    cases
}

} // verus!
