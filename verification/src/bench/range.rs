//! How the speed of reads depends on the range that they cover.

use crate::bench::measure::TEST_ROUNDS;
use crate::bench::read::{IoMode, ReadWorkload, WorkloadName};
use crate::bench::stage::{mean_over, StageAggregate};
use crate::bench::stats::{
    describes, mean_of, ratio_permille, scalar_stats, square_sum, throughput_mib_s_milli,
    ScalarStats,
};
use vstd::prelude::*;

verus! {

/// Blocks of the short range.
pub const SHORT_BLOCKS: usize = 256;

/// Blocks of the wide range.
pub const WIDE_BLOCKS: usize = 4096;

/// A range of blocks.
#[derive(Clone, Copy, Debug, PartialEq, Eq, Structural)]
pub enum RangeScope {
    /// 128 KiB.
    Short,
    /// 2 MiB.
    Wide,
}

impl RangeScope {
    /// Name for reports.
    pub fn name(self) -> (name: &'static str)
        ensures
            name@ == (match self {
                RangeScope::Short => "short_128k"@,
                RangeScope::Wide => "wide_2m"@,
            }),
    {
        match self {
            RangeScope::Short => "short_128k",
            RangeScope::Wide => "wide_2m",
        }
    }

    /// Blocks of the range.
    #[verifier::allow_in_spec]
    pub fn total_blocks(self) -> usize
        returns
            (match self {
                RangeScope::Short => SHORT_BLOCKS,
                RangeScope::Wide => WIDE_BLOCKS,
            }),
    {
        match self {
            RangeScope::Short => SHORT_BLOCKS,
            RangeScope::Wide => WIDE_BLOCKS,
        }
    }
}

/// Sizes of the requests that a range is read with.
#[derive(Clone, Copy, Debug, PartialEq, Eq, Structural)]
pub enum RequestSize {
    /// One block.
    One,
    /// Eight blocks.
    Eight,
    /// Thirty-two blocks.
    ThirtyTwo,
}

impl RequestSize {
    /// Blocks of a request.
    #[verifier::allow_in_spec]
    pub fn blocks(self) -> usize
        returns
            (match self {
                RequestSize::One => 1usize,
                RequestSize::Eight => 8,
                RequestSize::ThirtyTwo => 32,
            }),
    {
        match self {
            RequestSize::One => 1,
            RequestSize::Eight => 8,
            RequestSize::ThirtyTwo => 32,
        }
    }

    /// The workload that reads a range with such requests.
    #[verifier::allow_in_spec]
    pub fn workload(self, scope: RangeScope) -> ReadWorkload
        returns
            (ReadWorkload {
                name: (match self {
                    RequestSize::One => WorkloadName::RangeCmd17,
                    RequestSize::Eight => WorkloadName::RangeCmd18x8,
                    RequestSize::ThirtyTwo => WorkloadName::RangeCmd18x32,
                }),
                request_blocks: self.blocks(),
                total_blocks: scope.total_blocks(),
            }),
    {
        ReadWorkload {
            name: match self {
                RequestSize::One => WorkloadName::RangeCmd17,
                RequestSize::Eight => WorkloadName::RangeCmd18x8,
                RequestSize::ThirtyTwo => WorkloadName::RangeCmd18x32,
            },
            request_blocks: self.blocks(),
            total_blocks: scope.total_blocks(),
        }
    }
}

/// The rounds of one way to read a range.
#[derive(Debug)]
pub struct RangeStageSummary {
    /// The range.
    pub scope: RangeScope,
    /// Size of a request.
    pub size: RequestSize,
    /// How requests are waited for.
    pub io_mode: IoMode,
    /// Throughput of each round.
    pub throughput_mib_s_milli: Vec<u64>,
    /// Time of all rounds.
    pub elapsed_total_ns: u64,
    /// Stages of all requests.
    pub stages: StageAggregate,
}

/// The means of one way to read a range.
#[derive(Clone, Copy, Debug, PartialEq, Eq, Structural)]
pub struct RangeStageSnapshot {
    /// The range.
    pub scope: RangeScope,
    /// Size of a request.
    pub size: RequestSize,
    /// How requests are waited for.
    pub io_mode: IoMode,
    /// Throughput over all rounds.
    pub throughput_mib_s_milli: u64,
    /// Mean time of a call.
    pub api_average_ns: u64,
    /// Mean time from the command to the end of the data phase.
    pub command_to_terminal_average_ns: u64,
    /// Mean time of everything else.
    pub software_average_ns: u64,
    /// Mean time from the last interrupt to the end of the data phase.
    pub irq_to_terminal_average_ns: u64,
}

impl RangeStageSummary {
    /// No round yet.
    pub fn new(scope: RangeScope, size: RequestSize, io_mode: IoMode) -> (
        summary: RangeStageSummary)
        ensures
            summary.scope == scope && summary.size == size && summary.io_mode == io_mode,
            summary.throughput_mib_s_milli@ == Seq::<u64>::empty(),
            summary.elapsed_total_ns == 0,
            summary.stages == StageAggregate::empty(),
            summary.stages.wf(),
    {
        RangeStageSummary {
            scope,
            size,
            io_mode,
            throughput_mib_s_milli: Vec::new(),
            elapsed_total_ns: 0,
            stages: StageAggregate::empty(),
        }
    }

    /// What a round makes of the summary.
    pub open spec fn grown(
        self,
        after: RangeStageSummary,
        elapsed_ns: u64,
        stages: StageAggregate,
    ) -> bool {
        &&& after.scope == self.scope && after.size == self.size && after.io_mode == self.io_mode
        &&& after.throughput_mib_s_milli@ == self.throughput_mib_s_milli@.push(
            throughput_mib_s_milli((self.scope.total_blocks() * 512) as u64, elapsed_ns),
        )
        &&& after.elapsed_total_ns == self.elapsed_total_ns.saturating_add(elapsed_ns)
        &&& after.stages == self.stages.joined(stages)
    }

    /// Takes a round.
    pub fn add_round(&mut self, elapsed_ns: u64, stages: &StageAggregate)
        requires
            old(self).stages.wf(),
            stages.wf(),
            old(self).stages.requests + stages.requests <= usize::MAX,
        ensures
            old(self).grown(*final(self), elapsed_ns, *stages),
            final(self).stages.wf(),
    {
        let bytes: usize = self.scope.total_blocks() * 512;
        self.throughput_mib_s_milli.push(throughput_mib_s_milli(bytes as u64, elapsed_ns));
        self.elapsed_total_ns = self.elapsed_total_ns.saturating_add(elapsed_ns);
        self.stages.merge(stages);
    }

    /// The means over all rounds.
    pub open spec fn means(self) -> RangeStageSnapshot {
        RangeStageSnapshot {
            scope: self.scope,
            size: self.size,
            io_mode: self.io_mode,
            throughput_mib_s_milli: throughput_mib_s_milli(
                (self.scope.total_blocks() * 512 * TEST_ROUNDS) as u64,
                self.elapsed_total_ns,
            ),
            api_average_ns: mean_over(self.stages.api_total_ns, self.stages.requests),
            command_to_terminal_average_ns: mean_over(
                self.stages.command_to_terminal_ns,
                self.stages.requests,
            ),
            software_average_ns: mean_over(self.stages.software_ns, self.stages.requests),
            irq_to_terminal_average_ns: mean_over(
                self.stages.irq_to_terminal_ns,
                self.stages.irq_to_terminal_samples,
            ),
        }
    }

    /// Computes the means over all rounds.
    pub fn snapshot(&self) -> (snapshot: RangeStageSnapshot)
        ensures
            snapshot == self.means(),
    {
        let bytes: usize = self.scope.total_blocks() * 512 * TEST_ROUNDS;
        RangeStageSnapshot {
            scope: self.scope,
            size: self.size,
            io_mode: self.io_mode,
            throughput_mib_s_milli: throughput_mib_s_milli(bytes as u64, self.elapsed_total_ns),
            api_average_ns: self.stages.average(self.stages.api_total_ns),
            command_to_terminal_average_ns: self.stages.average(
                self.stages.command_to_terminal_ns,
            ),
            software_average_ns: self.stages.average(self.stages.software_ns),
            irq_to_terminal_average_ns: self.stages.irq_to_terminal_average(),
        }
    }

    /// How the rounds vary.
    pub fn spread(&self) -> (stats: ScalarStats)
        requires
            square_sum(
                self.throughput_mib_s_milli@,
                mean_of(self.throughput_mib_s_milli@),
            ) <= u128::MAX,
        ensures
            describes(stats, self.throughput_mib_s_milli@),
    {
        scalar_stats(&self.throughput_mib_s_milli)
    }
}

/// The first snapshot of a way to read a range.
pub open spec fn lookup(
    snapshots: Seq<RangeStageSnapshot>,
    scope: RangeScope,
    size: RequestSize,
    io_mode: IoMode,
) -> Option<RangeStageSnapshot>
    decreases snapshots.len(),
{
    if snapshots.len() == 0 {
        None
    } else {
        let first = snapshots[0];
        if first.scope == scope && first.size == size && first.io_mode == io_mode {
            Some(first)
        } else {
            lookup(snapshots.skip(1), scope, size, io_mode)
        }
    }
}

/// Finds the first snapshot of a way to read a range.
pub fn find_range_snapshot(
    snapshots: &[RangeStageSnapshot],
    scope: RangeScope,
    size: RequestSize,
    io_mode: IoMode,
) -> (found: Option<RangeStageSnapshot>)
    ensures
        found == lookup(snapshots@, scope, size, io_mode),
{
    let mut i: usize = 0;
    assert(snapshots@.skip(0) =~= snapshots@);
    while i < snapshots.len()
        invariant
            i <= snapshots.len(),
            lookup(snapshots@, scope, size, io_mode) == lookup(
                snapshots@.skip(i as int),
                scope,
                size,
                io_mode,
            ),
        decreases snapshots.len() - i,
    {
        let candidate = snapshots[i];
        assert(snapshots@.skip(i as int)[0] == candidate);
        if candidate.scope == scope && candidate.size == size && candidate.io_mode == io_mode {
            return Some(candidate);
        }
        assert(snapshots@.skip(i as int).skip(1) =~= snapshots@.skip(i + 1));
        i = i + 1;
    }
    None
}

/// How the size of requests matters.
#[derive(Clone, Copy, Debug, PartialEq, Eq, Structural)]
pub struct RequestComparison {
    /// The range.
    pub scope: RangeScope,
    /// How requests are waited for.
    pub io_mode: IoMode,
    /// Throughput of single blocks.
    pub block1_mib_s_milli: u64,
    /// Throughput of eight blocks.
    pub block8_mib_s_milli: u64,
    /// Throughput of thirty-two blocks.
    pub block32_mib_s_milli: u64,
    /// Eight blocks in thousandths of single blocks.
    pub block8_vs_block1_permille: u64,
    /// Thirty-two blocks in thousandths of single blocks.
    pub block32_vs_block1_permille: u64,
    /// Thirty-two blocks in thousandths of eight blocks.
    pub block32_vs_block8_permille: u64,
}

/// How waiting matters.
#[derive(Clone, Copy, Debug, PartialEq, Eq, Structural)]
pub struct AsyncComparison {
    /// The range.
    pub scope: RangeScope,
    /// Size of a request.
    pub size: RequestSize,
    /// Throughput with polling.
    pub sync_mib_s_milli: u64,
    /// Throughput with interrupts.
    pub async_mib_s_milli: u64,
    /// Interrupts in thousandths of polling.
    pub async_vs_sync_permille: u64,
    /// Mean time of a call with polling.
    pub sync_api_avg_ns: u64,
    /// Mean time of a call with interrupts.
    pub async_api_avg_ns: u64,
    /// What interrupts add to a call.
    pub async_extra_api_ns: u64,
    /// Mean time from the last interrupt to the end of the data phase.
    pub async_irq_to_terminal_avg_ns: u64,
}

/// What makes reads of the wide range slower.
#[derive(Clone, Copy, Debug, PartialEq, Eq, Structural)]
pub enum Classification {
    /// They are not.
    NoMaterialRangeSlowdown,
    /// Most of the additional time is spent between the command and the end of
    /// the data phase.
    CardControllerOrBusWaitDominant,
    /// Most of the additional time is spent elsewhere.
    DriverSoftwareDominant,
    /// Neither.
    MixedOrInconclusive,
}

impl Classification {
    /// Name for reports.
    pub fn name(self) -> (name: &'static str)
        ensures
            name@ == (match self {
                Classification::NoMaterialRangeSlowdown => "no_material_range_slowdown"@,
                Classification::CardControllerOrBusWaitDominant => "card_controller_or_bus_wait_dominant"@,
                Classification::DriverSoftwareDominant => "driver_software_dominant"@,
                Classification::MixedOrInconclusive => "mixed_or_inconclusive"@,
            }),
    {
        match self {
            Classification::NoMaterialRangeSlowdown => "no_material_range_slowdown",
            Classification::CardControllerOrBusWaitDominant => "card_controller_or_bus_wait_dominant",
            Classification::DriverSoftwareDominant => "driver_software_dominant",
            Classification::MixedOrInconclusive => "mixed_or_inconclusive",
        }
    }
}

/// Why the wide range is slower.
#[derive(Clone, Copy, Debug, PartialEq, Eq, Structural)]
pub struct RootCause {
    /// Size of a request.
    pub size: RequestSize,
    /// The short range.
    pub short: RangeStageSnapshot,
    /// The wide range.
    pub wide: RangeStageSnapshot,
    /// Its throughput in thousandths of that of the short range.
    pub wide_vs_short_permille: u64,
    /// Additional time of a call.
    pub extra_api_ns: u64,
    /// Additional time between the command and the end of the data phase.
    pub extra_command_to_terminal_ns: u64,
    /// That time in thousandths of the additional time of a call.
    pub command_extra_share_permille: u64,
    /// Additional time of everything else.
    pub extra_software_ns: u64,
    /// That time in thousandths of the additional time of a call.
    pub software_extra_share_permille: u64,
    /// The verdict.
    pub classification: Classification,
}

/// The verdict on a slowdown: none from 95 % of the throughput on; else whatever
/// takes at least 70 % of the additional time, the wait first.
pub open spec fn verdict(
    range_ratio: u64,
    command_share: u64,
    software_share: u64,
) -> Classification {
    if range_ratio >= 950 {
        Classification::NoMaterialRangeSlowdown
    } else if command_share >= 700 {
        Classification::CardControllerOrBusWaitDominant
    } else if software_share >= 700 {
        Classification::DriverSoftwareDominant
    } else {
        Classification::MixedOrInconclusive
    }
}

/// Judges a slowdown.
pub fn classify(
    range_ratio: u64,
    command_share: u64,
    software_share: u64,
) -> (classification: Classification)
    ensures
        classification == verdict(range_ratio, command_share, software_share),
{
    if range_ratio >= 950 {
        Classification::NoMaterialRangeSlowdown
    } else if command_share >= 700 {
        Classification::CardControllerOrBusWaitDominant
    } else if software_share >= 700 {
        Classification::DriverSoftwareDominant
    } else {
        Classification::MixedOrInconclusive
    }
}

/// Comparison of the three sizes of requests.
pub open spec fn sizes_compared(
    one: RangeStageSnapshot,
    eight: RangeStageSnapshot,
    many: RangeStageSnapshot,
) -> RequestComparison {
    RequestComparison {
        scope: one.scope,
        io_mode: one.io_mode,
        block1_mib_s_milli: one.throughput_mib_s_milli,
        block8_mib_s_milli: eight.throughput_mib_s_milli,
        block32_mib_s_milli: many.throughput_mib_s_milli,
        block8_vs_block1_permille: ratio_permille(
            eight.throughput_mib_s_milli,
            one.throughput_mib_s_milli,
        ),
        block32_vs_block1_permille: ratio_permille(
            many.throughput_mib_s_milli,
            one.throughput_mib_s_milli,
        ),
        block32_vs_block8_permille: ratio_permille(
            many.throughput_mib_s_milli,
            eight.throughput_mib_s_milli,
        ),
    }
}

/// Compares the three sizes of requests.
pub fn compare_sizes(
    one: RangeStageSnapshot,
    eight: RangeStageSnapshot,
    many: RangeStageSnapshot,
) -> (row: RequestComparison)
    ensures
        row == sizes_compared(one, eight, many),
{
    RequestComparison {
        scope: one.scope,
        io_mode: one.io_mode,
        block1_mib_s_milli: one.throughput_mib_s_milli,
        block8_mib_s_milli: eight.throughput_mib_s_milli,
        block32_mib_s_milli: many.throughput_mib_s_milli,
        block8_vs_block1_permille: ratio_permille(
            eight.throughput_mib_s_milli,
            one.throughput_mib_s_milli,
        ),
        block32_vs_block1_permille: ratio_permille(
            many.throughput_mib_s_milli,
            one.throughput_mib_s_milli,
        ),
        block32_vs_block8_permille: ratio_permille(
            many.throughput_mib_s_milli,
            eight.throughput_mib_s_milli,
        ),
    }
}

/// Comparison of polling and interrupts.
pub open spec fn modes_compared(
    sync: RangeStageSnapshot,
    asynchronous: RangeStageSnapshot,
) -> AsyncComparison {
    AsyncComparison {
        scope: sync.scope,
        size: sync.size,
        sync_mib_s_milli: sync.throughput_mib_s_milli,
        async_mib_s_milli: asynchronous.throughput_mib_s_milli,
        async_vs_sync_permille: ratio_permille(
            asynchronous.throughput_mib_s_milli,
            sync.throughput_mib_s_milli,
        ),
        sync_api_avg_ns: sync.api_average_ns,
        async_api_avg_ns: asynchronous.api_average_ns,
        async_extra_api_ns: asynchronous.api_average_ns.saturating_sub(sync.api_average_ns),
        async_irq_to_terminal_avg_ns: asynchronous.irq_to_terminal_average_ns,
    }
}

/// Compares polling and interrupts.
pub fn compare_modes(
    sync: RangeStageSnapshot,
    asynchronous: RangeStageSnapshot,
) -> (row: AsyncComparison)
    ensures
        row == modes_compared(sync, asynchronous),
{
    AsyncComparison {
        scope: sync.scope,
        size: sync.size,
        sync_mib_s_milli: sync.throughput_mib_s_milli,
        async_mib_s_milli: asynchronous.throughput_mib_s_milli,
        async_vs_sync_permille: ratio_permille(
            asynchronous.throughput_mib_s_milli,
            sync.throughput_mib_s_milli,
        ),
        sync_api_avg_ns: sync.api_average_ns,
        async_api_avg_ns: asynchronous.api_average_ns,
        async_extra_api_ns: asynchronous.api_average_ns.saturating_sub(sync.api_average_ns),
        async_irq_to_terminal_avg_ns: asynchronous.irq_to_terminal_average_ns,
    }
}

/// Comparison of the two ranges.
pub open spec fn ranges_compared(short: RangeStageSnapshot, wide: RangeStageSnapshot) -> RootCause {
    let extra_api_ns: u64 = wide.api_average_ns.saturating_sub(short.api_average_ns);
    let extra_command_to_terminal_ns: u64 = wide.command_to_terminal_average_ns.saturating_sub(
        short.command_to_terminal_average_ns,
    );
    let extra_software_ns: u64 = wide.software_average_ns.saturating_sub(
        short.software_average_ns,
    );
    let range_ratio: u64 = ratio_permille(
        wide.throughput_mib_s_milli,
        short.throughput_mib_s_milli,
    );
    let command_share: u64 = ratio_permille(extra_command_to_terminal_ns, extra_api_ns);
    let software_share: u64 = ratio_permille(extra_software_ns, extra_api_ns);
    RootCause {
        size: short.size,
        short,
        wide,
        wide_vs_short_permille: range_ratio,
        extra_api_ns,
        extra_command_to_terminal_ns,
        command_extra_share_permille: command_share,
        extra_software_ns,
        software_extra_share_permille: software_share,
        classification: verdict(range_ratio, command_share, software_share),
    }
}

/// Compares the two ranges.
pub fn compare_ranges(short: RangeStageSnapshot, wide: RangeStageSnapshot) -> (row: RootCause)
    ensures
        row == ranges_compared(short, wide),
{
    let extra_api_ns: u64 = wide.api_average_ns.saturating_sub(short.api_average_ns);
    let extra_command_to_terminal_ns: u64 = wide.command_to_terminal_average_ns.saturating_sub(
        short.command_to_terminal_average_ns,
    );
    let extra_software_ns: u64 = wide.software_average_ns.saturating_sub(
        short.software_average_ns,
    );
    let range_ratio: u64 = ratio_permille(
        wide.throughput_mib_s_milli,
        short.throughput_mib_s_milli,
    );
    let command_share: u64 = ratio_permille(extra_command_to_terminal_ns, extra_api_ns);
    let software_share: u64 = ratio_permille(extra_software_ns, extra_api_ns);
    RootCause {
        size: short.size,
        short,
        wide,
        wide_vs_short_permille: range_ratio,
        extra_api_ns,
        extra_command_to_terminal_ns,
        command_extra_share_permille: command_share,
        extra_software_ns,
        software_extra_share_permille: software_share,
        classification: classify(range_ratio, command_share, software_share),
    }
}

/// All comparisons of the range diagnostic.
#[derive(Debug)]
pub struct RangeComparisons {
    /// Sizes of requests, for each range and way of waiting.
    pub sizes: Vec<RequestComparison>,
    /// Ways of waiting, for each range and size.
    pub modes: Vec<AsyncComparison>,
    /// Ranges, for each size.
    pub causes: Vec<RootCause>,
}

/// Comparison of the sizes of requests, where all snapshots are there.
pub open spec fn sizes_row(
    snapshots: Seq<RangeStageSnapshot>,
    scope: RangeScope,
    io_mode: IoMode,
) -> Option<RequestComparison> {
    match (
        lookup(snapshots, scope, RequestSize::One, io_mode),
        lookup(snapshots, scope, RequestSize::Eight, io_mode),
        lookup(snapshots, scope, RequestSize::ThirtyTwo, io_mode),
    ) {
        (Some(one), Some(eight), Some(many)) => Some(sizes_compared(one, eight, many)),
        _ => None,
    }
}

/// Comparison of the ways of waiting, where both snapshots are there.
pub open spec fn modes_row(
    snapshots: Seq<RangeStageSnapshot>,
    scope: RangeScope,
    size: RequestSize,
) -> Option<AsyncComparison> {
    match (
        lookup(snapshots, scope, size, IoMode::Sync),
        lookup(snapshots, scope, size, IoMode::Async),
    ) {
        (Some(sync), Some(asynchronous)) => Some(modes_compared(sync, asynchronous)),
        _ => None,
    }
}

/// Comparison of the ranges, where both snapshots are there.
pub open spec fn causes_row(snapshots: Seq<RangeStageSnapshot>, size: RequestSize) -> Option<
    RootCause,
> {
    match (
        lookup(snapshots, RangeScope::Short, size, IoMode::Sync),
        lookup(snapshots, RangeScope::Wide, size, IoMode::Sync),
    ) {
        (Some(short), Some(wide)) => Some(ranges_compared(short, wide)),
        _ => None,
    }
}

/// Adds a row, where there is one.
fn push_sizes(
    rows: &mut Vec<RequestComparison>,
    snapshots: &[RangeStageSnapshot],
    scope: RangeScope,
    io_mode: IoMode,
)
    ensures
        final(rows)@ == (match sizes_row(snapshots@, scope, io_mode) {
            Some(row) => old(rows)@.push(row),
            None => old(rows)@,
        }),
{
    match (
        find_range_snapshot(snapshots, scope, RequestSize::One, io_mode),
        find_range_snapshot(snapshots, scope, RequestSize::Eight, io_mode),
        find_range_snapshot(snapshots, scope, RequestSize::ThirtyTwo, io_mode),
    ) {
        (Some(one), Some(eight), Some(many)) => rows.push(compare_sizes(one, eight, many)),
        _ => {},
    }
}

/// Adds a row, where there is one.
fn push_modes(
    rows: &mut Vec<AsyncComparison>,
    snapshots: &[RangeStageSnapshot],
    scope: RangeScope,
    size: RequestSize,
)
    ensures
        final(rows)@ == (match modes_row(snapshots@, scope, size) {
            Some(row) => old(rows)@.push(row),
            None => old(rows)@,
        }),
{
    match (
        find_range_snapshot(snapshots, scope, size, IoMode::Sync),
        find_range_snapshot(snapshots, scope, size, IoMode::Async),
    ) {
        (Some(sync), Some(asynchronous)) => rows.push(compare_modes(sync, asynchronous)),
        _ => {},
    }
}

/// Adds a row, where there is one.
fn push_causes(
    rows: &mut Vec<RootCause>,
    snapshots: &[RangeStageSnapshot],
    size: RequestSize,
)
    ensures
        final(rows)@ == (match causes_row(snapshots@, size) {
            Some(row) => old(rows)@.push(row),
            None => old(rows)@,
        }),
{
    match (
        find_range_snapshot(snapshots, RangeScope::Short, size, IoMode::Sync),
        find_range_snapshot(snapshots, RangeScope::Wide, size, IoMode::Sync),
    ) {
        (Some(short), Some(wide)) => rows.push(compare_ranges(short, wide)),
        _ => {},
    }
}

/// There is a snapshot of every way to read a range.
pub open spec fn complete(snapshots: Seq<RangeStageSnapshot>) -> bool {
    forall|scope: RangeScope, size: RequestSize, io_mode: IoMode|
        #[trigger] lookup(snapshots, scope, size, io_mode) is Some
}

/// Tells whether there are snapshots of a range read with requests of a size in
/// both ways of waiting.
fn has_both(snapshots: &[RangeStageSnapshot], scope: RangeScope, size: RequestSize) -> (both: bool)
    ensures
        both == (lookup(snapshots@, scope, size, IoMode::Sync) is Some && lookup(
            snapshots@,
            scope,
            size,
            IoMode::Async,
        ) is Some),
{
    find_range_snapshot(snapshots, scope, size, IoMode::Sync).is_some() && find_range_snapshot(
        snapshots,
        scope,
        size,
        IoMode::Async,
    ).is_some()
}

/// Tells whether there is a snapshot of every way to read a range.
pub fn is_complete(snapshots: &[RangeStageSnapshot]) -> (all: bool)
    ensures
        all == complete(snapshots@),
{
    let all = has_both(snapshots, RangeScope::Short, RequestSize::One) && has_both(
        snapshots,
        RangeScope::Short,
        RequestSize::Eight,
    ) && has_both(snapshots, RangeScope::Short, RequestSize::ThirtyTwo) && has_both(
        snapshots,
        RangeScope::Wide,
        RequestSize::One,
    ) && has_both(snapshots, RangeScope::Wide, RequestSize::Eight) && has_both(
        snapshots,
        RangeScope::Wide,
        RequestSize::ThirtyTwo,
    );
    proof {
        if all {
            assert forall|scope: RangeScope, size: RequestSize, io_mode: IoMode|
                #[trigger] lookup(snapshots@, scope, size, io_mode) is Some by {
                match io_mode {
                    IoMode::Sync => {},
                    IoMode::Async => {},
                }
                match size {
                    RequestSize::One => {},
                    RequestSize::Eight => {},
                    RequestSize::ThirtyTwo => {},
                }
                match scope {
                    RangeScope::Short => {},
                    RangeScope::Wide => {},
                }
            }
        }
    }
    all
}

impl RangeComparisons {
    /// These are the comparisons of the snapshots.
    pub open spec fn of(self, snapshots: Seq<RangeStageSnapshot>) -> bool {
        &&& self.sizes@ =~= seq![
            sizes_row(snapshots, RangeScope::Short, IoMode::Sync)->0,
            sizes_row(snapshots, RangeScope::Short, IoMode::Async)->0,
            sizes_row(snapshots, RangeScope::Wide, IoMode::Sync)->0,
            sizes_row(snapshots, RangeScope::Wide, IoMode::Async)->0,
        ]
        &&& self.modes@ =~= seq![
            modes_row(snapshots, RangeScope::Short, RequestSize::One)->0,
            modes_row(snapshots, RangeScope::Short, RequestSize::Eight)->0,
            modes_row(snapshots, RangeScope::Short, RequestSize::ThirtyTwo)->0,
            modes_row(snapshots, RangeScope::Wide, RequestSize::One)->0,
            modes_row(snapshots, RangeScope::Wide, RequestSize::Eight)->0,
            modes_row(snapshots, RangeScope::Wide, RequestSize::ThirtyTwo)->0,
        ]
        &&& self.causes@ =~= seq![
            causes_row(snapshots, RequestSize::One)->0,
            causes_row(snapshots, RequestSize::Eight)->0,
            causes_row(snapshots, RequestSize::ThirtyTwo)->0,
        ]
    }
}

/// Makes all comparisons: the sizes of requests for each range and way of
/// waiting, the ways of waiting for each range and size, and the ranges for each
/// size.
pub fn report_range_stage_comparisons(snapshots: &[RangeStageSnapshot]) -> (
    comparisons: RangeComparisons)
    requires
        complete(snapshots@),
    ensures
        comparisons.of(snapshots@),
{
    let mut sizes: Vec<RequestComparison> = Vec::new();
    push_sizes(&mut sizes, snapshots, RangeScope::Short, IoMode::Sync);
    push_sizes(&mut sizes, snapshots, RangeScope::Short, IoMode::Async);
    push_sizes(&mut sizes, snapshots, RangeScope::Wide, IoMode::Sync);
    push_sizes(&mut sizes, snapshots, RangeScope::Wide, IoMode::Async);
    let mut modes: Vec<AsyncComparison> = Vec::new();
    push_modes(&mut modes, snapshots, RangeScope::Short, RequestSize::One);
    push_modes(&mut modes, snapshots, RangeScope::Short, RequestSize::Eight);
    push_modes(&mut modes, snapshots, RangeScope::Short, RequestSize::ThirtyTwo);
    push_modes(&mut modes, snapshots, RangeScope::Wide, RequestSize::One);
    push_modes(&mut modes, snapshots, RangeScope::Wide, RequestSize::Eight);
    push_modes(&mut modes, snapshots, RangeScope::Wide, RequestSize::ThirtyTwo);
    let mut causes: Vec<RootCause> = Vec::new();
    push_causes(&mut causes, snapshots, RequestSize::One);
    push_causes(&mut causes, snapshots, RequestSize::Eight);
    push_causes(&mut causes, snapshots, RequestSize::ThirtyTwo);
    assert(sizes@ =~= seq![
        sizes_row(snapshots@, RangeScope::Short, IoMode::Sync)->0,
        sizes_row(snapshots@, RangeScope::Short, IoMode::Async)->0,
        sizes_row(snapshots@, RangeScope::Wide, IoMode::Sync)->0,
        sizes_row(snapshots@, RangeScope::Wide, IoMode::Async)->0,
    ]);
    RangeComparisons { sizes, modes, causes }
}

/// A row names the range, size and way of waiting that it was looked up for.
pub proof fn law_rows_are_of_their_case(
    snapshots: Seq<RangeStageSnapshot>,
    scope: RangeScope,
    size: RequestSize,
    io_mode: IoMode,
)
    ensures
        lookup(snapshots, scope, size, io_mode) matches Some(found) ==> snapshots.contains(found)
            && found.scope == scope && found.size == size && found.io_mode == io_mode,
    decreases snapshots.len(),
{
    if snapshots.len() > 0 {
        law_rows_are_of_their_case(snapshots.skip(1), scope, size, io_mode);
        if let Some(found) = lookup(snapshots, scope, size, io_mode) {
            if found != snapshots[0] {
                let i = choose|i: int| 0 <= i < snapshots.skip(1).len() && snapshots.skip(1)[i]
                    == found;
                assert(snapshots[i + 1] == found);
            }
        }
    }
}

} // verus!
