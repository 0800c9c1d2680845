//! The course of the read benchmark: which rounds run, in which order, and what
//! each must read.

use crate::bench::data::TEST_START_LBA;
use crate::bench::measure::{Case, MATRIX_LATENCY_SAMPLE_STRIDE, TEST_ROUNDS};
use crate::bench::range::{RangeScope, RequestSize};
use crate::bench::read::{
    ComputeMode, IoMode, ReadWorkload, RoundEnd, RoundPlan, TestFailure, WorkloadName,
};
use crate::io::{lemma_run_invariant, run, Machine, Step};
use crate::transfer::DMA_BUFFER_SIZE;
use vstd::prelude::*;

verus! {

/// Blocks of the short region that is read block by block.
pub const LEGACY_CONTROL_BLOCKS: usize = 256;

/// Blocks of the long region that is read block by block.
pub const SUSTAINED_DIAGNOSTIC_BLOCKS: usize = 16384;

/// Requests of a warm-up.
pub const WARMUP_REQUESTS: usize = 64;

/// End of the region that the benchmark reads.
pub const REQUIRED_END_LBA: u64 = 2_131_968;

/// Number of workloads of the matrix.
pub const WORKLOADS: usize = 3;

/// Workload of the matrix.
#[verifier::allow_in_spec]
pub fn workload(index: usize) -> ReadWorkload
    returns
        (if index == 0 {
            ReadWorkload {
                name: WorkloadName::Cmd17Control,
                request_blocks: 1,
                total_blocks: 4096,
            }
        } else if index == 1 {
            ReadWorkload { name: WorkloadName::Cmd18x8, request_blocks: 8, total_blocks: 32768 }
        } else {
            ReadWorkload { name: WorkloadName::Cmd18x32, request_blocks: 32, total_blocks: 32768 }
        }),
{
    if index == 0 {
        ReadWorkload { name: WorkloadName::Cmd17Control, request_blocks: 1, total_blocks: 4096 }
    } else if index == 1 {
        ReadWorkload { name: WorkloadName::Cmd18x8, request_blocks: 8, total_blocks: 32768 }
    } else {
        ReadWorkload { name: WorkloadName::Cmd18x32, request_blocks: 32, total_blocks: 32768 }
    }
}

/// Parts of the benchmark that consist of rounds.
#[derive(Clone, Copy, Debug, PartialEq, Eq, Structural)]
pub enum Diagnostic {
    /// The short region, block by block.
    Legacy,
    /// Both ranges, with requests of every size.
    Range,
    /// The long region, block by block, with and without timing each request.
    Sustained,
    /// A workload, with and without a computation beside it.
    Matrix(usize),
}

impl Diagnostic {
    /// Number of its rounds.
    #[verifier::allow_in_spec]
    pub fn rounds(self) -> usize
        returns
            (match self {
                Diagnostic::Legacy => 12usize,
                Diagnostic::Range => 62,
                Diagnostic::Sustained => 4,
                Diagnostic::Matrix(_) => 33,
            }),
    {
        match self {
            Diagnostic::Legacy => 12,
            Diagnostic::Range => 62,
            Diagnostic::Sustained => 4,
            Diagnostic::Matrix(_) => 33,
        }
    }

    /// The round is the first look at a region: what it reads is what the later
    /// rounds must read.
    #[verifier::allow_in_spec]
    pub fn is_reference(self, index: usize) -> bool
        returns
            index == 0 || (self == Diagnostic::Range && index == 31),
    {
        index == 0 || (self == Diagnostic::Range && index == 31)
    }
}

/// A round without a computation beside it.
#[verifier::allow_in_spec]
pub fn plain_round(
    workload: ReadWorkload,
    mode: IoMode,
    stride: Option<usize>,
    expected: Option<u64>,
) -> RoundPlan
    returns
        (RoundPlan { workload, mode, stride, staged: false, compute: None, expected }),
{
    RoundPlan { workload, mode, stride, staged: false, compute: None, expected }
}

/// The mode of a round that comes first or second: the order alternates.
#[verifier::allow_in_spec]
pub fn alternate(round: usize, second: bool) -> IoMode
    returns
        (if (round % 2 == 0) != second {
            IoMode::Sync
        } else {
            IoMode::Async
        }),
{
    if (round % 2 == 0) != second {
        IoMode::Sync
    } else {
        IoMode::Async
    }
}

/// The case at a position of a round. Polling and interrupts take turns in
/// coming first.
#[verifier::allow_in_spec]
pub fn case_at(round: usize, position: usize) -> Case
    returns
        (Case {
            io_mode: alternate(round, position % 2 == 1),
            compute_mode: (if position < 2 {
                None
            } else if position < 4 {
                Some(ComputeMode::NoYield)
            } else {
                Some(ComputeMode::YieldPerUnit)
            }),
        }),
{
    Case {
        io_mode: alternate(round, position % 2 == 1),
        compute_mode: if position < 2 {
            None
        } else if position < 4 {
            Some(ComputeMode::NoYield)
        } else {
            Some(ComputeMode::YieldPerUnit)
        },
    }
}

/// The rounds of the short region: two looks with large requests, then five
/// rounds of each way of waiting, block by block.
pub open spec fn legacy_round(index: usize, reference: u64) -> RoundPlan {
    let name = WorkloadName::LegacyCmd17;
    let large = ReadWorkload { name, request_blocks: 32, total_blocks: LEGACY_CONTROL_BLOCKS };
    let small = ReadWorkload { name, request_blocks: 1, total_blocks: LEGACY_CONTROL_BLOCKS };
    if index == 0 {
        plain_round(large, IoMode::Sync, None, None)
    } else if index == 1 {
        plain_round(large, IoMode::Sync, None, Some(reference))
    } else if index < 7 {
        plain_round(small, IoMode::Sync, None, Some(reference))
    } else {
        plain_round(small, IoMode::Async, None, Some(reference))
    }
}

/// Plans a round of the short region.
pub fn plan_legacy(index: usize, reference: u64) -> (plan: RoundPlan)
    ensures
        plan == legacy_round(index, reference),
{
    let name = WorkloadName::LegacyCmd17;
    let large = ReadWorkload { name, request_blocks: 32, total_blocks: LEGACY_CONTROL_BLOCKS };
    let small = ReadWorkload { name, request_blocks: 1, total_blocks: LEGACY_CONTROL_BLOCKS };
    if index == 0 {
        plain_round(large, IoMode::Sync, None, None)
    } else if index == 1 {
        plain_round(large, IoMode::Sync, None, Some(reference))
    } else if index < 7 {
        plain_round(small, IoMode::Sync, None, Some(reference))
    } else {
        plain_round(small, IoMode::Async, None, Some(reference))
    }
}

/// The rounds of the ranges: for each range one look, then for each size of
/// requests five rounds of both ways of waiting, in alternating order.
pub open spec fn range_round(index: usize, reference: u64) -> RoundPlan {
    let scope = if index < 31 {
        RangeScope::Short
    } else {
        RangeScope::Wide
    };
    let place: usize = index % 31;
    if place == 0 {
        plain_round(
            ReadWorkload {
                name: WorkloadName::RangeReference,
                request_blocks: 32,
                total_blocks: scope.total_blocks(),
            },
            IoMode::Sync,
            None,
            None,
        )
    } else {
        let size = if place < 11 {
            RequestSize::One
        } else if place < 21 {
            RequestSize::Eight
        } else {
            RequestSize::ThirtyTwo
        };
        let turn: usize = place.wrapping_sub(1) % 10;
        RoundPlan {
            workload: size.workload(scope),
            mode: alternate(turn / 2, turn % 2 == 1),
            stride: None,
            staged: true,
            compute: None,
            expected: Some(reference),
        }
    }
}

/// Plans a round of the ranges.
pub fn plan_range(index: usize, reference: u64) -> (plan: RoundPlan)
    ensures
        plan == range_round(index, reference),
{
    let scope = if index < 31 {
        RangeScope::Short
    } else {
        RangeScope::Wide
    };
    let place: usize = index % 31;
    if place == 0 {
        plain_round(
            ReadWorkload {
                name: WorkloadName::RangeReference,
                request_blocks: 32,
                total_blocks: scope.total_blocks(),
            },
            IoMode::Sync,
            None,
            None,
        )
    } else {
        let size = if place < 11 {
            RequestSize::One
        } else if place < 21 {
            RequestSize::Eight
        } else {
            RequestSize::ThirtyTwo
        };
        let turn: usize = place.wrapping_sub(1) % 10;
        RoundPlan {
            workload: size.workload(scope),
            mode: alternate(turn / 2, turn % 2 == 1),
            stride: None,
            staged: true,
            compute: None,
            expected: Some(reference),
        }
    }
}

/// The rounds of the long region: without timing each request, twice with it,
/// and again without.
pub open spec fn sustained_round(index: usize, reference: u64) -> RoundPlan {
    plain_round(
        ReadWorkload {
            name: WorkloadName::SustainedCmd17,
            request_blocks: 1,
            total_blocks: SUSTAINED_DIAGNOSTIC_BLOCKS,
        },
        IoMode::Sync,
        if index == 1 || index == 2 {
            Some(1)
        } else {
            None
        },
        if index == 0 {
            None
        } else {
            Some(reference)
        },
    )
}

/// Plans a round of the long region.
pub fn plan_sustained(index: usize, reference: u64) -> (plan: RoundPlan)
    ensures
        plan == sustained_round(index, reference),
{
    plain_round(
        ReadWorkload {
            name: WorkloadName::SustainedCmd17,
            request_blocks: 1,
            total_blocks: SUSTAINED_DIAGNOSTIC_BLOCKS,
        },
        IoMode::Sync,
        if index == 1 || index == 2 {
            Some(1)
        } else {
            None
        },
        if index == 0 {
            None
        } else {
            Some(reference)
        },
    )
}

/// The rounds of a workload: one look, a warm-up of each way of waiting, and then
/// five times all six cases.
pub open spec fn matrix_round(
    workload: ReadWorkload,
    index: usize,
    reference: u64,
    warm: u64,
) -> RoundPlan {
    let warmup = workload.with_total_blocks(workload.request_blocks.wrapping_mul(WARMUP_REQUESTS));
    if index == 0 {
        plain_round(workload, IoMode::Sync, None, None)
    } else if index == 1 {
        plain_round(warmup, IoMode::Sync, None, None)
    } else if index == 2 {
        plain_round(warmup, IoMode::Async, None, Some(warm))
    } else {
        let place: usize = index.wrapping_sub(3);
        let case = case_at(place / 6, place % 6);
        RoundPlan {
            workload,
            mode: case.io_mode,
            stride: Some(MATRIX_LATENCY_SAMPLE_STRIDE),
            staged: false,
            compute: case.compute_mode,
            expected: Some(reference),
        }
    }
}

/// Plans a round of a workload.
pub fn plan_matrix(
    workload: ReadWorkload,
    index: usize,
    reference: u64,
    warm: u64,
) -> (plan: RoundPlan)
    ensures
        plan == matrix_round(workload, index, reference, warm),
{
    let warmup = workload.with_total_blocks(workload.request_blocks.wrapping_mul(WARMUP_REQUESTS));
    if index == 0 {
        plain_round(workload, IoMode::Sync, None, None)
    } else if index == 1 {
        plain_round(warmup, IoMode::Sync, None, None)
    } else if index == 2 {
        plain_round(warmup, IoMode::Async, None, Some(warm))
    } else {
        let place: usize = index.wrapping_sub(3);
        let case = case_at(place / 6, place % 6);
        RoundPlan {
            workload,
            mode: case.io_mode,
            stride: Some(MATRIX_LATENCY_SAMPLE_STRIDE),
            staged: false,
            compute: case.compute_mode,
            expected: Some(reference),
        }
    }
}

/// A part of the benchmark that runs round by round.
#[derive(Clone, Copy, Debug, PartialEq, Eq, Structural)]
pub struct Schedule {
    /// The part.
    pub diagnostic: Diagnostic,
    /// Number of the current round.
    pub index: usize,
    /// Checksum of the last first look.
    pub reference: u64,
    /// Checksum of the last warm-up.
    pub warm: u64,
}

impl Schedule {
    /// A part that is about to begin.
    #[verifier::allow_in_spec]
    pub fn new(diagnostic: Diagnostic) -> Schedule
        returns
            (Schedule { diagnostic, index: 0, reference: 0, warm: 0 }),
    {
        Schedule { diagnostic, index: 0, reference: 0, warm: 0 }
    }

    /// The current round.
    pub open spec fn plan(self) -> RoundPlan {
        match self.diagnostic {
            Diagnostic::Legacy => legacy_round(self.index, self.reference),
            Diagnostic::Range => range_round(self.index, self.reference),
            Diagnostic::Sustained => sustained_round(self.index, self.reference),
            Diagnostic::Matrix(k) => matrix_round(
                workload(k),
                self.index,
                self.reference,
                self.warm,
            ),
        }
    }

    /// Plans the current round.
    pub fn current(self) -> (plan: RoundPlan)
        ensures
            plan == self.plan(),
    {
        match self.diagnostic {
            Diagnostic::Legacy => plan_legacy(self.index, self.reference),
            Diagnostic::Range => plan_range(self.index, self.reference),
            Diagnostic::Sustained => plan_sustained(self.index, self.reference),
            Diagnostic::Matrix(k) => plan_matrix(
                workload(k),
                self.index,
                self.reference,
                self.warm,
            ),
        }
    }

    /// What the end of the current round makes of the part: a failure ends it.
    pub open spec fn after(
        self,
        result: Result<RoundEnd, TestFailure>,
    ) -> Step<Schedule, Result<(), TestFailure>> {
        match result {
            Err(failure) => Step::Done(Err(failure)),
            Ok(end) => if self.index.wrapping_add(1) >= self.diagnostic.rounds() {
                Step::Done(Ok(()))
            } else {
                Step::Next(
                    Schedule {
                        diagnostic: self.diagnostic,
                        index: self.index.wrapping_add(1),
                        reference: if self.diagnostic.is_reference(self.index) {
                            end.checksum
                        } else {
                            self.reference
                        },
                        warm: end.checksum,
                    },
                )
            },
        }
    }

    /// Takes the end of the current round.
    pub fn advance(
        self,
        result: Result<RoundEnd, TestFailure>,
    ) -> (step: Step<Schedule, Result<(), TestFailure>>)
        ensures
            step == self.after(result),
    {
        match result {
            Err(failure) => Step::Done(Err(failure)),
            Ok(end) => if self.index.wrapping_add(1) >= self.diagnostic.rounds() {
                Step::Done(Ok(()))
            } else {
                Step::Next(
                    Schedule {
                        diagnostic: self.diagnostic,
                        index: self.index.wrapping_add(1),
                        reference: if self.diagnostic.is_reference(self.index) {
                            end.checksum
                        } else {
                            self.reference
                        },
                        warm: end.checksum,
                    },
                )
            },
        }
    }
}

/// What the benchmark asks for.
#[derive(Clone, Copy, Debug, PartialEq, Eq, Structural)]
pub enum BenchAct {
    /// Tell what the machine looks like.
    Environment,
    /// Run a round.
    Round(RoundPlan),
    /// Run a computation alone.
    Baseline {
        /// Number of its round, from 0 on.
        round: usize,
        /// Its mode.
        mode: ComputeMode,
    },
    /// Report a part.
    Report(ReportKind),
}

/// What is reported.
#[derive(Clone, Copy, Debug, PartialEq, Eq, Structural)]
pub enum ReportKind {
    /// The rounds of a part.
    Rounds(Diagnostic),
    /// The computations that ran alone.
    Baselines,
}

/// What comes back.
#[derive(Clone, Copy, Debug, PartialEq, Eq)]
pub enum BenchEvent {
    /// It was done.
    Done,
    /// What the machine looks like.
    Environment {
        /// Processors.
        cpu_count: usize,
        /// Blocks of the card.
        card_blocks: u64,
        /// Bytes of the transfer buffer, 0 without one.
        dma_size: usize,
    },
    /// How the round went.
    Round(Result<RoundEnd, TestFailure>),
}

impl BenchEvent {
    /// How the round went. Without an answer it failed.
    #[verifier::allow_in_spec]
    pub fn round(self) -> Result<RoundEnd, TestFailure>
        returns
            (match self {
                BenchEvent::Round(result) => result,
                _ => Err(
                    TestFailure::InvalidEnvironment {
                        cpu_count: 0,
                        card_blocks: 0,
                        required_end_lba: REQUIRED_END_LBA,
                        dma_ready: false,
                    },
                ),
            }),
    {
        match self {
            BenchEvent::Round(result) => result,
            _ => Err(
                TestFailure::InvalidEnvironment {
                    cpu_count: 0,
                    card_blocks: 0,
                    required_end_lba: REQUIRED_END_LBA,
                    dma_ready: false,
                },
            ),
        }
    }

    /// What keeps the benchmark from running: it needs a single processor, a card
    /// that holds the whole region, and a transfer buffer for the largest request.
    pub open spec fn obstacle(self) -> Option<TestFailure> {
        let (cpu_count, card_blocks, dma_ready): (usize, u64, bool) = match self {
            BenchEvent::Environment { cpu_count, card_blocks, dma_size } => (
                cpu_count,
                card_blocks,
                dma_size >= DMA_BUFFER_SIZE,
            ),
            _ => (0, 0, false),
        };
        if cpu_count != 1 || REQUIRED_END_LBA > card_blocks || !dma_ready {
            Some(
                TestFailure::InvalidEnvironment {
                    cpu_count,
                    card_blocks,
                    required_end_lba: REQUIRED_END_LBA,
                    dma_ready,
                },
            )
        } else {
            None
        }
    }

    /// Checks what the machine looks like.
    pub fn check(self) -> (obstacle: Option<TestFailure>)
        ensures
            obstacle == self.obstacle(),
    {
        let (cpu_count, card_blocks, dma_ready): (usize, u64, bool) = match self {
            BenchEvent::Environment { cpu_count, card_blocks, dma_size } => (
                cpu_count,
                card_blocks,
                dma_size >= DMA_BUFFER_SIZE,
            ),
            _ => (0, 0, false),
        };
        if cpu_count != 1 || REQUIRED_END_LBA > card_blocks || !dma_ready {
            Some(
                TestFailure::InvalidEnvironment {
                    cpu_count,
                    card_blocks,
                    required_end_lba: REQUIRED_END_LBA,
                    dma_ready,
                },
            )
        } else {
            None
        }
    }
}

/// Where the benchmark stands.
#[derive(Clone, Copy, Debug, PartialEq, Eq, Structural)]
pub enum BenchPhase {
    /// The machine is looked at.
    Environment,
    /// The rounds of a part run.
    Rounds(Schedule),
    /// The computations run alone; this one is next.
    Baseline(usize),
    /// A part is reported.
    Report(ReportKind),
}

/// The read benchmark.
#[derive(Clone, Copy, Debug, PartialEq, Eq, Structural)]
pub struct ReadBench {
    /// Where it stands.
    pub phase: BenchPhase,
}

impl ReadBench {
    /// The benchmark that is about to begin.
    #[verifier::allow_in_spec]
    pub fn new() -> ReadBench
        returns
            (ReadBench { phase: BenchPhase::Environment }),
    {
        ReadBench { phase: BenchPhase::Environment }
    }

    /// The benchmark in another phase.
    #[verifier::allow_in_spec]
    pub fn at(phase: BenchPhase) -> Step<ReadBench, Result<(), TestFailure>>
        returns
            (Step::<ReadBench, Result<(), TestFailure>>::Next(ReadBench { phase })),
    {
        Step::Next(ReadBench { phase })
    }
}

/// The mode of a computation that runs alone: the order alternates.
#[verifier::allow_in_spec]
pub fn baseline_mode(index: usize) -> ComputeMode
    returns
        (if index % 4 == 0 || index % 4 == 3 {
            ComputeMode::NoYield
        } else {
            ComputeMode::YieldPerUnit
        }),
{
    if index % 4 == 0 || index % 4 == 3 {
        ComputeMode::NoYield
    } else {
        ComputeMode::YieldPerUnit
    }
}

impl Machine for ReadBench {
    type Act = BenchAct;

    type Event = BenchEvent;

    type Out = Result<(), TestFailure>;

    open spec fn op(self) -> BenchAct {
        match self.phase {
            BenchPhase::Environment => BenchAct::Environment,
            BenchPhase::Rounds(schedule) => BenchAct::Round(schedule.plan()),
            BenchPhase::Baseline(index) => BenchAct::Baseline {
                round: index / 2,
                mode: baseline_mode(index),
            },
            BenchPhase::Report(kind) => BenchAct::Report(kind),
        }
    }

    fn request(&self) -> (op: BenchAct) {
        match self.phase {
            BenchPhase::Environment => BenchAct::Environment,
            BenchPhase::Rounds(schedule) => BenchAct::Round(schedule.current()),
            BenchPhase::Baseline(index) => BenchAct::Baseline {
                round: index / 2,
                mode: baseline_mode(index),
            },
            BenchPhase::Report(kind) => BenchAct::Report(kind),
        }
    }

    open spec fn next(self, reply: BenchEvent) -> Step<ReadBench, Result<(), TestFailure>> {
        match self.phase {
            BenchPhase::Environment => match reply.obstacle() {
                Some(failure) => Step::Done(Err(failure)),
                None => ReadBench::at(BenchPhase::Rounds(Schedule::new(Diagnostic::Legacy))),
            },
            BenchPhase::Rounds(schedule) => match schedule.after(reply.round()) {
                Step::Next(later) => ReadBench::at(BenchPhase::Rounds(later)),
                Step::Done(Ok(_)) => ReadBench::at(
                    BenchPhase::Report(ReportKind::Rounds(schedule.diagnostic)),
                ),
                Step::Done(Err(failure)) => Step::Done(Err(failure)),
            },
            BenchPhase::Baseline(index) => if index.wrapping_add(1) < 2 * TEST_ROUNDS {
                ReadBench::at(BenchPhase::Baseline(index.wrapping_add(1)))
            } else {
                ReadBench::at(BenchPhase::Report(ReportKind::Baselines))
            },
            BenchPhase::Report(kind) => match kind {
                ReportKind::Rounds(Diagnostic::Legacy) => ReadBench::at(
                    BenchPhase::Rounds(Schedule::new(Diagnostic::Range)),
                ),
                ReportKind::Rounds(Diagnostic::Range) => ReadBench::at(
                    BenchPhase::Rounds(Schedule::new(Diagnostic::Sustained)),
                ),
                ReportKind::Rounds(Diagnostic::Sustained) => ReadBench::at(
                    BenchPhase::Baseline(0),
                ),
                ReportKind::Baselines => ReadBench::at(
                    BenchPhase::Rounds(Schedule::new(Diagnostic::Matrix(0))),
                ),
                ReportKind::Rounds(Diagnostic::Matrix(k)) => if k.wrapping_add(1) < WORKLOADS {
                    ReadBench::at(
                        BenchPhase::Rounds(
                            Schedule::new(Diagnostic::Matrix(k.wrapping_add(1))),
                        ),
                    )
                } else {
                    Step::Done(Ok(()))
                },
            },
        }
    }

    fn step(self, reply: BenchEvent) -> (step: Step<ReadBench, Result<(), TestFailure>>) {
        match self.phase {
            BenchPhase::Environment => match reply.check() {
                Some(failure) => Step::Done(Err(failure)),
                None => ReadBench::at(BenchPhase::Rounds(Schedule::new(Diagnostic::Legacy))),
            },
            BenchPhase::Rounds(schedule) => match schedule.advance(reply.round()) {
                Step::Next(later) => ReadBench::at(BenchPhase::Rounds(later)),
                Step::Done(Ok(_)) => ReadBench::at(
                    BenchPhase::Report(ReportKind::Rounds(schedule.diagnostic)),
                ),
                Step::Done(Err(failure)) => Step::Done(Err(failure)),
            },
            BenchPhase::Baseline(index) => if index.wrapping_add(1) < 2 * TEST_ROUNDS {
                ReadBench::at(BenchPhase::Baseline(index.wrapping_add(1)))
            } else {
                ReadBench::at(BenchPhase::Report(ReportKind::Baselines))
            },
            BenchPhase::Report(kind) => match kind {
                ReportKind::Rounds(Diagnostic::Legacy) => ReadBench::at(
                    BenchPhase::Rounds(Schedule::new(Diagnostic::Range)),
                ),
                ReportKind::Rounds(Diagnostic::Range) => ReadBench::at(
                    BenchPhase::Rounds(Schedule::new(Diagnostic::Sustained)),
                ),
                ReportKind::Rounds(Diagnostic::Sustained) => ReadBench::at(
                    BenchPhase::Baseline(0),
                ),
                ReportKind::Baselines => ReadBench::at(
                    BenchPhase::Rounds(Schedule::new(Diagnostic::Matrix(0))),
                ),
                ReportKind::Rounds(Diagnostic::Matrix(k)) => if k.wrapping_add(1) < WORKLOADS {
                    ReadBench::at(
                        BenchPhase::Rounds(
                            Schedule::new(Diagnostic::Matrix(k.wrapping_add(1))),
                        ),
                    )
                } else {
                    Step::Done(Ok(()))
                },
            },
        }
    }
}

/// In each round every case of a workload runs exactly once.
pub proof fn law_each_case_once_per_round(round: usize, case: Case)
    ensures
        exists|position: usize| position < 6 && #[trigger] case_at(round, position) == case,
        forall|p: usize, q: usize|
            p < 6 && q < 6 && #[trigger] case_at(round, p) == #[trigger] case_at(round, q) ==> p
                == q,
{
    let pair = match case.compute_mode {
        None => 0usize,
        Some(ComputeMode::NoYield) => 2usize,
        Some(ComputeMode::YieldPerUnit) => 4usize,
    };
    let first = alternate(round, false);
    let position = if case.io_mode == first {
        pair
    } else {
        (pair + 1) as usize
    };
    assert(case_at(round, position) == case);
    assert forall|p: usize, q: usize|
        p < 6 && q < 6 && #[trigger] case_at(round, p) == #[trigger] case_at(
            round,
            q,
        ) implies p == q by {
        assert(p % 2 == q % 2);
        assert((p < 2) == (q < 2));
        assert((p < 4) == (q < 4));
    }
}

/// Place of a round of the ranges.
pub open spec fn range_place(
    scope: RangeScope,
    size: RequestSize,
    round: usize,
    mode: IoMode,
) -> usize {
    ((match scope {
        RangeScope::Short => 1int,
        RangeScope::Wide => 32,
    }) + (match size {
        RequestSize::One => 0int,
        RequestSize::Eight => 10,
        RequestSize::ThirtyTwo => 20,
    }) + 2 * round + (if alternate(round, false) == mode {
        0int
    } else {
        1int
    })) as usize
}

/// Each range is read in five rounds with requests of every size, both by
/// polling and with interrupts, and the stages of all these rounds are timed.
pub proof fn law_each_range_is_read_in_every_way(
    scope: RangeScope,
    size: RequestSize,
    round: usize,
    mode: IoMode,
    reference: u64,
)
    requires
        round < TEST_ROUNDS,
    ensures
        range_place(scope, size, round, mode) < Diagnostic::Range.rounds(),
        range_round(range_place(scope, size, round, mode), reference) == (RoundPlan {
            workload: size.workload(scope),
            mode,
            stride: None,
            staged: true,
            compute: None,
            expected: Some(reference),
        }),
{
    let place = range_place(scope, size, round, mode);
    let turn = (place % 31 - 1) % 10;
    vstd::arithmetic::div_mod::lemma_small_mod((place % 31 - 1) as nat, usize::MAX as nat + 1);
    assert(turn / 2 == round);
}

/// Rounds of the benchmark before a phase.
pub open spec fn rounds_before(phase: BenchPhase) -> int {
    match phase {
        BenchPhase::Environment => 0,
        BenchPhase::Rounds(schedule) => schedule.index + (match schedule.diagnostic {
            Diagnostic::Legacy => 0int,
            Diagnostic::Range => 12,
            Diagnostic::Sustained => 74,
            Diagnostic::Matrix(k) => 78 + 33 * k as int,
        }),
        BenchPhase::Baseline(_) => 78,
        BenchPhase::Report(kind) => match kind {
            ReportKind::Rounds(Diagnostic::Legacy) => 12,
            ReportKind::Rounds(Diagnostic::Range) => 74,
            ReportKind::Rounds(Diagnostic::Sustained) => 78,
            ReportKind::Baselines => 78,
            ReportKind::Rounds(Diagnostic::Matrix(k)) => 111 + 33 * k as int,
        },
    }
}

/// The rounds of a trace.
pub open spec fn rounds(trace: Seq<(BenchAct, BenchEvent)>) -> int
    decreases trace.len(),
{
    if trace.len() == 0 {
        0
    } else {
        rounds(trace.drop_last()) + (if trace.last().0 is Round {
            1int
        } else {
            0int
        })
    }
}

/// Every round of a trace succeeded.
pub open spec fn all_succeeded(trace: Seq<(BenchAct, BenchEvent)>) -> bool
    decreases trace.len(),
{
    trace.len() == 0 || (all_succeeded(trace.drop_last()) && (trace.last().0 is Round
        ==> trace.last().1.round() is Ok))
}

/// The machine was looked at first and nothing speaks against the benchmark.
pub open spec fn admitted(trace: Seq<(BenchAct, BenchEvent)>) -> bool {
    trace.len() > 0 && trace[0].0 is Environment && trace[0].1.obstacle() is None
}

spec fn bench_invariant(
    trace: Seq<(BenchAct, BenchEvent)>,
    at: Step<ReadBench, Result<(), TestFailure>>,
) -> bool {
    match at {
        Step::Next(m) => {
            &&& rounds(trace) == rounds_before(m.phase)
            &&& all_succeeded(trace)
            &&& m.phase is Environment ==> trace.len() == 0
            &&& !(m.phase is Environment) ==> admitted(trace)
            &&& m.phase matches BenchPhase::Rounds(schedule) ==> {
                &&& schedule.index < schedule.diagnostic.rounds()
                &&& schedule.diagnostic matches Diagnostic::Matrix(k) ==> k < WORKLOADS
            }
            &&& m.phase matches BenchPhase::Baseline(index) ==> index < 10
            &&& m.phase matches BenchPhase::Report(ReportKind::Rounds(Diagnostic::Matrix(k)))
                ==> k < WORKLOADS
        },
        Step::Done(Ok(_)) => {
            &&& rounds(trace) == 177
            &&& all_succeeded(trace)
            &&& admitted(trace)
        },
        Step::Done(Err(_)) => true,
    }
}

proof fn lemma_bench_step(
    trace: Seq<(BenchAct, BenchEvent)>,
    m: ReadBench,
    reply: BenchEvent,
)
    requires
        bench_invariant(trace, Step::Next(m)),
    ensures
        bench_invariant(trace.push((m.op(), reply)), m.next(reply)),
{
    let after = trace.push((m.op(), reply));
    assert(after.drop_last() =~= trace);
    assert(after[0] == if trace.len() == 0 {
        (m.op(), reply)
    } else {
        trace[0]
    });
}

/// The benchmark reads nothing unless the machine suits it. It passes only if
/// all of its 177 rounds have succeeded.
pub proof fn law_bench_passes_only_when_complete(replies: Seq<BenchEvent>)
    ensures
        ({
            let done = run(Step::Next(ReadBench::new()), replies);
            &&& rounds(done.trace) > 0 ==> admitted(done.trace)
            &&& done.at matches Step::Done(Ok(_)) ==> {
                &&& rounds(done.trace) == 177
                &&& all_succeeded(done.trace)
                &&& admitted(done.trace)
            }
        }),
{
    let start = Step::<ReadBench, Result<(), TestFailure>>::Next(ReadBench::new());
    let inv = |
        trace: Seq<(BenchAct, BenchEvent)>,
        at: Step<ReadBench, Result<(), TestFailure>>,
    |
        bench_invariant(trace, at) && (rounds(trace) > 0 ==> admitted(trace));
    assert forall|trace: Seq<(BenchAct, BenchEvent)>, m: ReadBench, reply: BenchEvent|
        inv(trace, Step::Next(m)) implies #[trigger] inv(
        trace.push((m.op(), reply)),
        m.next(reply),
    ) by {
        lemma_bench_step(trace, m, reply);
        let after = trace.push((m.op(), reply));
        assert(after.drop_last() =~= trace);
        if trace.len() > 0 {
            assert(after[0] == trace[0]);
        }
    }
    lemma_run_invariant(start, replies, inv);
}

/// Every later round of a part must read what the first look at its region read.
pub proof fn law_rounds_compare_with_the_first_look(schedule: Schedule)
    requires
        schedule.index < schedule.diagnostic.rounds(),
        !schedule.diagnostic.is_reference(schedule.index),
        schedule.diagnostic is Matrix ==> schedule.index > 2,
    ensures
        schedule.plan().expected == Some(schedule.reference),
{
}

/// Every round stays within the region that the card must hold, and its workload
/// is well formed.
pub proof fn law_rounds_stay_in_the_region(schedule: Schedule)
    requires
        schedule.index < schedule.diagnostic.rounds(),
    ensures
        schedule.plan().workload.wf(),
        TEST_START_LBA + schedule.plan().workload.total_blocks <= REQUIRED_END_LBA,
{
    if let Diagnostic::Matrix(k) = schedule.diagnostic {
        let b = workload(k).request_blocks;
        vstd::arithmetic::div_mod::lemma_small_mod((b * 64) as nat, usize::MAX as nat + 1);
    }
}

} // verus!
