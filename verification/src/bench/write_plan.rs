//! The course of the write benchmark.

use crate::bench::data::TEST_START_LBA;
use crate::bench::measure::{Case, TEST_ROUNDS};
use crate::bench::read_plan::{baseline_mode, case_at};
use crate::bench::write::{
    ComputePlace, RestoreRegion, RestoreStage, WriteAct, WriteCase, WriteFailure, WriteReply,
    WriteWorkload, TEST_REGION_BYTES,
};
use crate::bench::write_measure::WriteRun;
use crate::io::{Machine, Step};
use crate::transfer::DMA_BUFFER_SIZE;
use vstd::prelude::*;

verus! {

/// End of the region that the benchmark writes.
pub const WRITE_END_LBA: u64 = 2_099_264;

impl WriteReply {
    /// What keeps the benchmark from running: it needs a single processor, a card
    /// that holds the whole region, a transfer buffer for the largest request and a
    /// driver that is in order.
    pub open spec fn obstacle(self) -> Option<WriteFailure> {
        let (cpu_count, card_blocks, dma_ready, driver_faulted): (usize, u64, bool, bool) =
            match self {
            WriteReply::Environment { cpu_count, card_blocks, dma_size, driver_faulted } => (
                cpu_count,
                card_blocks,
                dma_size >= DMA_BUFFER_SIZE,
                driver_faulted,
            ),
            _ => (0, 0, false, true),
        };
        if cpu_count != 1 || WRITE_END_LBA > card_blocks || !dma_ready || driver_faulted {
            Some(
                WriteFailure::InvalidEnvironment {
                    cpu_count,
                    card_blocks,
                    required_end_lba: WRITE_END_LBA,
                    dma_ready,
                    driver_faulted,
                },
            )
        } else {
            None
        }
    }

    /// Checks what the machine looks like.
    pub fn check(self) -> (obstacle: Option<WriteFailure>)
        ensures
            obstacle == self.obstacle(),
    {
        let (cpu_count, card_blocks, dma_ready, driver_faulted): (usize, u64, bool, bool) =
            match self {
            WriteReply::Environment { cpu_count, card_blocks, dma_size, driver_faulted } => (
                cpu_count,
                card_blocks,
                dma_size >= DMA_BUFFER_SIZE,
                driver_faulted,
            ),
            _ => (0, 0, false, true),
        };
        if cpu_count != 1 || WRITE_END_LBA > card_blocks || !dma_ready || driver_faulted {
            Some(
                WriteFailure::InvalidEnvironment {
                    cpu_count,
                    card_blocks,
                    required_end_lba: WRITE_END_LBA,
                    dma_ready,
                    driver_faulted,
                },
            )
        } else {
            None
        }
    }
}

/// Where the benchmark stands.
#[derive(Clone, Copy, Debug, PartialEq, Eq)]
pub enum WriteBenchPhase {
    /// The machine is looked at.
    Environment,
    /// The region is saved.
    Backup,
    /// The region is read again.
    Verify,
    /// What was read is compared.
    Compare,
    /// The computations run alone; this one is next.
    Baseline(usize),
    /// They are reported.
    ReportBaselines,
    /// A case of a workload runs.
    Case(WriteWorkload, usize, WriteCase),
    /// Its results are kept.
    Keep(WriteWorkload, usize, WriteRun, u64),
    /// A workload is reported.
    Report(WriteWorkload),
    /// The region is put back in order.
    Final(RestoreRegion, Result<(), WriteFailure>),
}

/// The write benchmark.
#[derive(Clone, Copy, Debug, PartialEq, Eq)]
pub struct WriteBench {
    /// Where it stands.
    pub phase: WriteBenchPhase,
}

/// The case at a place of a workload.
#[verifier::allow_in_spec]
pub fn write_case_at(index: usize) -> Case
    returns
        case_at((index / 6) as usize, (index % 6) as usize),
{
    case_at(index / 6, index % 6)
}

/// Number of the round of a place of a workload, from 1 on.
#[verifier::allow_in_spec]
pub fn write_round_at(index: usize) -> usize
    returns
        ((index / 6) as usize).wrapping_add(1),
{
    (index / 6).wrapping_add(1)
}

impl WriteBench {
    /// The benchmark that is about to begin.
    #[verifier::allow_in_spec]
    pub fn new() -> WriteBench
        returns
            (WriteBench { phase: WriteBenchPhase::Environment }),
    {
        WriteBench { phase: WriteBenchPhase::Environment }
    }

    /// The benchmark in another phase.
    #[verifier::allow_in_spec]
    pub fn at(phase: WriteBenchPhase) -> Step<WriteBench, Result<(), WriteFailure>>
        returns
            (Step::<WriteBench, Result<(), WriteFailure>>::Next(WriteBench { phase })),
    {
        Step::Next(WriteBench { phase })
    }

    /// The region is put back in order, whatever the result is.
    #[verifier::allow_in_spec]
    pub fn closing(result: Result<(), WriteFailure>) -> Step<
        WriteBench,
        Result<(), WriteFailure>,
    >
        returns
            WriteBench::at(
                WriteBenchPhase::Final(RestoreRegion::new(RestoreStage::Final), result),
            ),
    {
        WriteBench::at(WriteBenchPhase::Final(RestoreRegion::new(RestoreStage::Final), result))
    }

    /// A case of a workload begins.
    #[verifier::allow_in_spec]
    pub fn at_case(workload: WriteWorkload, index: usize) -> Step<
        WriteBench,
        Result<(), WriteFailure>,
    >
        returns
            WriteBench::at(
                WriteBenchPhase::Case(
                    workload,
                    index,
                    WriteCase::new(workload, write_round_at(index), write_case_at(index)),
                ),
            ),
    {
        WriteBench::at(
            WriteBenchPhase::Case(
                workload,
                index,
                WriteCase::new(workload, write_round_at(index), write_case_at(index)),
            ),
        )
    }
}

impl Machine for WriteBench {
    type Act = WriteAct;

    type Event = WriteReply;

    type Out = Result<(), WriteFailure>;

    open spec fn op(self) -> WriteAct {
        match self.phase {
            WriteBenchPhase::Environment => WriteAct::Environment,
            WriteBenchPhase::Backup => WriteAct::ReadBackup {
                lba: TEST_START_LBA,
                len: TEST_REGION_BYTES,
            },
            WriteBenchPhase::Verify => WriteAct::ReadRegion {
                lba: TEST_START_LBA,
                len: TEST_REGION_BYTES,
            },
            WriteBenchPhase::Compare => WriteAct::CompareBackup,
            WriteBenchPhase::Baseline(index) => WriteAct::Baseline {
                round: index / 2,
                compute: baseline_mode(index),
            },
            WriteBenchPhase::ReportBaselines => WriteAct::ReportBaselines,
            WriteBenchPhase::Case(_, _, case) => case.op(),
            WriteBenchPhase::Keep(workload, index, run, checksum) => WriteAct::Keep {
                workload,
                round: write_round_at(index),
                case: write_case_at(index),
                run,
                checksum,
            },
            WriteBenchPhase::Report(workload) => WriteAct::Report(workload),
            WriteBenchPhase::Final(restore, _) => restore.op(),
        }
    }

    fn request(&self) -> (op: WriteAct) {
        match self.phase {
            WriteBenchPhase::Environment => WriteAct::Environment,
            WriteBenchPhase::Backup => WriteAct::ReadBackup {
                lba: TEST_START_LBA,
                len: TEST_REGION_BYTES,
            },
            WriteBenchPhase::Verify => WriteAct::ReadRegion {
                lba: TEST_START_LBA,
                len: TEST_REGION_BYTES,
            },
            WriteBenchPhase::Compare => WriteAct::CompareBackup,
            WriteBenchPhase::Baseline(index) => WriteAct::Baseline {
                round: index / 2,
                compute: baseline_mode(index),
            },
            WriteBenchPhase::ReportBaselines => WriteAct::ReportBaselines,
            WriteBenchPhase::Case(_, _, case) => case.request(),
            WriteBenchPhase::Keep(workload, index, run, checksum) => WriteAct::Keep {
                workload,
                round: write_round_at(index),
                case: write_case_at(index),
                run,
                checksum,
            },
            WriteBenchPhase::Report(workload) => WriteAct::Report(workload),
            WriteBenchPhase::Final(restore, _) => restore.request(),
        }
    }

    open spec fn next(self, reply: WriteReply) -> Step<WriteBench, Result<(), WriteFailure>> {
        match self.phase {
            WriteBenchPhase::Environment => match reply.obstacle() {
                Some(failure) => Step::Done(Err(failure)),
                None => WriteBench::at(WriteBenchPhase::Backup),
            },
            WriteBenchPhase::Backup => match reply.outcome() {
                Err(error) => Step::Done(Err(WriteFailure::BackupIo(error))),
                Ok(_) => WriteBench::at(WriteBenchPhase::Verify),
            },
            WriteBenchPhase::Verify => match reply.outcome() {
                Err(error) => Step::Done(Err(WriteFailure::BackupIo(error))),
                Ok(_) => WriteBench::at(WriteBenchPhase::Compare),
            },
            WriteBenchPhase::Compare => if reply.comparison().same {
                WriteBench::at(WriteBenchPhase::Baseline(0))
            } else {
                Step::Done(Err(WriteFailure::BackupMismatch))
            },
            WriteBenchPhase::Baseline(index) => if !reply.compute().window_completed {
                WriteBench::closing(
                    Err(
                        WriteFailure::ComputeWindow {
                            place: ComputePlace::Baseline(baseline_mode(index)),
                            elapsed_ns: reply.compute().elapsed_ns,
                        },
                    ),
                )
            } else if index.wrapping_add(1) < 2 * TEST_ROUNDS {
                WriteBench::at(WriteBenchPhase::Baseline(index.wrapping_add(1)))
            } else {
                WriteBench::at(WriteBenchPhase::ReportBaselines)
            },
            WriteBenchPhase::ReportBaselines => WriteBench::at_case(WriteWorkload::Cmd24, 0),
            WriteBenchPhase::Case(workload, index, case) => match case.next(reply) {
                Step::Next(later) => WriteBench::at(WriteBenchPhase::Case(workload, index, later)),
                Step::Done(Ok((run, checksum))) => WriteBench::at(
                    WriteBenchPhase::Keep(workload, index, run, checksum),
                ),
                Step::Done(Err(failure)) => WriteBench::closing(Err(failure)),
            },
            WriteBenchPhase::Keep(workload, index, _, _) => if index.wrapping_add(1) < 6
                * TEST_ROUNDS {
                WriteBench::at_case(workload, index.wrapping_add(1))
            } else {
                WriteBench::at(WriteBenchPhase::Report(workload))
            },
            WriteBenchPhase::Report(workload) => match workload {
                WriteWorkload::Cmd24 => WriteBench::at_case(WriteWorkload::Cmd25x8, 0),
                WriteWorkload::Cmd25x8 => WriteBench::at_case(WriteWorkload::Cmd25x32, 0),
                WriteWorkload::Cmd25x32 => WriteBench::closing(Ok(())),
            },
            WriteBenchPhase::Final(restore, result) => match restore.next(reply) {
                Step::Next(later) => WriteBench::at(WriteBenchPhase::Final(later, result)),
                Step::Done(Err(failure)) => Step::Done(Err(failure)),
                Step::Done(Ok(_)) => Step::Done(result),
            },
        }
    }

    fn step(self, reply: WriteReply) -> (step: Step<WriteBench, Result<(), WriteFailure>>) {
        match self.phase {
            WriteBenchPhase::Environment => match reply.check() {
                Some(failure) => Step::Done(Err(failure)),
                None => WriteBench::at(WriteBenchPhase::Backup),
            },
            WriteBenchPhase::Backup => match reply.outcome() {
                Err(error) => Step::Done(Err(WriteFailure::BackupIo(error))),
                Ok(_) => WriteBench::at(WriteBenchPhase::Verify),
            },
            WriteBenchPhase::Verify => match reply.outcome() {
                Err(error) => Step::Done(Err(WriteFailure::BackupIo(error))),
                Ok(_) => WriteBench::at(WriteBenchPhase::Compare),
            },
            WriteBenchPhase::Compare => if reply.comparison().same {
                WriteBench::at(WriteBenchPhase::Baseline(0))
            } else {
                Step::Done(Err(WriteFailure::BackupMismatch))
            },
            WriteBenchPhase::Baseline(index) => if !reply.compute().window_completed {
                WriteBench::closing(
                    Err(
                        WriteFailure::ComputeWindow {
                            place: ComputePlace::Baseline(baseline_mode(index)),
                            elapsed_ns: reply.compute().elapsed_ns,
                        },
                    ),
                )
            } else if index.wrapping_add(1) < 2 * TEST_ROUNDS {
                WriteBench::at(WriteBenchPhase::Baseline(index.wrapping_add(1)))
            } else {
                WriteBench::at(WriteBenchPhase::ReportBaselines)
            },
            WriteBenchPhase::ReportBaselines => WriteBench::at_case(WriteWorkload::Cmd24, 0),
            WriteBenchPhase::Case(workload, index, case) => match case.step(reply) {
                Step::Next(later) => WriteBench::at(WriteBenchPhase::Case(workload, index, later)),
                Step::Done(Ok((run, checksum))) => WriteBench::at(
                    WriteBenchPhase::Keep(workload, index, run, checksum),
                ),
                Step::Done(Err(failure)) => WriteBench::closing(Err(failure)),
            },
            WriteBenchPhase::Keep(workload, index, _, _) => if index.wrapping_add(1) < 6
                * TEST_ROUNDS {
                WriteBench::at_case(workload, index.wrapping_add(1))
            } else {
                WriteBench::at(WriteBenchPhase::Report(workload))
            },
            WriteBenchPhase::Report(workload) => match workload {
                WriteWorkload::Cmd24 => WriteBench::at_case(WriteWorkload::Cmd25x8, 0),
                WriteWorkload::Cmd25x8 => WriteBench::at_case(WriteWorkload::Cmd25x32, 0),
                WriteWorkload::Cmd25x32 => WriteBench::closing(Ok(())),
            },
            WriteBenchPhase::Final(restore, result) => match restore.step(reply) {
                Step::Next(later) => WriteBench::at(WriteBenchPhase::Final(later, result)),
                Step::Done(Err(failure)) => Step::Done(Err(failure)),
                Step::Done(Ok(_)) => Step::Done(result),
            },
        }
    }
}

} // verus!
