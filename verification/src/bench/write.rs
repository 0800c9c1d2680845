//! Cases of the write benchmark: writes over a region that is put back in order
//! afterwards.

use crate::bench::data::TEST_START_LBA;
use crate::bench::measure::Case;
use crate::bench::read::{ComputeMode, ComputeResult, IoMode};
use crate::bench::write_measure::WriteRun;
use crate::bench::write_seen::{RequestObservation, WriteFault, WriteRecorder};
use crate::error::{SdMmcError, SdMmcResult};
use crate::io::{Machine, Step};
use vstd::prelude::*;

verus! {

/// Blocks of the region that is written.
pub const TEST_REGION_BLOCKS: usize = 64;

/// Bytes of that region.
pub const TEST_REGION_BYTES: usize = 32768;

/// Time that a computation runs.
pub const COMPUTE_DURATION: u64 = 2_000_000_000;

/// Start value of the patterns.
pub const PATTERN_SEED: u64 = 0x7f4a_7c15_6a09_e667;

/// Requests of a round that is not timed by a computation.
pub const FIXED_REQUESTS: usize = 512;

/// Sizes of write requests.
#[derive(Clone, Copy, Debug, PartialEq, Eq, Structural)]
pub enum WriteWorkload {
    /// One block.
    Cmd24,
    /// Eight blocks.
    Cmd25x8,
    /// Thirty-two blocks.
    Cmd25x32,
}

impl WriteWorkload {
    /// Name for reports.
    pub fn name(self) -> (name: &'static str)
        ensures
            name@ == (match self {
                WriteWorkload::Cmd24 => "cmd24_1block"@,
                WriteWorkload::Cmd25x8 => "cmd25_8block"@,
                WriteWorkload::Cmd25x32 => "cmd25_32block"@,
            }),
    {
        match self {
            WriteWorkload::Cmd24 => "cmd24_1block",
            WriteWorkload::Cmd25x8 => "cmd25_8block",
            WriteWorkload::Cmd25x32 => "cmd25_32block",
        }
    }

    /// Blocks of a request.
    #[verifier::allow_in_spec]
    pub fn request_blocks(self) -> usize
        returns
            (match self {
                WriteWorkload::Cmd24 => 1usize,
                WriteWorkload::Cmd25x8 => 8,
                WriteWorkload::Cmd25x32 => 32,
            }),
    {
        match self {
            WriteWorkload::Cmd24 => 1,
            WriteWorkload::Cmd25x8 => 8,
            WriteWorkload::Cmd25x32 => 32,
        }
    }

    /// Bytes of a request.
    #[verifier::allow_in_spec]
    pub fn request_bytes(self) -> usize
        returns
            (match self {
                WriteWorkload::Cmd24 => 512usize,
                WriteWorkload::Cmd25x8 => 4096,
                WriteWorkload::Cmd25x32 => 16384,
            }),
    {
        match self {
            WriteWorkload::Cmd24 => 512,
            WriteWorkload::Cmd25x8 => 4096,
            WriteWorkload::Cmd25x32 => 16384,
        }
    }

    /// Bytes of a number of requests, at most the largest number of 64 bits.
    #[verifier::allow_in_spec]
    pub fn bytes_of(self, requests: usize) -> u64
        returns
            (if requests * self.request_bytes() > u64::MAX {
                u64::MAX
            } else {
                (requests * self.request_bytes()) as u64
            }),
    {
        let size: usize = self.request_bytes();
        assert(requests * size <= 0xffff_ffff_ffff_ffff * 16384) by (nonlinear_arith)
            requires
                requests <= 0xffff_ffff_ffff_ffff,
                size <= 16384,
        ;
        let bytes: u128 = requests as u128 * size as u128;
        if bytes > u64::MAX as u128 {
            u64::MAX
        } else {
            bytes as u64
        }
    }

    /// Requests that fill the region once.
    #[verifier::allow_in_spec]
    pub fn requests_per_region(self) -> usize
        returns
            (match self {
                WriteWorkload::Cmd24 => 64usize,
                WriteWorkload::Cmd25x8 => 8,
                WriteWorkload::Cmd25x32 => 2,
            }),
    {
        match self {
            WriteWorkload::Cmd24 => 64,
            WriteWorkload::Cmd25x8 => 8,
            WriteWorkload::Cmd25x32 => 2,
        }
    }

    /// Place of a request in the region, in bytes. The requests go round the
    /// region.
    #[verifier::allow_in_spec]
    pub fn offset(self, request: usize) -> usize
        returns
            (request % self.requests_per_region()).wrapping_mul(self.request_bytes()),
    {
        (request % self.requests_per_region()).wrapping_mul(self.request_bytes())
    }

    /// First block of a request.
    #[verifier::allow_in_spec]
    pub fn lba(self, request: usize) -> u32
        returns
            TEST_START_LBA.wrapping_add(
                (request % self.requests_per_region()).wrapping_mul(self.request_blocks()) as u32,
            ),
    {
        TEST_START_LBA.wrapping_add(
            (request % self.requests_per_region()).wrapping_mul(self.request_blocks()) as u32,
        )
    }

    /// Start value of the pattern of a round.
    #[verifier::allow_in_spec]
    pub fn seed(self, round: usize) -> u64
        returns
            PATTERN_SEED ^ ((round as u64) << 32u64) ^ ((self.request_blocks() as u64) << 16u64),
    {
        PATTERN_SEED ^ ((round as u64) << 32u64) ^ ((self.request_blocks() as u64) << 16u64)
    }
}

/// The requests of every size fill the region exactly, and a round that is not
/// timed by a computation fills it a whole number of times.
pub proof fn law_workloads_fill_the_region(workload: WriteWorkload)
    ensures
        workload.request_bytes() == workload.request_blocks() * 512,
        workload.request_blocks() * workload.requests_per_region() == TEST_REGION_BLOCKS,
        FIXED_REQUESTS % workload.requests_per_region() == 0,
{
}

/// Occasions on which the region is put back in order.
#[derive(Clone, Copy, Debug, PartialEq, Eq, Structural)]
pub enum RestoreStage {
    /// Before a case.
    CasePrepare,
    /// After a case.
    CaseComplete,
    /// At the end.
    Final,
}

impl RestoreStage {
    /// Name for reports.
    pub fn name(self) -> (name: &'static str)
        ensures
            name@ == (match self {
                RestoreStage::CasePrepare => "case_prepare"@,
                RestoreStage::CaseComplete => "case_complete"@,
                RestoreStage::Final => "final"@,
            }),
    {
        match self {
            RestoreStage::CasePrepare => "case_prepare",
            RestoreStage::CaseComplete => "case_complete",
            RestoreStage::Final => "final",
        }
    }
}

/// Where a computation ran.
#[derive(Clone, Copy, Debug, PartialEq, Eq, Structural)]
pub enum ComputePlace {
    /// Alone.
    Baseline(ComputeMode),
    /// Beside writes.
    Case(WriteWorkload, Case),
}

/// Why the benchmark failed.
#[derive(Clone, Copy, Debug, PartialEq, Eq, Structural)]
pub enum WriteFailure {
    /// It cannot run here.
    InvalidEnvironment {
        /// Processors.
        cpu_count: usize,
        /// Blocks of the card.
        card_blocks: u64,
        /// End of the region that is needed.
        required_end_lba: u64,
        /// The transfer buffer is large enough.
        dma_ready: bool,
        /// The driver is out of order.
        driver_faulted: bool,
    },
    /// The region could not be saved.
    BackupIo(SdMmcError),
    /// The region read differently the second time.
    BackupMismatch,
    /// A request failed.
    Io {
        /// The workload.
        workload: WriteWorkload,
        /// How it was waited for.
        mode: IoMode,
        /// Its number.
        request: usize,
        /// The error.
        error: SdMmcError,
    },
    /// A request did not go as it should.
    Observation {
        /// The workload.
        workload: WriteWorkload,
        /// How it was waited for.
        mode: IoMode,
        /// Its number.
        request: usize,
        /// What is wrong.
        reason: WriteFault,
        /// What was seen.
        observation: RequestObservation,
    },
    /// The region does not hold what was written.
    DataMismatch {
        /// The workload.
        workload: WriteWorkload,
        /// Checksum of what was written.
        expected: u64,
        /// Checksum of what was read.
        actual: u64,
    },
    /// The region could not be put back in order.
    RestoreIo {
        /// When.
        stage: RestoreStage,
        /// The error.
        error: SdMmcError,
    },
    /// The region does not hold what was saved.
    RestoreMismatch {
        /// When.
        stage: RestoreStage,
        /// Checksum of what was saved.
        expected: u64,
        /// Checksum of what was read.
        actual: u64,
    },
    /// A computation was stopped before its time.
    ComputeWindow {
        /// Where.
        place: ComputePlace,
        /// Time that it ran.
        elapsed_ns: u64,
    },
}

/// What the benchmark asks for.
#[derive(Clone, Copy, Debug, PartialEq, Eq, Structural)]
pub enum WriteAct {
    /// Tell what the machine looks like.
    Environment,
    /// Read the region and save it.
    ReadBackup {
        /// First block.
        lba: u32,
        /// Bytes.
        len: usize,
    },
    /// Read the region.
    ReadRegion {
        /// First block.
        lba: u32,
        /// Bytes.
        len: usize,
    },
    /// Compare what was read with what was saved.
    CompareBackup,
    /// Write what was saved to the region.
    WriteBackup {
        /// First block.
        lba: u32,
        /// Bytes.
        len: usize,
    },
    /// Make the pattern of a seed.
    FillPattern(u64),
    /// Start a computation; it waits for its start.
    Spawn(ComputeMode),
    /// Read the clock.
    Now,
    /// Let the computation run from this time on.
    StartCompute(u64),
    /// Write a part of the pattern and observe the request.
    Write {
        /// How to wait.
        mode: IoMode,
        /// First block.
        lba: u32,
        /// Place in the pattern.
        offset: usize,
        /// Bytes.
        len: usize,
    },
    /// Tell what was seen of the last request.
    Observe,
    /// Keep what was seen of a request.
    Record(IoMode, RequestObservation),
    /// Wait for the computation, after stopping it if need be, and collect its
    /// result.
    JoinCompute {
        /// It is to be stopped.
        stop: bool,
    },
    /// Compare what was read with what the requests should have left.
    CompareExpected {
        /// The workload.
        workload: WriteWorkload,
        /// Number of requests.
        requests: usize,
    },
    /// Run a computation alone.
    Baseline {
        /// Number of its round, from 0 on.
        round: usize,
        /// Its mode.
        compute: ComputeMode,
    },
    /// Report the computations that ran alone.
    ReportBaselines,
    /// Keep the results of a case.
    Keep {
        /// The workload.
        workload: WriteWorkload,
        /// Number of the round, from 1 on.
        round: usize,
        /// The case.
        case: Case,
        /// How it went.
        run: WriteRun,
        /// Checksum of the region.
        checksum: u64,
    },
    /// Report a workload.
    Report(WriteWorkload),
}

/// What comes back.
#[derive(Clone, Copy, Debug, PartialEq, Eq)]
pub enum WriteReply {
    /// It was done.
    Done,
    /// What the machine looks like.
    Environment {
        /// Processors.
        cpu_count: usize,
        /// Blocks of the card.
        card_blocks: u64,
        /// Bytes of the transfer buffer, 0 without one.
        dma_size: usize,
        /// The driver is out of order.
        driver_faulted: bool,
    },
    /// How a transfer ended.
    Outcome(SdMmcResult),
    /// How a comparison ended, with both checksums.
    Compared {
        /// Both are the same.
        same: bool,
        /// Checksum of what was expected.
        expected: u64,
        /// Checksum of what was read.
        actual: u64,
    },
    /// The time.
    Time(u64),
    /// What was seen of a request.
    Seen(RequestObservation),
    /// What the computation achieved.
    Compute(ComputeResult),
}

/// A comparison of two contents.
#[derive(Clone, Copy, Debug, PartialEq, Eq, Structural)]
pub struct Comparison {
    /// Both are the same.
    pub same: bool,
    /// Checksum of what was expected.
    pub expected: u64,
    /// Checksum of what was read.
    pub actual: u64,
}

impl WriteReply {
    /// How the transfer ended. Without an answer it counts as failed.
    #[verifier::allow_in_spec]
    pub fn outcome(self) -> SdMmcResult
        returns
            (match self {
                WriteReply::Outcome(result) => result,
                _ => Err(SdMmcError::Hardware),
            }),
    {
        match self {
            WriteReply::Outcome(result) => result,
            _ => Err(SdMmcError::Hardware),
        }
    }

    /// How the comparison ended. Without an answer the contents differ.
    #[verifier::allow_in_spec]
    pub fn comparison(self) -> Comparison
        returns
            (match self {
                WriteReply::Compared { same, expected, actual } => Comparison {
                    same,
                    expected,
                    actual,
                },
                _ => Comparison { same: false, expected: 0, actual: 0 },
            }),
    {
        match self {
            WriteReply::Compared { same, expected, actual } => Comparison {
                same,
                expected,
                actual,
            },
            _ => Comparison { same: false, expected: 0, actual: 0 },
        }
    }

    /// The time; 0 without one.
    #[verifier::allow_in_spec]
    pub fn time(self) -> u64
        returns
            (match self {
                WriteReply::Time(time) => time,
                _ => 0,
            }),
    {
        match self {
            WriteReply::Time(time) => time,
            _ => 0,
        }
    }

    /// What was seen. Without an answer it is nothing.
    #[verifier::allow_in_spec]
    pub fn seen(self) -> RequestObservation
        returns
            (match self {
                WriteReply::Seen(seen) => seen,
                _ => WriteRecorder::idle().seen,
            }),
    {
        match self {
            WriteReply::Seen(seen) => seen,
            _ => WriteRecorder::idle().seen,
        }
    }

    /// What the computation achieved. Without an answer it was stopped at once.
    #[verifier::allow_in_spec]
    pub fn compute(self) -> ComputeResult
        returns
            (match self {
                WriteReply::Compute(result) => result,
                _ => ComputeResult {
                    elapsed_ns: 0,
                    units: 0,
                    digest: 0,
                    work_per_s_milli: 0,
                    window_completed: false,
                },
            }),
    {
        match self {
            WriteReply::Compute(result) => result,
            _ => ComputeResult {
                elapsed_ns: 0,
                units: 0,
                digest: 0,
                work_per_s_milli: 0,
                window_completed: false,
            },
        }
    }
}

/// The requests of a round and how it goes on.
#[derive(Clone, Copy, Debug, PartialEq, Eq, Structural)]
pub struct WriteRequests {
    /// The workload.
    pub workload: WriteWorkload,
    /// How requests are waited for.
    pub mode: IoMode,
    /// Start of the round.
    pub started_ns: u64,
    /// Time from which on no request begins; else their number is fixed.
    pub deadline_ns: Option<u64>,
    /// Number of the current request.
    pub request: usize,
    /// Where it stands.
    pub phase: WritePhase,
}

/// Where a request stands.
#[derive(Clone, Copy, Debug, PartialEq, Eq, Structural)]
pub enum WritePhase {
    /// It is checked whether it may begin.
    Check,
    /// It is written.
    Write,
    /// It is looked at.
    Observe,
    /// It is recorded.
    Record(RequestObservation),
    /// All are done; the end is timed.
    Finish,
}

/// Time and number of the requests of a round.
pub type Written = Result<(u64, usize), WriteFailure>;

impl WriteRequests {
    /// The first request of a round, which always takes place.
    #[verifier::allow_in_spec]
    pub fn new(
        workload: WriteWorkload,
        mode: IoMode,
        started_ns: u64,
        deadline_ns: Option<u64>,
    ) -> WriteRequests
        returns
            (WriteRequests {
                workload,
                mode,
                started_ns,
                deadline_ns,
                request: 0,
                phase: WritePhase::Write,
            }),
    {
        WriteRequests {
            workload,
            mode,
            started_ns,
            deadline_ns,
            request: 0,
            phase: WritePhase::Write,
        }
    }

    /// The state in another phase.
    #[verifier::allow_in_spec]
    pub fn at(self, phase: WritePhase) -> Step<WriteRequests, Written>
        returns
            (Step::<WriteRequests, Written>::Next(WriteRequests { phase, ..self })),
    {
        Step::Next(WriteRequests { phase, ..self })
    }
}

impl Machine for WriteRequests {
    type Act = WriteAct;

    type Event = WriteReply;

    type Out = Written;

    open spec fn op(self) -> WriteAct {
        match self.phase {
            WritePhase::Check | WritePhase::Finish => WriteAct::Now,
            WritePhase::Write => WriteAct::Write {
                mode: self.mode,
                lba: self.workload.lba(self.request),
                offset: self.workload.offset(self.request),
                len: self.workload.request_bytes(),
            },
            WritePhase::Observe => WriteAct::Observe,
            WritePhase::Record(seen) => WriteAct::Record(self.mode, seen),
        }
    }

    fn request(&self) -> (op: WriteAct) {
        match self.phase {
            WritePhase::Check | WritePhase::Finish => WriteAct::Now,
            WritePhase::Write => WriteAct::Write {
                mode: self.mode,
                lba: self.workload.lba(self.request),
                offset: self.workload.offset(self.request),
                len: self.workload.request_bytes(),
            },
            WritePhase::Observe => WriteAct::Observe,
            WritePhase::Record(seen) => WriteAct::Record(self.mode, seen),
        }
    }

    open spec fn next(self, reply: WriteReply) -> Step<WriteRequests, Written> {
        match self.phase {
            WritePhase::Check => {
                let open = match self.deadline_ns {
                    Some(deadline_ns) => reply.time() < deadline_ns,
                    None => false,
                };
                if open {
                    self.at(WritePhase::Write)
                } else {
                    self.at(WritePhase::Finish)
                }
            },
            WritePhase::Write => match reply.outcome() {
                Err(error) => Step::Done(
                    Err(
                        WriteFailure::Io {
                            workload: self.workload,
                            mode: self.mode,
                            request: self.request,
                            error,
                        },
                    ),
                ),
                Ok(_) => self.at(WritePhase::Observe),
            },
            WritePhase::Observe => match reply.seen().fault(self.mode) {
                Some(reason) => Step::Done(
                    Err(
                        WriteFailure::Observation {
                            workload: self.workload,
                            mode: self.mode,
                            request: self.request,
                            reason,
                            observation: reply.seen(),
                        },
                    ),
                ),
                None => self.at(WritePhase::Record(reply.seen())),
            },
            WritePhase::Record(_) => {
                let later = WriteRequests { request: self.request.wrapping_add(1), ..self };
                match self.deadline_ns {
                    Some(_) => if later.request == 0 {
                        later.at(WritePhase::Write)
                    } else {
                        later.at(WritePhase::Check)
                    },
                    None => if later.request < FIXED_REQUESTS {
                        later.at(WritePhase::Write)
                    } else {
                        later.at(WritePhase::Finish)
                    },
                }
            },
            WritePhase::Finish => Step::Done(
                Ok((reply.time().saturating_sub(self.started_ns), self.request)),
            ),
        }
    }

    fn step(self, reply: WriteReply) -> (step: Step<WriteRequests, Written>) {
        match self.phase {
            WritePhase::Check => {
                let open = match self.deadline_ns {
                    Some(deadline_ns) => reply.time() < deadline_ns,
                    None => false,
                };
                if open {
                    self.at(WritePhase::Write)
                } else {
                    self.at(WritePhase::Finish)
                }
            },
            WritePhase::Write => match reply.outcome() {
                Err(error) => Step::Done(
                    Err(
                        WriteFailure::Io {
                            workload: self.workload,
                            mode: self.mode,
                            request: self.request,
                            error,
                        },
                    ),
                ),
                Ok(_) => self.at(WritePhase::Observe),
            },
            WritePhase::Observe => match reply.seen().validate(self.mode) {
                Some(reason) => Step::Done(
                    Err(
                        WriteFailure::Observation {
                            workload: self.workload,
                            mode: self.mode,
                            request: self.request,
                            reason,
                            observation: reply.seen(),
                        },
                    ),
                ),
                None => self.at(WritePhase::Record(reply.seen())),
            },
            WritePhase::Record(_) => {
                let later = WriteRequests { request: self.request.wrapping_add(1), ..self };
                match self.deadline_ns {
                    Some(_) => if later.request == 0 {
                        later.at(WritePhase::Write)
                    } else {
                        later.at(WritePhase::Check)
                    },
                    None => if later.request < FIXED_REQUESTS {
                        later.at(WritePhase::Write)
                    } else {
                        later.at(WritePhase::Finish)
                    },
                }
            },
            WritePhase::Finish => Step::Done(
                Ok((reply.time().saturating_sub(self.started_ns), self.request)),
            ),
        }
    }
}

/// Puts the region back in order and checks it.
#[derive(Clone, Copy, Debug, PartialEq, Eq, Structural)]
pub struct RestoreRegion {
    /// The occasion.
    pub stage: RestoreStage,
    /// Where it stands.
    pub phase: RestorePhase,
}

/// Where putting the region back in order stands.
#[derive(Clone, Copy, Debug, PartialEq, Eq, Structural)]
pub enum RestorePhase {
    /// What was saved is written.
    Write,
    /// The region is read.
    Read,
    /// What was read is compared.
    Compare,
}

impl RestoreRegion {
    /// The procedure before its first step.
    #[verifier::allow_in_spec]
    pub fn new(stage: RestoreStage) -> RestoreRegion
        returns
            (RestoreRegion { stage, phase: RestorePhase::Write }),
    {
        RestoreRegion { stage, phase: RestorePhase::Write }
    }
}

impl Machine for RestoreRegion {
    type Act = WriteAct;

    type Event = WriteReply;

    type Out = Result<(), WriteFailure>;

    open spec fn op(self) -> WriteAct {
        match self.phase {
            RestorePhase::Write => WriteAct::WriteBackup {
                lba: TEST_START_LBA,
                len: TEST_REGION_BYTES,
            },
            RestorePhase::Read => WriteAct::ReadRegion {
                lba: TEST_START_LBA,
                len: TEST_REGION_BYTES,
            },
            RestorePhase::Compare => WriteAct::CompareBackup,
        }
    }

    fn request(&self) -> (op: WriteAct) {
        match self.phase {
            RestorePhase::Write => WriteAct::WriteBackup {
                lba: TEST_START_LBA,
                len: TEST_REGION_BYTES,
            },
            RestorePhase::Read => WriteAct::ReadRegion {
                lba: TEST_START_LBA,
                len: TEST_REGION_BYTES,
            },
            RestorePhase::Compare => WriteAct::CompareBackup,
        }
    }

    open spec fn next(self, reply: WriteReply) -> Step<RestoreRegion, Result<(), WriteFailure>> {
        let stage = self.stage;
        match self.phase {
            RestorePhase::Write => match reply.outcome() {
                Ok(_) => Step::Next(RestoreRegion { stage, phase: RestorePhase::Read }),
                Err(error) => Step::Done(Err(WriteFailure::RestoreIo { stage, error })),
            },
            RestorePhase::Read => match reply.outcome() {
                Ok(_) => Step::Next(RestoreRegion { stage, phase: RestorePhase::Compare }),
                Err(error) => Step::Done(Err(WriteFailure::RestoreIo { stage, error })),
            },
            RestorePhase::Compare => if reply.comparison().same {
                Step::Done(Ok(()))
            } else {
                Step::Done(
                    Err(
                        WriteFailure::RestoreMismatch {
                            stage,
                            expected: reply.comparison().expected,
                            actual: reply.comparison().actual,
                        },
                    ),
                )
            },
        }
    }

    fn step(self, reply: WriteReply) -> (step: Step<RestoreRegion, Result<(), WriteFailure>>) {
        let stage = self.stage;
        match self.phase {
            RestorePhase::Write => match reply.outcome() {
                Ok(_) => Step::Next(RestoreRegion { stage, phase: RestorePhase::Read }),
                Err(error) => Step::Done(Err(WriteFailure::RestoreIo { stage, error })),
            },
            RestorePhase::Read => match reply.outcome() {
                Ok(_) => Step::Next(RestoreRegion { stage, phase: RestorePhase::Compare }),
                Err(error) => Step::Done(Err(WriteFailure::RestoreIo { stage, error })),
            },
            RestorePhase::Compare => if reply.comparison().same {
                Step::Done(Ok(()))
            } else {
                Step::Done(
                    Err(
                        WriteFailure::RestoreMismatch {
                            stage,
                            expected: reply.comparison().expected,
                            actual: reply.comparison().actual,
                        },
                    ),
                )
            },
        }
    }
}

/// What a case has found out before the region is put back in order.
#[derive(Clone, Copy, Debug, PartialEq, Eq)]
pub struct CaseFindings {
    /// How the requests went.
    pub written: Written,
    /// What the computation achieved.
    pub compute: Option<ComputeResult>,
    /// Whether the region holds what was written.
    pub data: Result<Comparison, SdMmcError>,
}

/// A case of the benchmark.
#[derive(Clone, Copy, Debug, PartialEq, Eq)]
pub struct WriteCase {
    /// The workload.
    pub workload: WriteWorkload,
    /// Number of the round, from 1 on.
    pub round: usize,
    /// How requests are waited for, and what runs beside them.
    pub case: Case,
    /// Where the case stands.
    pub phase: CasePhase,
}

/// Where a case stands.
#[derive(Clone, Copy, Debug, PartialEq, Eq)]
pub enum CasePhase {
    /// The region is put in order.
    Prepare(RestoreRegion),
    /// The pattern is made.
    Fill,
    /// The computation is started.
    Spawn(ComputeMode),
    /// The start is timed.
    Start,
    /// The computation is let go.
    Release(u64),
    /// The requests run.
    Requests(WriteRequests),
    /// The computation ends.
    Join(Written),
    /// The region is read.
    Read(u64, usize, Option<ComputeResult>),
    /// What was read is compared.
    Compare(u64, usize, Option<ComputeResult>),
    /// The region is put back in order.
    Complete(RestoreRegion, CaseFindings),
}

/// Results of a case and the checksum of the region.
pub type CaseEnd = Result<(WriteRun, u64), WriteFailure>;

impl CaseFindings {
    /// What a case ends with once the region is back in order: the first of a
    /// failed request, an unreadable region, wrong data and a computation that was
    /// stopped before its time, else its results.
    pub open spec fn verdict(self, workload: WriteWorkload, case: Case) -> CaseEnd {
        match self.written {
            Err(failure) => Err(failure),
            Ok((elapsed_ns, requests)) => match self.data {
                Err(error) => Err(
                    WriteFailure::Io { workload, mode: case.io_mode, request: requests, error },
                ),
                Ok(data) => if !data.same {
                    Err(
                        WriteFailure::DataMismatch {
                            workload,
                            expected: data.expected,
                            actual: data.actual,
                        },
                    )
                } else {
                    let short = match self.compute {
                        Some(result) => if result.window_completed {
                            None
                        } else {
                            Some(result.elapsed_ns)
                        },
                        None => None,
                    };
                    match short {
                        Some(elapsed_ns) => Err(
                            WriteFailure::ComputeWindow {
                                place: ComputePlace::Case(workload, case),
                                elapsed_ns,
                            },
                        ),
                        None => Ok(
                            (
                                WriteRun {
                                    elapsed_ns,
                                    requests,
                                    bytes: workload.bytes_of(requests),
                                    compute: self.compute,
                                },
                                data.expected,
                            ),
                        ),
                    }
                },
            },
        }
    }

    /// Judges a case whose region is back in order.
    pub fn judge(self, workload: WriteWorkload, case: Case) -> (end: CaseEnd)
        ensures
            end == self.verdict(workload, case),
    {
        match self.written {
            Err(failure) => Err(failure),
            Ok((elapsed_ns, requests)) => match self.data {
                Err(error) => Err(
                    WriteFailure::Io { workload, mode: case.io_mode, request: requests, error },
                ),
                Ok(data) => if !data.same {
                    Err(
                        WriteFailure::DataMismatch {
                            workload,
                            expected: data.expected,
                            actual: data.actual,
                        },
                    )
                } else {
                    let short = match self.compute {
                        Some(result) => if result.window_completed {
                            None
                        } else {
                            Some(result.elapsed_ns)
                        },
                        None => None,
                    };
                    match short {
                        Some(elapsed_ns) => Err(
                            WriteFailure::ComputeWindow {
                                place: ComputePlace::Case(workload, case),
                                elapsed_ns,
                            },
                        ),
                        None => Ok(
                            (
                                WriteRun {
                                    elapsed_ns,
                                    requests,
                                    bytes: workload.bytes_of(requests),
                                    compute: self.compute,
                                },
                                data.expected,
                            ),
                        ),
                    }
                },
            },
        }
    }
}

impl WriteCase {
    /// A case that is about to begin.
    #[verifier::allow_in_spec]
    pub fn new(workload: WriteWorkload, round: usize, case: Case) -> WriteCase
        returns
            (WriteCase {
                workload,
                round,
                case,
                phase: CasePhase::Prepare(RestoreRegion::new(RestoreStage::CasePrepare)),
            }),
    {
        WriteCase {
            workload,
            round,
            case,
            phase: CasePhase::Prepare(RestoreRegion::new(RestoreStage::CasePrepare)),
        }
    }

    /// The state in another phase.
    #[verifier::allow_in_spec]
    pub fn at(self, phase: CasePhase) -> Step<WriteCase, CaseEnd>
        returns
            (Step::<WriteCase, CaseEnd>::Next(WriteCase { phase, ..self })),
    {
        Step::Next(WriteCase { phase, ..self })
    }

    /// The region is put back in order, whatever the case has found out.
    #[verifier::allow_in_spec]
    pub fn completing(self, findings: CaseFindings) -> Step<WriteCase, CaseEnd>
        returns
            self.at(
                CasePhase::Complete(RestoreRegion::new(RestoreStage::CaseComplete), findings),
            ),
    {
        self.at(CasePhase::Complete(RestoreRegion::new(RestoreStage::CaseComplete), findings))
    }

    /// The requests and the computation are over.
    pub open spec fn at_data(
        self,
        written: Written,
        compute: Option<ComputeResult>,
    ) -> Step<WriteCase, CaseEnd> {
        match written {
            Ok((elapsed_ns, requests)) => self.at(CasePhase::Read(elapsed_ns, requests, compute)),
            Err(_) => self.completing(
                CaseFindings {
                    written,
                    compute,
                    data: Ok(Comparison { same: false, expected: 0, actual: 0 }),
                },
            ),
        }
    }

    /// Goes on when the requests and the computation are over.
    pub fn check_data(
        self,
        written: Written,
        compute: Option<ComputeResult>,
    ) -> (step: Step<WriteCase, CaseEnd>)
        ensures
            step == self.at_data(written, compute),
    {
        match written {
            Ok((elapsed_ns, requests)) => self.at(CasePhase::Read(elapsed_ns, requests, compute)),
            Err(_) => self.completing(
                CaseFindings {
                    written,
                    compute,
                    data: Ok(Comparison { same: false, expected: 0, actual: 0 }),
                },
            ),
        }
    }
}

impl Machine for WriteCase {
    type Act = WriteAct;

    type Event = WriteReply;

    type Out = CaseEnd;

    open spec fn op(self) -> WriteAct {
        match self.phase {
            CasePhase::Prepare(restore) => restore.op(),
            CasePhase::Fill => WriteAct::FillPattern(self.workload.seed(self.round)),
            CasePhase::Spawn(mode) => WriteAct::Spawn(mode),
            CasePhase::Start => WriteAct::Now,
            CasePhase::Release(started_ns) => WriteAct::StartCompute(started_ns),
            CasePhase::Requests(requests) => requests.op(),
            CasePhase::Join(written) => WriteAct::JoinCompute { stop: written.is_err() },
            CasePhase::Read(_, _, _) => WriteAct::ReadRegion {
                lba: TEST_START_LBA,
                len: TEST_REGION_BYTES,
            },
            CasePhase::Compare(_, requests, _) => WriteAct::CompareExpected {
                workload: self.workload,
                requests,
            },
            CasePhase::Complete(restore, _) => restore.op(),
        }
    }

    fn request(&self) -> (op: WriteAct) {
        match self.phase {
            CasePhase::Prepare(restore) => restore.request(),
            CasePhase::Fill => WriteAct::FillPattern(self.workload.seed(self.round)),
            CasePhase::Spawn(mode) => WriteAct::Spawn(mode),
            CasePhase::Start => WriteAct::Now,
            CasePhase::Release(started_ns) => WriteAct::StartCompute(started_ns),
            CasePhase::Requests(requests) => requests.request(),
            CasePhase::Join(written) => WriteAct::JoinCompute { stop: written.is_err() },
            CasePhase::Read(_, _, _) => WriteAct::ReadRegion {
                lba: TEST_START_LBA,
                len: TEST_REGION_BYTES,
            },
            CasePhase::Compare(_, requests, _) => WriteAct::CompareExpected {
                workload: self.workload,
                requests,
            },
            CasePhase::Complete(restore, _) => restore.request(),
        }
    }

    open spec fn next(self, reply: WriteReply) -> Step<WriteCase, CaseEnd> {
        match self.phase {
            CasePhase::Prepare(restore) => match restore.next(reply) {
                Step::Next(later) => self.at(CasePhase::Prepare(later)),
                Step::Done(Ok(_)) => self.at(CasePhase::Fill),
                Step::Done(Err(failure)) => Step::Done(Err(failure)),
            },
            CasePhase::Fill => match self.case.compute_mode {
                Some(mode) => self.at(CasePhase::Spawn(mode)),
                None => self.at(CasePhase::Start),
            },
            CasePhase::Spawn(_) => self.at(CasePhase::Start),
            CasePhase::Start => match self.case.compute_mode {
                Some(_) => self.at(CasePhase::Release(reply.time())),
                None => self.at(
                    CasePhase::Requests(
                        WriteRequests::new(
                            self.workload,
                            self.case.io_mode,
                            reply.time(),
                            None,
                        ),
                    ),
                ),
            },
            CasePhase::Release(started_ns) => self.at(
                CasePhase::Requests(
                    WriteRequests::new(
                        self.workload,
                        self.case.io_mode,
                        started_ns,
                        Some(started_ns.saturating_add(COMPUTE_DURATION)),
                    ),
                ),
            ),
            CasePhase::Requests(requests) => match requests.next(reply) {
                Step::Next(later) => self.at(CasePhase::Requests(later)),
                Step::Done(written) => match self.case.compute_mode {
                    Some(_) => self.at(CasePhase::Join(written)),
                    None => self.at_data(written, None),
                },
            },
            CasePhase::Join(written) => self.at_data(written, Some(reply.compute())),
            CasePhase::Read(elapsed_ns, requests, compute) => match reply.outcome() {
                Ok(_) => self.at(CasePhase::Compare(elapsed_ns, requests, compute)),
                Err(error) => self.completing(
                    CaseFindings {
                        written: Ok((elapsed_ns, requests)),
                        compute,
                        data: Err(error),
                    },
                ),
            },
            CasePhase::Compare(elapsed_ns, requests, compute) => self.completing(
                CaseFindings {
                    written: Ok((elapsed_ns, requests)),
                    compute,
                    data: Ok(reply.comparison()),
                },
            ),
            CasePhase::Complete(restore, findings) => match restore.next(reply) {
                Step::Next(later) => self.at(CasePhase::Complete(later, findings)),
                Step::Done(Err(failure)) => Step::Done(Err(failure)),
                Step::Done(Ok(_)) => Step::Done(findings.verdict(self.workload, self.case)),
            },
        }
    }

    fn step(self, reply: WriteReply) -> (step: Step<WriteCase, CaseEnd>) {
        match self.phase {
            CasePhase::Prepare(restore) => match restore.step(reply) {
                Step::Next(later) => self.at(CasePhase::Prepare(later)),
                Step::Done(Ok(_)) => self.at(CasePhase::Fill),
                Step::Done(Err(failure)) => Step::Done(Err(failure)),
            },
            CasePhase::Fill => match self.case.compute_mode {
                Some(mode) => self.at(CasePhase::Spawn(mode)),
                None => self.at(CasePhase::Start),
            },
            CasePhase::Spawn(_) => self.at(CasePhase::Start),
            CasePhase::Start => match self.case.compute_mode {
                Some(_) => self.at(CasePhase::Release(reply.time())),
                None => self.at(
                    CasePhase::Requests(
                        WriteRequests::new(
                            self.workload,
                            self.case.io_mode,
                            reply.time(),
                            None,
                        ),
                    ),
                ),
            },
            CasePhase::Release(started_ns) => self.at(
                CasePhase::Requests(
                    WriteRequests::new(
                        self.workload,
                        self.case.io_mode,
                        started_ns,
                        Some(started_ns.saturating_add(COMPUTE_DURATION)),
                    ),
                ),
            ),
            CasePhase::Requests(requests) => match requests.step(reply) {
                Step::Next(later) => self.at(CasePhase::Requests(later)),
                Step::Done(written) => match self.case.compute_mode {
                    Some(_) => self.at(CasePhase::Join(written)),
                    None => self.check_data(written, None),
                },
            },
            CasePhase::Join(written) => self.check_data(written, Some(reply.compute())),
            CasePhase::Read(elapsed_ns, requests, compute) => match reply.outcome() {
                Ok(_) => self.at(CasePhase::Compare(elapsed_ns, requests, compute)),
                Err(error) => self.completing(
                    CaseFindings {
                        written: Ok((elapsed_ns, requests)),
                        compute,
                        data: Err(error),
                    },
                ),
            },
            CasePhase::Compare(elapsed_ns, requests, compute) => self.completing(
                CaseFindings {
                    written: Ok((elapsed_ns, requests)),
                    compute,
                    data: Ok(reply.comparison()),
                },
            ),
            CasePhase::Complete(restore, findings) => match restore.step(reply) {
                Step::Next(later) => self.at(CasePhase::Complete(later, findings)),
                Step::Done(Err(failure)) => Step::Done(Err(failure)),
                Step::Done(Ok(_)) => Step::Done(findings.judge(self.workload, self.case)),
            },
        }
    }
}

} // verus!
