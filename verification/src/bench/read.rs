//! Rounds of reads: the requests of a workload, timed and checked.

use crate::bench::data::{should_sample_latency, CHECKSUM_SEED, TEST_START_LBA};
use crate::bench::stage::{DriverStageObservation, StageDurations, StageFault, StageSample};
use crate::bench::stats::rate_per_second_milli;
use crate::bench::wake::{AsyncObservation, WakeFault};
use crate::error::{SdMmcError, SdMmcResult};
use crate::io::{Machine, Step};
use vstd::prelude::*;

verus! {

/// How a transfer is waited for.
#[derive(Clone, Copy, Debug, PartialEq, Eq, Structural)]
pub enum IoMode {
    /// By polling.
    Sync,
    /// By sleeping until an interrupt.
    Async,
}

impl IoMode {
    /// Name for reports.
    pub fn name(self) -> (name: &'static str)
        ensures
            name@ == (match self {
                IoMode::Sync => "sync"@,
                IoMode::Async => "async"@,
            }),
    {
        match self {
            IoMode::Sync => "sync",
            IoMode::Async => "async",
        }
    }
}

/// What runs beside the reads.
#[derive(Clone, Copy, Debug, PartialEq, Eq, Structural)]
pub enum ComputeMode {
    /// Computation that never gives up the processor by itself.
    NoYield,
    /// Computation that gives up the processor after each unit.
    YieldPerUnit,
}

impl ComputeMode {
    /// Name for reports.
    pub fn name(self) -> (name: &'static str)
        ensures
            name@ == (match self {
                ComputeMode::NoYield => "no_yield"@,
                ComputeMode::YieldPerUnit => "yield_per_unit"@,
            }),
    {
        match self {
            ComputeMode::NoYield => "no_yield",
            ComputeMode::YieldPerUnit => "yield_per_unit",
        }
    }
}

/// Workloads of the benchmark.
#[derive(Clone, Copy, Debug, PartialEq, Eq, Structural)]
pub enum WorkloadName {
    /// Single blocks.
    Cmd17Control,
    /// Eight blocks at a time.
    Cmd18x8,
    /// Thirty-two blocks at a time.
    Cmd18x32,
    /// Single blocks of a range.
    RangeCmd17,
    /// Eight blocks of a range at a time.
    RangeCmd18x8,
    /// Thirty-two blocks of a range at a time.
    RangeCmd18x32,
    /// First look at a range.
    RangeReference,
    /// Single blocks of a short region.
    LegacyCmd17,
    /// Single blocks of a long region.
    SustainedCmd17,
}

impl WorkloadName {
    /// Name for reports.
    pub fn name(self) -> (name: &'static str)
        ensures
            name@ == (match self {
                WorkloadName::Cmd17Control => "cmd17_control"@,
                WorkloadName::Cmd18x8 => "cmd18_8block"@,
                WorkloadName::Cmd18x32 => "cmd18_32block"@,
                WorkloadName::RangeCmd17 => "range_cmd17"@,
                WorkloadName::RangeCmd18x8 => "range_cmd18_8block"@,
                WorkloadName::RangeCmd18x32 => "range_cmd18_32block"@,
                WorkloadName::RangeReference => "range_reference_cmd18_32block"@,
                WorkloadName::LegacyCmd17 => "legacy_cmd17_128k"@,
                WorkloadName::SustainedCmd17 => "cmd17_sustained_8m"@,
            }),
    {
        match self {
            WorkloadName::Cmd17Control => "cmd17_control",
            WorkloadName::Cmd18x8 => "cmd18_8block",
            WorkloadName::Cmd18x32 => "cmd18_32block",
            WorkloadName::RangeCmd17 => "range_cmd17",
            WorkloadName::RangeCmd18x8 => "range_cmd18_8block",
            WorkloadName::RangeCmd18x32 => "range_cmd18_32block",
            WorkloadName::RangeReference => "range_reference_cmd18_32block",
            WorkloadName::LegacyCmd17 => "legacy_cmd17_128k",
            WorkloadName::SustainedCmd17 => "cmd17_sustained_8m",
        }
    }
}

/// A region that is read request by request.
#[derive(Clone, Copy, Debug, PartialEq, Eq, Structural)]
pub struct ReadWorkload {
    /// Name.
    pub name: WorkloadName,
    /// Blocks of a request.
    pub request_blocks: usize,
    /// Blocks of the region.
    pub total_blocks: usize,
}

impl ReadWorkload {
    /// Requests of at least one block and a region that the counts can express.
    pub open spec fn wf(self) -> bool {
        &&& 0 < self.request_blocks <= 0x1_0000
        &&& self.total_blocks <= 0x10_0000
    }

    /// Bytes of a request.
    #[verifier::allow_in_spec]
    pub fn request_bytes(self) -> usize
        returns
            self.request_blocks.wrapping_mul(512),
    {
        self.request_blocks.wrapping_mul(512)
    }

    /// Bytes of the region.
    #[verifier::allow_in_spec]
    pub fn total_bytes(self) -> usize
        returns
            self.total_blocks.wrapping_mul(512),
    {
        self.total_blocks.wrapping_mul(512)
    }

    /// Number of requests; none where a request would be empty.
    #[verifier::allow_in_spec]
    pub fn request_count(self) -> usize
        returns
            (if self.request_blocks == 0 {
                0
            } else {
                self.total_blocks / self.request_blocks
            }),
    {
        if self.request_blocks == 0 {
            0
        } else {
            self.total_blocks / self.request_blocks
        }
    }

    /// First block of a request.
    #[verifier::allow_in_spec]
    pub fn lba(self, request: usize) -> u32
        returns
            TEST_START_LBA.wrapping_add(request.wrapping_mul(self.request_blocks) as u32),
    {
        TEST_START_LBA.wrapping_add(request.wrapping_mul(self.request_blocks) as u32)
    }

    /// Place of a request in the buffer.
    #[verifier::allow_in_spec]
    pub fn offset(self, request: usize) -> usize
        returns
            request.wrapping_mul(self.request_bytes()),
    {
        request.wrapping_mul(self.request_bytes())
    }

    /// The same requests on a region of another size.
    #[verifier::allow_in_spec]
    pub fn with_total_blocks(self, total_blocks: usize) -> ReadWorkload
        returns
            (ReadWorkload { total_blocks, ..self }),
    {
        ReadWorkload { total_blocks, ..self }
    }
}

/// Why the benchmark stopped.
#[derive(Clone, Copy, Debug, PartialEq, Eq, Structural)]
pub enum TestFailure {
    /// It cannot run here.
    InvalidEnvironment {
        /// Processors.
        cpu_count: usize,
        /// Blocks of the card.
        card_blocks: u64,
        /// End of the region that is needed.
        required_end_lba: u64,
        /// The transfer buffer is large enough.
        dma_ready: bool,
    },
    /// A request failed.
    Io {
        /// How it was waited for.
        mode: IoMode,
        /// Its number.
        request: usize,
        /// The error.
        error: SdMmcError,
    },
    /// Two rounds read different data.
    DataMismatch {
        /// The workload.
        workload: WorkloadName,
        /// Checksum before.
        expected: u64,
        /// Checksum now.
        actual: u64,
    },
    /// An asynchronous request did not end as it should.
    AsyncTerminal {
        /// Its number.
        request: usize,
        /// What is wrong.
        reason: WakeFault,
        /// What was seen.
        observation: AsyncObservation,
    },
    /// The time stamps of a request cannot be used.
    StageObservation {
        /// The workload.
        workload: WorkloadName,
        /// How the request was waited for.
        mode: IoMode,
        /// Its number.
        request: usize,
        /// What is wrong.
        fault: StageFault,
        /// What was seen.
        stages: DriverStageObservation,
    },
}

/// What a computation beside the reads achieved.
#[derive(Clone, Copy, Debug, PartialEq, Eq, Structural)]
pub struct ComputeResult {
    /// Time that it took.
    pub elapsed_ns: u64,
    /// Units done.
    pub units: u64,
    /// Result of the computation.
    pub digest: u64,
    /// Thousandths of units per second.
    pub work_per_s_milli: u64,
    /// It ran until its deadline.
    pub window_completed: bool,
}

impl ComputeResult {
    /// The result of a computation that ran from one time to another.
    #[verifier::allow_in_spec]
    pub fn of(
        started_ns: u64,
        finished_ns: u64,
        units: u64,
        digest: u64,
        window_completed: bool,
    ) -> ComputeResult
        returns
            (ComputeResult {
                elapsed_ns: finished_ns.saturating_sub(started_ns),
                units,
                digest,
                work_per_s_milli: rate_per_second_milli(
                    units,
                    finished_ns.saturating_sub(started_ns),
                ),
                window_completed,
            }),
    {
        ComputeResult {
            elapsed_ns: finished_ns.saturating_sub(started_ns),
            units,
            digest,
            work_per_s_milli: rate_per_second_milli(
                units,
                finished_ns.saturating_sub(started_ns),
            ),
            window_completed,
        }
    }
}

/// What is kept of a request.
#[derive(Clone, Copy, Debug, PartialEq, Eq, Structural)]
pub enum RequestRecord {
    /// A request that was timed as a whole.
    Timed {
        /// Time that it took, where that was measured.
        latency_ns: Option<u64>,
        /// How it was woken, where it slept.
        observation: Option<AsyncObservation>,
    },
    /// A request whose stages were timed.
    Staged(StageSample),
}

/// What a round of reads asks for.
#[derive(Clone, Copy, Debug, PartialEq, Eq, Structural)]
pub enum ReadAct {
    /// Fill the buffer with zeros.
    Clear,
    /// Start a computation; it waits for its start.
    Spawn(ComputeMode),
    /// Read the clock.
    Now,
    /// Let the computation run from this time on.
    StartCompute(u64),
    /// Read blocks.
    Read {
        /// How to wait. An asynchronous read is observed.
        mode: IoMode,
        /// First block.
        lba: u32,
        /// Place in the buffer.
        offset: usize,
        /// Bytes.
        len: usize,
        /// Whether the stages are timed.
        staged: bool,
    },
    /// Tell how the last asynchronous read was woken.
    Observe,
    /// Tell the time stamps of the last read.
    Stages,
    /// Keep the record of a request.
    Record(RequestRecord),
    /// Stop the computation and collect its result.
    StopCompute,
    /// Compute the checksum of the buffer.
    Checksum,
}

/// What comes back.
#[derive(Clone, Copy, Debug, PartialEq, Eq)]
pub enum ReadEvent {
    /// It was done.
    Done,
    /// The time.
    Time(u64),
    /// How the read ended.
    Outcome(SdMmcResult),
    /// How the read was woken.
    Seen(AsyncObservation),
    /// The time stamps.
    Stages(DriverStageObservation),
    /// What the computation achieved.
    Compute(ComputeResult),
    /// The checksum.
    Checksum(u64),
}

impl ReadEvent {
    /// The time; 0 without one.
    #[verifier::allow_in_spec]
    pub fn time(self) -> u64
        returns
            (match self {
                ReadEvent::Time(time) => time,
                _ => 0,
            }),
    {
        match self {
            ReadEvent::Time(time) => time,
            _ => 0,
        }
    }

    /// How the read ended. Without an answer it counts as failed.
    #[verifier::allow_in_spec]
    pub fn outcome(self) -> SdMmcResult
        returns
            (match self {
                ReadEvent::Outcome(result) => result,
                _ => Err(SdMmcError::Hardware),
            }),
    {
        match self {
            ReadEvent::Outcome(result) => result,
            _ => Err(SdMmcError::Hardware),
        }
    }

    /// How the read was woken. Without an answer it did not end.
    #[verifier::allow_in_spec]
    pub fn seen(self) -> AsyncObservation
        returns
            (match self {
                ReadEvent::Seen(seen) => seen,
                _ => crate::bench::wake::WakeRecorder::idle().seen,
            }),
    {
        match self {
            ReadEvent::Seen(seen) => seen,
            _ => crate::bench::wake::WakeRecorder::idle().seen,
        }
    }

    /// The time stamps. Without an answer there are none.
    #[verifier::allow_in_spec]
    pub fn stages(self) -> DriverStageObservation
        returns
            (match self {
                ReadEvent::Stages(stages) => stages,
                _ => DriverStageObservation::empty(),
            }),
    {
        match self {
            ReadEvent::Stages(stages) => stages,
            _ => DriverStageObservation::empty(),
        }
    }

    /// What the computation achieved, if it answered.
    #[verifier::allow_in_spec]
    pub fn compute(self) -> Option<ComputeResult>
        returns
            (match self {
                ReadEvent::Compute(result) => Some(result),
                _ => None::<ComputeResult>,
            }),
    {
        match self {
            ReadEvent::Compute(result) => Some(result),
            _ => None,
        }
    }

    /// The checksum. Without an answer it is that of no data.
    #[verifier::allow_in_spec]
    pub fn checksum(self) -> u64
        returns
            (match self {
                ReadEvent::Checksum(checksum) => checksum,
                _ => CHECKSUM_SEED,
            }),
    {
        match self {
            ReadEvent::Checksum(checksum) => checksum,
            _ => CHECKSUM_SEED,
        }
    }
}

/// The requests of a round, one after the other.
#[derive(Clone, Copy, Debug, PartialEq, Eq, Structural)]
pub struct ReadRequests {
    /// The workload.
    pub workload: ReadWorkload,
    /// How requests are waited for.
    pub mode: IoMode,
    /// One request of so many is timed; none without it.
    pub stride: Option<usize>,
    /// The stages of every request are timed instead.
    pub staged: bool,
    /// Number of the current request.
    pub request: usize,
    /// Where it stands.
    pub phase: ReadPhase,
}

/// Where a request stands.
#[derive(Clone, Copy, Debug, PartialEq, Eq, Structural)]
pub enum ReadPhase {
    /// Its start is timed.
    Start,
    /// It is read; it may have been timed from this time on.
    Read(Option<u64>),
    /// Its end is timed.
    End(u64),
    /// An asynchronous read is checked; it may have taken this time.
    Observe(Option<u64>),
    /// Its stages are collected.
    Stages,
    /// It is recorded.
    Record(RequestRecord),
}

impl ReadRequests {
    /// The state in which a request begins, or the end after the last one.
    pub open spec fn at_request(
        self,
        request: usize,
    ) -> Step<ReadRequests, Result<(), TestFailure>> {
        if request >= self.workload.request_count() {
            Step::Done(Ok(()))
        } else {
            let timed = !self.staged && match self.stride {
                Some(stride) => should_sample_latency(request, stride),
                None => false,
            };
            Step::Next(
                ReadRequests {
                    request,
                    phase: if timed {
                        ReadPhase::Start
                    } else {
                        ReadPhase::Read(None)
                    },
                    ..self
                },
            )
        }
    }

    /// Begins a request, or ends after the last one.
    pub fn begin(self, request: usize) -> (step: Step<ReadRequests, Result<(), TestFailure>>)
        ensures
            step == self.at_request(request),
    {
        if request >= self.workload.request_count() {
            Step::Done(Ok(()))
        } else {
            let timed = !self.staged && match self.stride {
                Some(stride) => should_sample_latency(request, stride),
                None => false,
            };
            Step::Next(
                ReadRequests {
                    request,
                    phase: if timed {
                        ReadPhase::Start
                    } else {
                        ReadPhase::Read(None)
                    },
                    ..self
                },
            )
        }
    }

    /// The state after a read that ended well.
    pub open spec fn after_read(
        self,
        elapsed: Option<u64>,
    ) -> Step<ReadRequests, Result<(), TestFailure>> {
        match self.mode {
            IoMode::Async => Step::Next(
                ReadRequests { phase: ReadPhase::Observe(elapsed), ..self },
            ),
            IoMode::Sync => if self.staged {
                Step::Next(ReadRequests { phase: ReadPhase::Stages, ..self })
            } else {
                match elapsed {
                    Some(latency_ns) => Step::Next(
                        ReadRequests {
                            phase: ReadPhase::Record(
                                RequestRecord::Timed {
                                    latency_ns: Some(latency_ns),
                                    observation: None,
                                },
                            ),
                            ..self
                        },
                    ),
                    None => self.at_request(self.request.wrapping_add(1)),
                }
            },
        }
    }

    /// Goes on after a read that ended well.
    pub fn complete(
        self,
        elapsed: Option<u64>,
    ) -> (step: Step<ReadRequests, Result<(), TestFailure>>)
        ensures
            step == self.after_read(elapsed),
    {
        match self.mode {
            IoMode::Async => Step::Next(
                ReadRequests { phase: ReadPhase::Observe(elapsed), ..self },
            ),
            IoMode::Sync => if self.staged {
                Step::Next(ReadRequests { phase: ReadPhase::Stages, ..self })
            } else {
                match elapsed {
                    Some(latency_ns) => Step::Next(
                        ReadRequests {
                            phase: ReadPhase::Record(
                                RequestRecord::Timed {
                                    latency_ns: Some(latency_ns),
                                    observation: None,
                                },
                            ),
                            ..self
                        },
                    ),
                    None => self.begin(self.request.wrapping_add(1)),
                }
            },
        }
    }
}

impl Machine for ReadRequests {
    type Act = ReadAct;

    type Event = ReadEvent;

    type Out = Result<(), TestFailure>;

    open spec fn op(self) -> ReadAct {
        match self.phase {
            ReadPhase::Start | ReadPhase::End(_) => ReadAct::Now,
            ReadPhase::Read(_) => ReadAct::Read {
                mode: self.mode,
                lba: self.workload.lba(self.request),
                offset: self.workload.offset(self.request),
                len: self.workload.request_bytes(),
                staged: self.staged,
            },
            ReadPhase::Observe(_) => ReadAct::Observe,
            ReadPhase::Stages => ReadAct::Stages,
            ReadPhase::Record(record) => ReadAct::Record(record),
        }
    }

    fn request(&self) -> (op: ReadAct) {
        match self.phase {
            ReadPhase::Start | ReadPhase::End(_) => ReadAct::Now,
            ReadPhase::Read(_) => ReadAct::Read {
                mode: self.mode,
                lba: self.workload.lba(self.request),
                offset: self.workload.offset(self.request),
                len: self.workload.request_bytes(),
                staged: self.staged,
            },
            ReadPhase::Observe(_) => ReadAct::Observe,
            ReadPhase::Stages => ReadAct::Stages,
            ReadPhase::Record(record) => ReadAct::Record(record),
        }
    }

    open spec fn next(self, reply: ReadEvent) -> Step<ReadRequests, Result<(), TestFailure>> {
        match self.phase {
            ReadPhase::Start => Step::Next(
                ReadRequests { phase: ReadPhase::Read(Some(reply.time())), ..self },
            ),
            ReadPhase::Read(started) => match reply.outcome() {
                Err(error) => Step::Done(
                    Err(TestFailure::Io { mode: self.mode, request: self.request, error }),
                ),
                Ok(_) => match started {
                    Some(started) => Step::Next(
                        ReadRequests { phase: ReadPhase::End(started), ..self },
                    ),
                    None => self.after_read(None),
                },
            },
            ReadPhase::End(started) => self.after_read(
                Some(reply.time().saturating_sub(started)),
            ),
            ReadPhase::Observe(elapsed) => match reply.seen().fault(
                self.workload.request_blocks,
            ) {
                Some(reason) => Step::Done(
                    Err(
                        TestFailure::AsyncTerminal {
                            request: self.request,
                            reason,
                            observation: reply.seen(),
                        },
                    ),
                ),
                None => if self.staged {
                    Step::Next(ReadRequests { phase: ReadPhase::Stages, ..self })
                } else {
                    Step::Next(
                        ReadRequests {
                            phase: ReadPhase::Record(
                                RequestRecord::Timed {
                                    latency_ns: elapsed,
                                    observation: Some(reply.seen()),
                                },
                            ),
                            ..self
                        },
                    )
                },
            },
            ReadPhase::Stages => match StageDurations::judged(
                reply.stages(),
                self.workload.request_blocks,
            ) {
                Err(fault) => Step::Done(
                    Err(
                        TestFailure::StageObservation {
                            workload: self.workload.name,
                            mode: self.mode,
                            request: self.request,
                            fault,
                            stages: reply.stages(),
                        },
                    ),
                ),
                Ok(durations) => Step::Next(
                    ReadRequests {
                        phase: ReadPhase::Record(
                            RequestRecord::Staged(
                                StageSample {
                                    request: self.request,
                                    lba: self.workload.lba(self.request),
                                    durations,
                                    irq_rintsts_bits: reply.stages().irq_rintsts_bits,
                                    irq_idsts_bits: reply.stages().irq_idsts_bits,
                                },
                            ),
                        ),
                        ..self
                    },
                ),
            },
            ReadPhase::Record(_) => self.at_request(self.request.wrapping_add(1)),
        }
    }

    fn step(self, reply: ReadEvent) -> (step: Step<ReadRequests, Result<(), TestFailure>>) {
        match self.phase {
            ReadPhase::Start => Step::Next(
                ReadRequests { phase: ReadPhase::Read(Some(reply.time())), ..self },
            ),
            ReadPhase::Read(started) => match reply.outcome() {
                Err(error) => Step::Done(
                    Err(TestFailure::Io { mode: self.mode, request: self.request, error }),
                ),
                Ok(_) => match started {
                    Some(started) => Step::Next(
                        ReadRequests { phase: ReadPhase::End(started), ..self },
                    ),
                    None => self.complete(None),
                },
            },
            ReadPhase::End(started) => self.complete(
                Some(reply.time().saturating_sub(started)),
            ),
            ReadPhase::Observe(elapsed) => match reply.seen().validate(
                self.workload.request_blocks,
            ) {
                Some(reason) => Step::Done(
                    Err(
                        TestFailure::AsyncTerminal {
                            request: self.request,
                            reason,
                            observation: reply.seen(),
                        },
                    ),
                ),
                None => if self.staged {
                    Step::Next(ReadRequests { phase: ReadPhase::Stages, ..self })
                } else {
                    Step::Next(
                        ReadRequests {
                            phase: ReadPhase::Record(
                                RequestRecord::Timed {
                                    latency_ns: elapsed,
                                    observation: Some(reply.seen()),
                                },
                            ),
                            ..self
                        },
                    )
                },
            },
            ReadPhase::Stages => match StageDurations::from_observation(
                reply.stages(),
                self.workload.request_blocks,
            ) {
                Err(fault) => Step::Done(
                    Err(
                        TestFailure::StageObservation {
                            workload: self.workload.name,
                            mode: self.mode,
                            request: self.request,
                            fault,
                            stages: reply.stages(),
                        },
                    ),
                ),
                Ok(durations) => Step::Next(
                    ReadRequests {
                        phase: ReadPhase::Record(
                            RequestRecord::Staged(
                                StageSample {
                                    request: self.request,
                                    lba: self.workload.lba(self.request),
                                    durations,
                                    irq_rintsts_bits: reply.stages().irq_rintsts_bits,
                                    irq_idsts_bits: reply.stages().irq_idsts_bits,
                                },
                            ),
                        ),
                        ..self
                    },
                ),
            },
            ReadPhase::Record(_) => self.begin(self.request.wrapping_add(1)),
        }
    }
}

/// One pass over a region.
#[derive(Clone, Copy, Debug, PartialEq, Eq, Structural)]
pub struct RoundPlan {
    /// The workload.
    pub workload: ReadWorkload,
    /// How requests are waited for.
    pub mode: IoMode,
    /// One request of so many is timed; none without it.
    pub stride: Option<usize>,
    /// The stages of every request are timed instead.
    pub staged: bool,
    /// What runs beside the reads.
    pub compute: Option<ComputeMode>,
    /// The checksum that the data must have, where it is known.
    pub expected: Option<u64>,
}

/// How a pass went.
#[derive(Clone, Copy, Debug, PartialEq, Eq, Structural)]
pub struct RoundEnd {
    /// Time that all requests took.
    pub elapsed_ns: u64,
    /// Checksum of the data.
    pub checksum: u64,
    /// What the computation beside it achieved.
    pub compute: Option<ComputeResult>,
}

/// A pass over a region, as a procedure.
#[derive(Clone, Copy, Debug, PartialEq, Eq)]
pub struct ReadRound {
    /// What to do.
    pub plan: RoundPlan,
    /// Where the pass stands.
    pub phase: RoundPhase,
}

/// Where a pass stands.
#[derive(Clone, Copy, Debug, PartialEq, Eq)]
pub enum RoundPhase {
    /// The buffer is cleared.
    Clear,
    /// The computation is started.
    Spawn(ComputeMode),
    /// The start is timed.
    Start,
    /// The computation is let go.
    Release(u64),
    /// The requests run.
    Requests(u64, ReadRequests),
    /// The end is timed.
    End(u64, Result<(), TestFailure>),
    /// The computation is stopped.
    Stop(u64, Result<(), TestFailure>),
    /// The checksum is computed.
    Sum(u64, Option<ComputeResult>),
}

impl ReadRound {
    /// A pass that is about to begin.
    #[verifier::allow_in_spec]
    pub fn new(plan: RoundPlan) -> ReadRound
        returns
            (ReadRound { plan, phase: RoundPhase::Clear }),
    {
        ReadRound { plan, phase: RoundPhase::Clear }
    }

    /// The state in another phase.
    #[verifier::allow_in_spec]
    pub fn at(self, phase: RoundPhase) -> ReadRound
        returns
            (ReadRound { phase, ..self }),
    {
        ReadRound { phase, ..self }
    }

    /// What a step of the requests makes of the pass.
    pub open spec fn with_requests(
        self,
        started: u64,
        step: Step<ReadRequests, Result<(), TestFailure>>,
    ) -> Step<ReadRound, Result<RoundEnd, TestFailure>> {
        match step {
            Step::Next(requests) => Step::Next(
                self.at(RoundPhase::Requests(started, requests)),
            ),
            Step::Done(result) => match (result, self.plan.compute) {
                (Err(failure), None) => Step::Done(Err(failure)),
                _ => Step::Next(self.at(RoundPhase::End(started, result))),
            },
        }
    }

    /// Takes a step of the requests.
    pub fn take_requests(
        self,
        started: u64,
        step: Step<ReadRequests, Result<(), TestFailure>>,
    ) -> (next: Step<ReadRound, Result<RoundEnd, TestFailure>>)
        ensures
            next == self.with_requests(started, step),
    {
        match step {
            Step::Next(requests) => Step::Next(
                self.at(RoundPhase::Requests(started, requests)),
            ),
            Step::Done(result) => match (result, self.plan.compute) {
                (Err(failure), None) => Step::Done(Err(failure)),
                _ => Step::Next(self.at(RoundPhase::End(started, result))),
            },
        }
    }

    /// The requests begin.
    pub open spec fn at_requests(
        self,
        started: u64,
    ) -> Step<ReadRound, Result<RoundEnd, TestFailure>> {
        self.with_requests(
            started,
            ReadRequests {
                workload: self.plan.workload,
                mode: self.plan.mode,
                stride: self.plan.stride,
                staged: self.plan.staged,
                request: 0,
                phase: ReadPhase::Start,
            }.at_request(0),
        )
    }

    /// Begins the requests.
    pub fn start_requests(
        self,
        started: u64,
    ) -> (next: Step<ReadRound, Result<RoundEnd, TestFailure>>)
        ensures
            next == self.at_requests(started),
    {
        self.take_requests(
            started,
            ReadRequests {
                workload: self.plan.workload,
                mode: self.plan.mode,
                stride: self.plan.stride,
                staged: self.plan.staged,
                request: 0,
                phase: ReadPhase::Start,
            }.begin(0),
        )
    }
}

impl Machine for ReadRound {
    type Act = ReadAct;

    type Event = ReadEvent;

    type Out = Result<RoundEnd, TestFailure>;

    open spec fn op(self) -> ReadAct {
        match self.phase {
            RoundPhase::Clear => ReadAct::Clear,
            RoundPhase::Spawn(mode) => ReadAct::Spawn(mode),
            RoundPhase::Start => ReadAct::Now,
            RoundPhase::Release(started) => ReadAct::StartCompute(started),
            RoundPhase::Requests(_, requests) => requests.op(),
            RoundPhase::End(_, _) => ReadAct::Now,
            RoundPhase::Stop(_, _) => ReadAct::StopCompute,
            RoundPhase::Sum(_, _) => ReadAct::Checksum,
        }
    }

    fn request(&self) -> (op: ReadAct) {
        match self.phase {
            RoundPhase::Clear => ReadAct::Clear,
            RoundPhase::Spawn(mode) => ReadAct::Spawn(mode),
            RoundPhase::Start => ReadAct::Now,
            RoundPhase::Release(started) => ReadAct::StartCompute(started),
            RoundPhase::Requests(_, requests) => requests.request(),
            RoundPhase::End(_, _) => ReadAct::Now,
            RoundPhase::Stop(_, _) => ReadAct::StopCompute,
            RoundPhase::Sum(_, _) => ReadAct::Checksum,
        }
    }

    open spec fn next(self, reply: ReadEvent) -> Step<ReadRound, Result<RoundEnd, TestFailure>> {
        match self.phase {
            RoundPhase::Clear => match self.plan.compute {
                Some(mode) => Step::Next(self.at(RoundPhase::Spawn(mode))),
                None => Step::Next(self.at(RoundPhase::Start)),
            },
            RoundPhase::Spawn(_) => Step::Next(self.at(RoundPhase::Start)),
            RoundPhase::Start => match self.plan.compute {
                Some(_) => Step::Next(self.at(RoundPhase::Release(reply.time()))),
                None => self.at_requests(reply.time()),
            },
            RoundPhase::Release(started) => self.at_requests(started),
            RoundPhase::Requests(started, requests) => self.with_requests(
                started,
                requests.next(reply),
            ),
            RoundPhase::End(started, result) => {
                let elapsed: u64 = reply.time().saturating_sub(started);
                match (self.plan.compute, result) {
                    (Some(_), _) => Step::Next(self.at(RoundPhase::Stop(elapsed, result))),
                    (None, Ok(_)) => Step::Next(self.at(RoundPhase::Sum(elapsed, None))),
                    (None, Err(failure)) => Step::Done(Err(failure)),
                }
            },
            RoundPhase::Stop(elapsed, result) => match result {
                Ok(_) => Step::Next(self.at(RoundPhase::Sum(elapsed, reply.compute()))),
                Err(failure) => Step::Done(Err(failure)),
            },
            RoundPhase::Sum(elapsed, compute) => {
                let mismatch = match self.plan.expected {
                    Some(expected) => if reply.checksum() != expected {
                        Some(expected)
                    } else {
                        None
                    },
                    None => None,
                };
                match mismatch {
                    Some(expected) => Step::Done(
                        Err(
                            TestFailure::DataMismatch {
                                workload: self.plan.workload.name,
                                expected,
                                actual: reply.checksum(),
                            },
                        ),
                    ),
                    None => Step::Done(
                        Ok(
                            RoundEnd {
                                elapsed_ns: elapsed,
                                checksum: reply.checksum(),
                                compute,
                            },
                        ),
                    ),
                }
            },
        }
    }

    fn step(self, reply: ReadEvent) -> (step: Step<ReadRound, Result<RoundEnd, TestFailure>>) {
        match self.phase {
            RoundPhase::Clear => match self.plan.compute {
                Some(mode) => Step::Next(self.at(RoundPhase::Spawn(mode))),
                None => Step::Next(self.at(RoundPhase::Start)),
            },
            RoundPhase::Spawn(_) => Step::Next(self.at(RoundPhase::Start)),
            RoundPhase::Start => match self.plan.compute {
                Some(_) => Step::Next(self.at(RoundPhase::Release(reply.time()))),
                None => self.start_requests(reply.time()),
            },
            RoundPhase::Release(started) => self.start_requests(started),
            RoundPhase::Requests(started, requests) => self.take_requests(
                started,
                requests.step(reply),
            ),
            RoundPhase::End(started, result) => {
                let elapsed: u64 = reply.time().saturating_sub(started);
                match (self.plan.compute, result) {
                    (Some(_), _) => Step::Next(self.at(RoundPhase::Stop(elapsed, result))),
                    (None, Ok(_)) => Step::Next(self.at(RoundPhase::Sum(elapsed, None))),
                    (None, Err(failure)) => Step::Done(Err(failure)),
                }
            },
            RoundPhase::Stop(elapsed, result) => match result {
                Ok(_) => Step::Next(self.at(RoundPhase::Sum(elapsed, reply.compute()))),
                Err(failure) => Step::Done(Err(failure)),
            },
            RoundPhase::Sum(elapsed, compute) => {
                let mismatch = match self.plan.expected {
                    Some(expected) => if reply.checksum() != expected {
                        Some(expected)
                    } else {
                        None
                    },
                    None => None,
                };
                match mismatch {
                    Some(expected) => Step::Done(
                        Err(
                            TestFailure::DataMismatch {
                                workload: self.plan.workload.name,
                                expected,
                                actual: reply.checksum(),
                            },
                        ),
                    ),
                    None => Step::Done(
                        Ok(
                            RoundEnd {
                                elapsed_ns: elapsed,
                                checksum: reply.checksum(),
                                compute,
                            },
                        ),
                    ),
                }
            },
        }
    }
}

} // verus!
