//! Test that asynchronous reads are right, about as fast as polled ones, and can
//! be cancelled.

use crate::bench::data::TEST_START_LBA;
use crate::bench::measure::TEST_ROUNDS;
use crate::bench::probe::{check_test_region, refusal, Aftermath, Refusal, READ_REGION_BLOCKS};
use crate::bench::read::IoMode;
use crate::bench::stats::{latency_report, low64, throughput_mib_s_milli, LatencyStats};
use crate::bench::wake::AsyncObservation;
use crate::error::{SdMmcError, SdMmcResult};
use crate::io::{Machine, Step};
use crate::regs::{BMod, Ctrl};
use crate::transfer::MAX_DMA_BLOCKS;
use vstd::prelude::*;

verus! {

/// Bytes that the rounds of one kind read.
pub const ROUNDS_BYTES: u64 = 655_360;

/// Steps of the comparison of one size of requests: five rounds of each kind.
pub const ROUNDS_PER_SIZE: usize = 10;

/// Blocks of a request.
#[verifier::allow_in_spec]
pub fn cancel_blocks(size: usize) -> usize
    returns
        (if size == 0 {
            1usize
        } else if size == 1 {
            4
        } else {
            32
        }),
{
    if size == 0 {
        1
    } else if size == 1 {
        4
    } else {
        32
    }
}

/// An asynchronous read ended as it should: completely, and by an interrupt whose
/// times are known.
#[verifier::allow_in_spec]
pub fn terminal_irq_ok(seen: AsyncObservation, request_blocks: usize) -> bool
    returns
        (AsyncObservation { generation: 1, ..seen }).read_complete(request_blocks)
            && seen.entry_to_resume_ns != 0 && seen.notify_to_resume_ns != 0,
{
    (AsyncObservation { generation: 1, ..seen }).read_complete(request_blocks)
        && seen.entry_to_resume_ns != 0 && seen.notify_to_resume_ns != 0
}

/// Where two contents differ.
#[derive(Clone, Copy, Debug, PartialEq, Eq, Structural)]
pub struct Mismatch {
    /// Offset of the first difference.
    pub offset: usize,
    /// Byte that was expected.
    pub expected: u8,
    /// Byte that was read.
    pub actual: u8,
}

/// Why the test stopped.
#[derive(Clone, Copy, Debug, PartialEq, Eq, Structural)]
pub enum CancelFailure {
    /// It cannot run here.
    Refused(Refusal),
    /// A request failed.
    Read {
        /// How it was waited for.
        mode: IoMode,
        /// Its blocks.
        request_blocks: usize,
        /// Its number.
        request: usize,
        /// The error.
        error: SdMmcError,
    },
    /// An asynchronous request did not end as it should.
    Terminal {
        /// Its blocks.
        request_blocks: usize,
        /// Its number.
        request: usize,
        /// What was seen.
        seen: AsyncObservation,
    },
    /// A round read other data than the first one.
    Data {
        /// How it was waited for; nothing for the second look.
        round: Option<IoMode>,
        /// Blocks of a request.
        request_blocks: usize,
        /// The difference.
        mismatch: Mismatch,
    },
    /// The read that was to be cancelled ended at once.
    NotPending,
}

/// What the test asks for.
#[derive(Clone, Copy, Debug, PartialEq, Eq, Structural)]
pub enum CancelAct {
    /// Tell what the card and the driver look like.
    Card,
    /// Fill the buffer with zeros.
    Clear,
    /// Read the clock.
    Now,
    /// Read blocks into the buffer.
    Read {
        /// How to wait.
        mode: IoMode,
        /// First block.
        lba: u32,
        /// Place in the buffer.
        offset: usize,
        /// Bytes.
        len: usize,
    },
    /// Tell how the last read was woken.
    Observe,
    /// Keep the times of that read.
    Record(AsyncObservation),
    /// Save the buffer.
    Save,
    /// Compare the buffer with what was saved.
    Compare,
    /// Report one size of requests.
    Report(SizeReport),
    /// Begin an asynchronous read, poll it once, and drop it.
    CancelRead {
        /// First block.
        lba: u32,
        /// Blocks.
        blocks: usize,
    },
    /// Tell the state of driver and controller.
    Aftermath,
    /// Read one block.
    NextRead {
        /// The block.
        lba: u32,
    },
}

/// What comes back.
#[derive(Clone, Copy, Debug, PartialEq, Eq)]
pub enum CancelReply {
    /// It was done.
    Done,
    /// What the card and the driver look like.
    Card {
        /// Blocks of the card.
        num_blocks: u64,
        /// Bytes of the transfer buffer, 0 without one.
        dma_size: usize,
    },
    /// The time.
    Time(u64),
    /// How the read ended.
    Outcome(SdMmcResult),
    /// How the read was woken.
    Seen(AsyncObservation),
    /// Where the contents differ, if they do.
    Compared(Option<Mismatch>),
    /// Whether the read was still pending.
    Pending(bool),
    /// The state of driver and controller.
    Aftermath(Aftermath),
}

impl CancelReply {
    /// The time; 0 without one.
    #[verifier::allow_in_spec]
    pub fn time(self) -> u64
        returns
            (match self {
                CancelReply::Time(time) => time,
                _ => 0,
            }),
    {
        match self {
            CancelReply::Time(time) => time,
            _ => 0,
        }
    }

    /// How the read ended. Without an answer it counts as failed.
    #[verifier::allow_in_spec]
    pub fn outcome(self) -> SdMmcResult
        returns
            (match self {
                CancelReply::Outcome(result) => result,
                _ => Err(SdMmcError::Hardware),
            }),
    {
        match self {
            CancelReply::Outcome(result) => result,
            _ => Err(SdMmcError::Hardware),
        }
    }

    /// How the read was woken. Without an answer it did not end.
    #[verifier::allow_in_spec]
    pub fn seen(self) -> AsyncObservation
        returns
            (match self {
                CancelReply::Seen(seen) => seen,
                _ => crate::bench::wake::WakeRecorder::idle().seen,
            }),
    {
        match self {
            CancelReply::Seen(seen) => seen,
            _ => crate::bench::wake::WakeRecorder::idle().seen,
        }
    }

    /// Where the contents differ. Without an answer they do at once.
    #[verifier::allow_in_spec]
    pub fn mismatch(self) -> Option<Mismatch>
        returns
            (match self {
                CancelReply::Compared(mismatch) => mismatch,
                _ => Some(Mismatch { offset: 0, expected: 0, actual: 0 }),
            }),
    {
        match self {
            CancelReply::Compared(mismatch) => mismatch,
            _ => Some(Mismatch { offset: 0, expected: 0, actual: 0 }),
        }
    }

    /// Whether the read was still pending; not without an answer.
    #[verifier::allow_in_spec]
    pub fn pending(self) -> bool
        returns
            (match self {
                CancelReply::Pending(pending) => pending,
                _ => false,
            }),
    {
        match self {
            CancelReply::Pending(pending) => pending,
            _ => false,
        }
    }

    /// The state of driver and controller; in order without an answer.
    #[verifier::allow_in_spec]
    pub fn aftermath(self) -> Aftermath
        returns
            (match self {
                CancelReply::Aftermath(after) => after,
                _ => Aftermath {
                    faulted: false,
                    reset_failed: false,
                    bmod: 0,
                    ctrl: 0,
                    intmask: 0,
                    idinten: 0,
                },
            }),
    {
        match self {
            CancelReply::Aftermath(after) => after,
            _ => Aftermath {
                faulted: false,
                reset_failed: false,
                bmod: 0,
                ctrl: 0,
                intmask: 0,
                idinten: 0,
            },
        }
    }
}

/// The rounds of one size of requests.
#[derive(Clone, Copy, Debug, PartialEq, Eq, Structural)]
pub struct SizeReport {
    /// Blocks of a request.
    pub request_blocks: usize,
    /// Time of the polled rounds.
    pub sync_elapsed_ns: u64,
    /// Time of the asynchronous rounds.
    pub async_elapsed_ns: u64,
    /// Throughput of the polled rounds.
    pub sync_mib_s_milli: u64,
    /// Throughput of the asynchronous rounds.
    pub async_mib_s_milli: u64,
    /// The latter in thousandths of the former.
    pub async_vs_sync_milli: u64,
    /// Both differ by at most 15 %.
    pub consistent: bool,
}

/// Thousandths by which asynchronous rounds are as fast as polled ones.
pub open spec fn speed_of(sync_elapsed_ns: u64, async_elapsed_ns: u64) -> u64 {
    low64(
        sync_elapsed_ns * 1_000int / (if async_elapsed_ns == 0 {
            1int
        } else {
            async_elapsed_ns as int
        }),
    )
}

/// Compares the times of asynchronous and polled rounds.
#[verifier::when_used_as_spec(speed_of)]
pub fn async_vs_sync(sync_elapsed_ns: u64, async_elapsed_ns: u64) -> (speed: u64)
    ensures
        speed == speed_of(sync_elapsed_ns, async_elapsed_ns),
{
    crate::bench::stats::ratio_permille(sync_elapsed_ns, async_elapsed_ns)
}

/// The report on one size of requests.
pub open spec fn size_report(
    request_blocks: usize,
    sync_elapsed_ns: u64,
    async_elapsed_ns: u64,
) -> SizeReport {
    let speed: u64 = async_vs_sync(sync_elapsed_ns, async_elapsed_ns);
    SizeReport {
        request_blocks,
        sync_elapsed_ns,
        async_elapsed_ns,
        sync_mib_s_milli: throughput_mib_s_milli(ROUNDS_BYTES, sync_elapsed_ns),
        async_mib_s_milli: throughput_mib_s_milli(ROUNDS_BYTES, async_elapsed_ns),
        async_vs_sync_milli: speed,
        consistent: 850 <= speed && speed <= 1150,
    }
}

/// Reports on one size of requests.
pub fn report_size(
    request_blocks: usize,
    sync_elapsed_ns: u64,
    async_elapsed_ns: u64,
) -> (report: SizeReport)
    ensures
        report == size_report(request_blocks, sync_elapsed_ns, async_elapsed_ns),
{
    let speed: u64 = async_vs_sync(sync_elapsed_ns, async_elapsed_ns);
    SizeReport {
        request_blocks,
        sync_elapsed_ns,
        async_elapsed_ns,
        sync_mib_s_milli: throughput_mib_s_milli(ROUNDS_BYTES, sync_elapsed_ns),
        async_mib_s_milli: throughput_mib_s_milli(ROUNDS_BYTES, async_elapsed_ns),
        async_vs_sync_milli: speed,
        consistent: 850 <= speed && speed <= 1150,
    }
}

/// The cancellation went as it should: the driver is out of order, the engine is
/// stopped, no interrupt is enabled, and the next read is refused.
pub open spec fn cancellation_ok(after: Aftermath, next_read: SdMmcResult) -> bool {
    let refused = match next_read {
        Err(error) => error == SdMmcError::DriverFaulted,
        Ok(_) => false,
    };
    after.faulted && !after.reset_failed && !BMod(after.bmod).de() && !BMod(after.bmod).swr()
        && !Ctrl(after.ctrl).use_internal_dmac() && !Ctrl(after.ctrl).dma_reset() && !Ctrl(
        after.ctrl,
    ).int_enable() && after.intmask == 0 && after.idinten == 0 && refused
}

/// Judges the cancellation.
pub fn judge_cancellation(after: Aftermath, next_read: SdMmcResult) -> (ok: bool)
    ensures
        ok == cancellation_ok(after, next_read),
{
    let refused = match next_read {
        Err(error) => error == SdMmcError::DriverFaulted,
        Ok(_) => false,
    };
    after.faulted && !after.reset_failed && !BMod(after.bmod).de() && !BMod(after.bmod).swr()
        && !Ctrl(after.ctrl).use_internal_dmac() && !Ctrl(after.ctrl).dma_reset() && !Ctrl(
        after.ctrl,
    ).int_enable() && after.intmask == 0 && after.idinten == 0 && refused
}

/// What the test ends with.
#[derive(Clone, Copy, Debug, PartialEq, Eq)]
pub struct CancelEnd {
    /// Asynchronous reads were about as fast as polled ones.
    pub throughput_consistent: bool,
    /// The cancellation went as it should.
    pub cancellation_ok: bool,
    /// State of driver and controller after it.
    pub after: Aftermath,
    /// How the next read ended.
    pub next_read: SdMmcResult,
}

/// Where the test stands.
#[derive(Clone, Copy, Debug, PartialEq, Eq)]
pub enum CancelPhase {
    /// The card is looked at.
    Card,
    /// The buffer is cleared for a round.
    Clear,
    /// The start of the round is timed.
    Start,
    /// A request is read.
    Read(u64, usize),
    /// It is looked at.
    Observe(u64, usize),
    /// Its times are kept.
    Record(u64, usize, AsyncObservation),
    /// The end of the round is timed.
    End(u64),
    /// The first look is saved.
    Save,
    /// What was read is compared.
    Compare(u64),
    /// One size of requests is reported.
    Report,
    /// A read is cancelled.
    Cancel,
    /// Driver and controller are looked at.
    Aftermath,
    /// The next read is tried.
    NextRead(Aftermath),
}

/// The test. Round 0 is the first look, round 1 the second one; then follow, for
/// each size of requests, five polled and five asynchronous rounds.
#[derive(Clone, Copy, Debug, PartialEq, Eq)]
pub struct CancelTest {
    /// Number of the round.
    pub round: usize,
    /// Time of the polled rounds of the current size.
    pub sync_elapsed_ns: u64,
    /// Time of the asynchronous rounds of the current size.
    pub async_elapsed_ns: u64,
    /// Asynchronous reads were about as fast as polled ones so far.
    pub consistent: bool,
    /// Where the test stands.
    pub phase: CancelPhase,
}

/// How the test ends.
pub type CancelOut = Result<CancelEnd, CancelFailure>;

impl CancelTest {
    /// The test that is about to begin.
    #[verifier::allow_in_spec]
    pub fn new() -> CancelTest
        returns
            (CancelTest {
                round: 0,
                sync_elapsed_ns: 0,
                async_elapsed_ns: 0,
                consistent: true,
                phase: CancelPhase::Card,
            }),
    {
        CancelTest {
            round: 0,
            sync_elapsed_ns: 0,
            async_elapsed_ns: 0,
            consistent: true,
            phase: CancelPhase::Card,
        }
    }

    /// The test in another phase.
    #[verifier::allow_in_spec]
    pub fn at(self, phase: CancelPhase) -> Step<CancelTest, CancelOut>
        returns
            (Step::<CancelTest, CancelOut>::Next(CancelTest { phase, ..self })),
    {
        Step::Next(CancelTest { phase, ..self })
    }

    /// Blocks of a request of the round.
    #[verifier::allow_in_spec]
    pub fn request_blocks(self) -> usize
        returns
            (if self.round < 2 {
                32
            } else {
                cancel_blocks((self.round.wrapping_sub(2) / ROUNDS_PER_SIZE) as usize)
            }),
    {
        if self.round < 2 {
            32
        } else {
            cancel_blocks(self.round.wrapping_sub(2) / ROUNDS_PER_SIZE)
        }
    }

    /// How the requests of the round are waited for.
    #[verifier::allow_in_spec]
    pub fn mode(self) -> IoMode
        returns
            (if self.round < 2 || self.round.wrapping_sub(2) % ROUNDS_PER_SIZE < TEST_ROUNDS {
                IoMode::Sync
            } else {
                IoMode::Async
            }),
    {
        if self.round < 2 || self.round.wrapping_sub(2) % ROUNDS_PER_SIZE < TEST_ROUNDS {
            IoMode::Sync
        } else {
            IoMode::Async
        }
    }

    /// The next request of a round, or its end.
    pub open spec fn at_next(self, started: u64, request: usize) -> Step<CancelTest, CancelOut> {
        if request < READ_REGION_BLOCKS / self.request_blocks() {
            self.at(CancelPhase::Read(started, request))
        } else {
            self.at(CancelPhase::End(started))
        }
    }

    /// Goes on to the next request of a round, or to its end.
    pub fn go_on(self, started: u64, request: usize) -> (step: Step<CancelTest, CancelOut>)
        ensures
            step == self.at_next(started, request),
    {
        if request < READ_REGION_BLOCKS / self.request_blocks() {
            self.at(CancelPhase::Read(started, request))
        } else {
            self.at(CancelPhase::End(started))
        }
    }

    /// The state after a round whose data is right.
    pub open spec fn after_round(self, elapsed: u64) -> Step<CancelTest, CancelOut> {
        let sync_elapsed_ns: u64 = match self.mode() {
            IoMode::Sync => if self.round < 2 {
                0
            } else {
                self.sync_elapsed_ns.saturating_add(elapsed)
            },
            IoMode::Async => self.sync_elapsed_ns,
        };
        let async_elapsed_ns: u64 = match self.mode() {
            IoMode::Sync => self.async_elapsed_ns,
            IoMode::Async => self.async_elapsed_ns.saturating_add(elapsed),
        };
        let later = CancelTest { sync_elapsed_ns, async_elapsed_ns, ..self };
        if self.round >= 2 && self.round.wrapping_sub(2) % ROUNDS_PER_SIZE == 9 {
            later.at(CancelPhase::Report)
        } else {
            CancelTest { round: self.round.wrapping_add(1), ..later }.at(CancelPhase::Clear)
        }
    }

    /// Goes on after a round whose data is right.
    pub fn finish_round(self, elapsed: u64) -> (step: Step<CancelTest, CancelOut>)
        ensures
            step == self.after_round(elapsed),
    {
        let sync_elapsed_ns: u64 = match self.mode() {
            IoMode::Sync => if self.round < 2 {
                0
            } else {
                self.sync_elapsed_ns.saturating_add(elapsed)
            },
            IoMode::Async => self.sync_elapsed_ns,
        };
        let async_elapsed_ns: u64 = match self.mode() {
            IoMode::Sync => self.async_elapsed_ns,
            IoMode::Async => self.async_elapsed_ns.saturating_add(elapsed),
        };
        let later = CancelTest { sync_elapsed_ns, async_elapsed_ns, ..self };
        if self.round >= 2 && self.round.wrapping_sub(2) % ROUNDS_PER_SIZE == 9 {
            later.at(CancelPhase::Report)
        } else {
            CancelTest { round: self.round.wrapping_add(1), ..later }.at(CancelPhase::Clear)
        }
    }
}

impl Machine for CancelTest {
    type Act = CancelAct;

    type Event = CancelReply;

    type Out = CancelOut;

    open spec fn op(self) -> CancelAct {
        match self.phase {
            CancelPhase::Card => CancelAct::Card,
            CancelPhase::Clear => CancelAct::Clear,
            CancelPhase::Start | CancelPhase::End(_) => CancelAct::Now,
            CancelPhase::Read(_, request) => {
                let place: usize = request.wrapping_mul(self.request_blocks());
                CancelAct::Read {
                    mode: self.mode(),
                    lba: TEST_START_LBA.wrapping_add(place as u32),
                    offset: place.wrapping_mul(512),
                    len: self.request_blocks().wrapping_mul(512),
                }
            },
            CancelPhase::Observe(_, _) => CancelAct::Observe,
            CancelPhase::Record(_, _, seen) => CancelAct::Record(seen),
            CancelPhase::Save => CancelAct::Save,
            CancelPhase::Compare(_) => CancelAct::Compare,
            CancelPhase::Report => CancelAct::Report(
                size_report(self.request_blocks(), self.sync_elapsed_ns, self.async_elapsed_ns),
            ),
            CancelPhase::Cancel => CancelAct::CancelRead {
                lba: TEST_START_LBA,
                blocks: MAX_DMA_BLOCKS,
            },
            CancelPhase::Aftermath => CancelAct::Aftermath,
            CancelPhase::NextRead(_) => CancelAct::NextRead { lba: TEST_START_LBA },
        }
    }

    fn request(&self) -> (op: CancelAct) {
        match self.phase {
            CancelPhase::Card => CancelAct::Card,
            CancelPhase::Clear => CancelAct::Clear,
            CancelPhase::Start | CancelPhase::End(_) => CancelAct::Now,
            CancelPhase::Read(_, request) => {
                let place: usize = request.wrapping_mul(self.request_blocks());
                CancelAct::Read {
                    mode: self.mode(),
                    lba: TEST_START_LBA.wrapping_add(place as u32),
                    offset: place.wrapping_mul(512),
                    len: self.request_blocks().wrapping_mul(512),
                }
            },
            CancelPhase::Observe(_, _) => CancelAct::Observe,
            CancelPhase::Record(_, _, seen) => CancelAct::Record(seen),
            CancelPhase::Save => CancelAct::Save,
            CancelPhase::Compare(_) => CancelAct::Compare,
            CancelPhase::Report => CancelAct::Report(
                report_size(self.request_blocks(), self.sync_elapsed_ns, self.async_elapsed_ns),
            ),
            CancelPhase::Cancel => CancelAct::CancelRead {
                lba: TEST_START_LBA,
                blocks: MAX_DMA_BLOCKS,
            },
            CancelPhase::Aftermath => CancelAct::Aftermath,
            CancelPhase::NextRead(_) => CancelAct::NextRead { lba: TEST_START_LBA },
        }
    }

    open spec fn next(self, reply: CancelReply) -> Step<CancelTest, CancelOut> {
        match self.phase {
            CancelPhase::Card => {
                let (num_blocks, dma_size): (u64, usize) = match reply {
                    CancelReply::Card { num_blocks, dma_size } => (num_blocks, dma_size),
                    _ => (0, 0),
                };
                match refusal(num_blocks, dma_size) {
                    Some(reason) => Step::Done(Err(CancelFailure::Refused(reason))),
                    None => self.at(CancelPhase::Clear),
                }
            },
            CancelPhase::Clear => self.at(CancelPhase::Start),
            CancelPhase::Start => self.at_next(reply.time(), 0),
            CancelPhase::Read(started, request) => match reply.outcome() {
                Err(error) => Step::Done(
                    Err(
                        CancelFailure::Read {
                            mode: self.mode(),
                            request_blocks: self.request_blocks(),
                            request,
                            error,
                        },
                    ),
                ),
                Ok(_) => match self.mode() {
                    IoMode::Sync => self.at_next(started, request.wrapping_add(1)),
                    IoMode::Async => self.at(CancelPhase::Observe(started, request)),
                },
            },
            CancelPhase::Observe(started, request) => if terminal_irq_ok(
                reply.seen(),
                self.request_blocks(),
            ) {
                self.at(CancelPhase::Record(started, request, reply.seen()))
            } else {
                Step::Done(
                    Err(
                        CancelFailure::Terminal {
                            request_blocks: self.request_blocks(),
                            request,
                            seen: reply.seen(),
                        },
                    ),
                )
            },
            CancelPhase::Record(started, request, _) => self.at_next(
                started,
                request.wrapping_add(1),
            ),
            CancelPhase::End(started) => if self.round == 0 {
                self.at(CancelPhase::Save)
            } else {
                self.at(CancelPhase::Compare(reply.time().saturating_sub(started)))
            },
            CancelPhase::Save => CancelTest { round: 1, ..self }.at(CancelPhase::Clear),
            CancelPhase::Compare(elapsed) => match reply.mismatch() {
                Some(mismatch) => Step::Done(
                    Err(
                        CancelFailure::Data {
                            round: if self.round < 2 {
                                None
                            } else {
                                Some(self.mode())
                            },
                            request_blocks: self.request_blocks(),
                            mismatch,
                        },
                    ),
                ),
                None => self.after_round(elapsed),
            },
            CancelPhase::Report => {
                let report = size_report(
                    self.request_blocks(),
                    self.sync_elapsed_ns,
                    self.async_elapsed_ns,
                );
                let later = CancelTest {
                    round: self.round.wrapping_add(1),
                    sync_elapsed_ns: 0,
                    async_elapsed_ns: 0,
                    consistent: self.consistent && report.consistent,
                    phase: CancelPhase::Clear,
                };
                if later.round < 32 {
                    Step::Next(later)
                } else {
                    later.at(CancelPhase::Cancel)
                }
            },
            CancelPhase::Cancel => if reply.pending() {
                self.at(CancelPhase::Aftermath)
            } else {
                Step::Done(Err(CancelFailure::NotPending))
            },
            CancelPhase::Aftermath => self.at(CancelPhase::NextRead(reply.aftermath())),
            CancelPhase::NextRead(after) => Step::Done(
                Ok(
                    CancelEnd {
                        throughput_consistent: self.consistent,
                        cancellation_ok: cancellation_ok(after, reply.outcome()),
                        after,
                        next_read: reply.outcome(),
                    },
                ),
            ),
        }
    }

    fn step(self, reply: CancelReply) -> (step: Step<CancelTest, CancelOut>) {
        match self.phase {
            CancelPhase::Card => {
                let (num_blocks, dma_size): (u64, usize) = match reply {
                    CancelReply::Card { num_blocks, dma_size } => (num_blocks, dma_size),
                    _ => (0, 0),
                };
                match check_test_region(num_blocks, dma_size) {
                    Some(reason) => Step::Done(Err(CancelFailure::Refused(reason))),
                    None => self.at(CancelPhase::Clear),
                }
            },
            CancelPhase::Clear => self.at(CancelPhase::Start),
            CancelPhase::Start => self.go_on(reply.time(), 0),
            CancelPhase::Read(started, request) => match reply.outcome() {
                Err(error) => Step::Done(
                    Err(
                        CancelFailure::Read {
                            mode: self.mode(),
                            request_blocks: self.request_blocks(),
                            request,
                            error,
                        },
                    ),
                ),
                Ok(_) => match self.mode() {
                    IoMode::Sync => self.go_on(started, request.wrapping_add(1)),
                    IoMode::Async => self.at(CancelPhase::Observe(started, request)),
                },
            },
            CancelPhase::Observe(started, request) => if terminal_irq_ok(
                reply.seen(),
                self.request_blocks(),
            ) {
                self.at(CancelPhase::Record(started, request, reply.seen()))
            } else {
                Step::Done(
                    Err(
                        CancelFailure::Terminal {
                            request_blocks: self.request_blocks(),
                            request,
                            seen: reply.seen(),
                        },
                    ),
                )
            },
            CancelPhase::Record(started, request, _) => self.go_on(
                started,
                request.wrapping_add(1),
            ),
            CancelPhase::End(started) => if self.round == 0 {
                self.at(CancelPhase::Save)
            } else {
                self.at(CancelPhase::Compare(reply.time().saturating_sub(started)))
            },
            CancelPhase::Save => CancelTest { round: 1, ..self }.at(CancelPhase::Clear),
            CancelPhase::Compare(elapsed) => match reply.mismatch() {
                Some(mismatch) => Step::Done(
                    Err(
                        CancelFailure::Data {
                            round: if self.round < 2 {
                                None
                            } else {
                                Some(self.mode())
                            },
                            request_blocks: self.request_blocks(),
                            mismatch,
                        },
                    ),
                ),
                None => self.finish_round(elapsed),
            },
            CancelPhase::Report => {
                let report = report_size(
                    self.request_blocks(),
                    self.sync_elapsed_ns,
                    self.async_elapsed_ns,
                );
                let later = CancelTest {
                    round: self.round.wrapping_add(1),
                    sync_elapsed_ns: 0,
                    async_elapsed_ns: 0,
                    consistent: self.consistent && report.consistent,
                    phase: CancelPhase::Clear,
                };
                if later.round < 32 {
                    Step::Next(later)
                } else {
                    later.at(CancelPhase::Cancel)
                }
            },
            CancelPhase::Cancel => if reply.pending() {
                self.at(CancelPhase::Aftermath)
            } else {
                Step::Done(Err(CancelFailure::NotPending))
            },
            CancelPhase::Aftermath => self.at(CancelPhase::NextRead(reply.aftermath())),
            CancelPhase::NextRead(after) => Step::Done(
                Ok(
                    CancelEnd {
                        throughput_consistent: self.consistent,
                        cancellation_ok: judge_cancellation(after, reply.outcome()),
                        after,
                        next_read: reply.outcome(),
                    },
                ),
            ),
        }
    }
}

/// Statistics of the times of wakings.
#[derive(Clone, Copy, Debug, PartialEq, Eq, Structural)]
pub struct WakeStats {
    /// Smallest.
    pub min: u64,
    /// The others.
    pub latency: LatencyStats,
}

/// Sorts the times of wakings and computes their statistics.
pub fn wake_stats(samples: &[u64]) -> (stats: WakeStats)
    requires
        samples.len() > 0,
        samples.len() * 99 <= usize::MAX,
    ensures
        crate::bench::stats::is_minimum(samples@, stats.min),
        crate::bench::stats::sums_up(stats.latency, samples@),
{
    let (min, _): (u64, u64) = crate::bench::stats::extremes(samples);
    WakeStats { min, latency: latency_report(samples) }
}

} // verus!
