//! Test of asynchronous writes and of the wait for the card that follows each
//! transfer.

use crate::bench::data::TEST_START_LBA;
use crate::bench::write::TEST_REGION_BLOCKS;
use crate::error::{SdMmcError, SdMmcResult};
use crate::io::{lemma_run_invariant, run, Machine, Step};
use crate::transfer::MAX_DMA_BLOCKS;
use vstd::prelude::*;

verus! {

/// Number of cases.
pub const BUSY_CASES: usize = 6;

/// Blocks of the request of a case.
#[verifier::allow_in_spec]
pub fn busy_blocks(case: usize) -> usize
    returns
        (if case == 0 {
            1usize
        } else if case == 1 {
            2
        } else if case == 2 {
            8
        } else if case == 3 {
            32
        } else if case == 4 {
            33
        } else {
            64
        }),
{
    if case == 0 {
        1
    } else if case == 1 {
        2
    } else if case == 2 {
        8
    } else if case == 3 {
        32
    } else if case == 4 {
        33
    } else {
        64
    }
}

/// Transfers that the request of a case takes.
#[verifier::allow_in_spec]
pub fn busy_chunks(case: usize) -> usize
    returns
        (if case >= 4 {
            2usize
        } else {
            1
        }),
{
    if case >= 4 {
        2
    } else {
        1
    }
}

/// A request takes as many transfers as it has parts of the largest size, begun
/// ones included.
pub proof fn law_chunks_of_a_case(case: usize)
    ensures
        (busy_chunks(case) - 1) * MAX_DMA_BLOCKS < busy_blocks(case) <= busy_chunks(case)
            * MAX_DMA_BLOCKS,
        busy_blocks(case) <= TEST_REGION_BLOCKS,
{
}

/// The commands that a request takes, for reports.
pub fn async_write_test_command_plan(request_blocks: usize) -> (plan: &'static str)
    ensures
        plan@ == (if request_blocks == 1 {
            "CMD24"@
        } else if 2 <= request_blocks <= 32 {
            "CMD25"@
        } else if request_blocks == 33 {
            "CMD25(32)+CMD24(1)"@
        } else if request_blocks == 64 {
            "CMD25(32)+CMD25(32)"@
        } else {
            "chunked"@
        }),
{
    if request_blocks == 1 {
        "CMD24"
    } else if 2 <= request_blocks && request_blocks <= 32 {
        "CMD25"
    } else if request_blocks == 33 {
        "CMD25(32)+CMD24(1)"
    } else if request_blocks == 64 {
        "CMD25(32)+CMD25(32)"
    } else {
        "chunked"
    }
}

/// Counters of the driver.
#[derive(Clone, Copy, Debug, PartialEq, Eq, Structural)]
pub struct Counters {
    /// Generation of the last transfer.
    pub generation: usize,
    /// Generation of the transfer that the last interrupt belonged to.
    pub irq_generation: usize,
    /// Transfers that had an interrupt.
    pub irq_transfer_count: usize,
    /// Asynchronous waits for the card.
    pub busy_sequence: usize,
}

impl Counters {
    /// So many transfers have taken place, and each of them had an interrupt.
    #[verifier::allow_in_spec]
    pub fn irq_per_chunk(self, before: Counters, chunks: usize) -> bool
        returns
            self.generation == before.generation.wrapping_add(chunks) && self.irq_generation
                == before.generation.wrapping_add(chunks) && self.irq_transfer_count
                == before.irq_transfer_count.wrapping_add(chunks),
    {
        self.generation == before.generation.wrapping_add(chunks) && self.irq_generation
            == before.generation.wrapping_add(chunks) && self.irq_transfer_count
            == before.irq_transfer_count.wrapping_add(chunks)
    }

    /// So many times the card was waited for.
    #[verifier::allow_in_spec]
    pub fn wait_per_chunk(self, before: Counters, chunks: usize) -> bool
        returns
            self.busy_sequence == before.busy_sequence.wrapping_add(chunks),
    {
        self.busy_sequence == before.busy_sequence.wrapping_add(chunks)
    }
}

/// What the test asks for.
#[derive(Clone, Copy, Debug, PartialEq, Eq)]
pub enum BusyAct {
    /// Tell the number of blocks of the card.
    Capacity,
    /// Allocate the buffers.
    Allocate,
    /// Read the region and save it.
    ReadBackup {
        /// First block.
        lba: u32,
        /// Blocks.
        blocks: usize,
    },
    /// Read the region.
    ReadRegion {
        /// First block.
        lba: u32,
        /// Blocks.
        blocks: usize,
    },
    /// Compare what was read with what was saved.
    CompareBackup,
    /// Make the pattern of a case.
    Fill {
        /// First block that it is made for.
        lba: u32,
        /// Its blocks.
        blocks: usize,
        /// Its tag.
        tag: u8,
    },
    /// Read the clock.
    Now,
    /// Tell the counters.
    Counters,
    /// Write the pattern asynchronously.
    Write {
        /// First block.
        lba: u32,
        /// Its blocks.
        blocks: usize,
    },
    /// Read so many blocks.
    ReadBack {
        /// First block.
        lba: u32,
        /// The blocks.
        blocks: usize,
    },
    /// Compare them with the pattern.
    ComparePattern {
        /// The blocks.
        blocks: usize,
    },
    /// Tell whether the driver is out of order.
    Faulted,
    /// Write what was saved to the region.
    WriteBackup {
        /// First block.
        lba: u32,
        /// Blocks.
        blocks: usize,
    },
    /// Report a case.
    Report {
        /// Its number, from 0 on.
        case: usize,
        /// What it has found out.
        findings: BusyFindings,
        /// Whether the region is back in order.
        restore: SdMmcResult,
    },
}

/// What comes back.
#[derive(Clone, Copy, Debug, PartialEq, Eq)]
pub enum BusyReply {
    /// It was done.
    Done,
    /// Number of blocks.
    Blocks(u64),
    /// Yes or no.
    Flag(bool),
    /// The time.
    Time(u64),
    /// How a transfer ended.
    Outcome(SdMmcResult),
    /// The counters.
    Counters(Counters),
}

impl BusyReply {
    /// Number of blocks; 0 without an answer.
    #[verifier::allow_in_spec]
    pub fn blocks(self) -> u64
        returns
            (match self {
                BusyReply::Blocks(blocks) => blocks,
                _ => 0,
            }),
    {
        match self {
            BusyReply::Blocks(blocks) => blocks,
            _ => 0,
        }
    }

    /// The time; 0 without an answer.
    #[verifier::allow_in_spec]
    pub fn time(self) -> u64
        returns
            (match self {
                BusyReply::Time(time) => time,
                _ => 0,
            }),
    {
        match self {
            BusyReply::Time(time) => time,
            _ => 0,
        }
    }

    /// The answer; no without one.
    #[verifier::allow_in_spec]
    pub fn flag(self) -> bool
        returns
            (match self {
                BusyReply::Flag(flag) => flag,
                _ => false,
            }),
    {
        match self {
            BusyReply::Flag(flag) => flag,
            _ => false,
        }
    }

    /// How the transfer ended. Without an answer it counts as failed.
    #[verifier::allow_in_spec]
    pub fn outcome(self) -> SdMmcResult
        returns
            (match self {
                BusyReply::Outcome(result) => result,
                _ => Err(SdMmcError::Hardware),
            }),
    {
        match self {
            BusyReply::Outcome(result) => result,
            _ => Err(SdMmcError::Hardware),
        }
    }

    /// The counters; zeros without an answer.
    #[verifier::allow_in_spec]
    pub fn counters(self) -> Counters
        returns
            (match self {
                BusyReply::Counters(counters) => counters,
                _ => Counters {
                    generation: 0,
                    irq_generation: 0,
                    irq_transfer_count: 0,
                    busy_sequence: 0,
                },
            }),
    {
        match self {
            BusyReply::Counters(counters) => counters,
            _ => Counters {
                generation: 0,
                irq_generation: 0,
                irq_transfer_count: 0,
                busy_sequence: 0,
            },
        }
    }
}

/// What a case has found out.
#[derive(Clone, Copy, Debug, PartialEq, Eq)]
pub struct BusyFindings {
    /// Microseconds that the write took.
    pub elapsed_us: u64,
    /// The counters before it.
    pub before: Counters,
    /// The counters after it.
    pub after: Counters,
    /// How the write ended.
    pub write: SdMmcResult,
    /// Each transfer had an interrupt.
    pub dma_irq_seen: bool,
    /// After each transfer the card was waited for.
    pub cmd13_per_chunk: bool,
    /// The region holds what was written.
    pub data_ok: bool,
    /// What is wrong.
    pub error: Option<SdMmcError>,
}

/// Where the test stands.
#[derive(Clone, Copy, Debug, PartialEq, Eq)]
pub enum BusyPhase {
    /// The card is looked at.
    Capacity,
    /// The buffers are allocated.
    Allocate,
    /// The region is saved.
    Backup,
    /// The region is read again.
    Confirm,
    /// What was read is compared.
    Compare,
    /// The pattern is made.
    Fill,
    /// The start of the write is timed.
    Start,
    /// The counters are read.
    Before(u64),
    /// The pattern is written.
    Write(u64, Counters),
    /// The end of the write is timed.
    End(u64, Counters, SdMmcResult),
    /// The counters are read again; the write took so many microseconds.
    After(u64, Counters, SdMmcResult),
    /// The region is read.
    ReadBack(BusyFindings),
    /// What was read is compared.
    ComparePattern(BusyFindings),
    /// The driver is looked at.
    Faulted(BusyFindings),
    /// The region is put back in order.
    RestoreWrite(BusyFindings),
    /// The region is read.
    RestoreRead(BusyFindings),
    /// What was read is compared.
    RestoreCompare(BusyFindings),
    /// The case is reported.
    Report(BusyFindings, SdMmcResult),
}

/// The test.
#[derive(Clone, Copy, Debug, PartialEq, Eq)]
pub struct BusyTest {
    /// Number of the case, from 0 on.
    pub case: usize,
    /// Where the test stands.
    pub phase: BusyPhase,
}

impl BusyTest {
    /// The test that is about to begin.
    #[verifier::allow_in_spec]
    pub fn new() -> BusyTest
        returns
            (BusyTest { case: 0, phase: BusyPhase::Capacity }),
    {
        BusyTest { case: 0, phase: BusyPhase::Capacity }
    }

    /// The test in another phase.
    #[verifier::allow_in_spec]
    pub fn at(self, phase: BusyPhase) -> Step<BusyTest, SdMmcResult>
        returns
            (Step::<BusyTest, SdMmcResult>::Next(BusyTest { phase, ..self })),
    {
        Step::Next(BusyTest { phase, ..self })
    }

    /// Tag of the pattern of the case.
    #[verifier::allow_in_spec]
    pub fn tag(self) -> u8
        returns
            0x60u8.wrapping_add(self.case as u8),
    {
        0x60u8.wrapping_add(self.case as u8)
    }

    /// What a write and the counters show.
    pub open spec fn findings(
        self,
        elapsed_us: u64,
        before: Counters,
        after: Counters,
        write: SdMmcResult,
    ) -> BusyFindings {
        let dma_irq_seen = after.irq_per_chunk(before, busy_chunks(self.case));
        let cmd13_per_chunk = after.wait_per_chunk(before, busy_chunks(self.case));
        BusyFindings {
            elapsed_us,
            before,
            after,
            write,
            dma_irq_seen,
            cmd13_per_chunk,
            data_ok: false,
            error: match write {
                Err(error) => Some(error),
                Ok(_) => if dma_irq_seen && cmd13_per_chunk {
                    None
                } else {
                    Some(SdMmcError::TerminalValidation)
                },
            },
        }
    }

    /// Judges a write by the counters.
    pub fn judge(
        self,
        elapsed_us: u64,
        before: Counters,
        after: Counters,
        write: SdMmcResult,
    ) -> (findings: BusyFindings)
        ensures
            findings == self.findings(elapsed_us, before, after, write),
    {
        let dma_irq_seen = after.irq_per_chunk(before, busy_chunks(self.case));
        let cmd13_per_chunk = after.wait_per_chunk(before, busy_chunks(self.case));
        BusyFindings {
            elapsed_us,
            before,
            after,
            write,
            dma_irq_seen,
            cmd13_per_chunk,
            data_ok: false,
            error: match write {
                Err(error) => Some(error),
                Ok(_) => if dma_irq_seen && cmd13_per_chunk {
                    None
                } else {
                    Some(SdMmcError::TerminalValidation)
                },
            },
        }
    }
}

impl Machine for BusyTest {
    type Act = BusyAct;

    type Event = BusyReply;

    type Out = SdMmcResult;

    open spec fn op(self) -> BusyAct {
        let blocks: usize = busy_blocks(self.case);
        match self.phase {
            BusyPhase::Capacity => BusyAct::Capacity,
            BusyPhase::Allocate => BusyAct::Allocate,
            BusyPhase::Backup => BusyAct::ReadBackup {
                lba: TEST_START_LBA,
                blocks: TEST_REGION_BLOCKS,
            },
            BusyPhase::Confirm => BusyAct::ReadRegion {
                lba: TEST_START_LBA,
                blocks: TEST_REGION_BLOCKS,
            },
            BusyPhase::Compare => BusyAct::CompareBackup,
            BusyPhase::Fill => BusyAct::Fill {
                lba: TEST_START_LBA,
                blocks,
                tag: self.tag(),
            },
            BusyPhase::Start => BusyAct::Now,
            BusyPhase::Before(_) => BusyAct::Counters,
            BusyPhase::Write(_, _) => BusyAct::Write { lba: TEST_START_LBA, blocks },
            BusyPhase::End(_, _, _) => BusyAct::Now,
            BusyPhase::After(_, _, _) => BusyAct::Counters,
            BusyPhase::ReadBack(_) => BusyAct::ReadBack { lba: TEST_START_LBA, blocks },
            BusyPhase::ComparePattern(_) => BusyAct::ComparePattern { blocks },
            BusyPhase::Faulted(_) => BusyAct::Faulted,
            BusyPhase::RestoreWrite(_) => BusyAct::WriteBackup {
                lba: TEST_START_LBA,
                blocks: TEST_REGION_BLOCKS,
            },
            BusyPhase::RestoreRead(_) => BusyAct::ReadRegion {
                lba: TEST_START_LBA,
                blocks: TEST_REGION_BLOCKS,
            },
            BusyPhase::RestoreCompare(_) => BusyAct::CompareBackup,
            BusyPhase::Report(findings, restore) => BusyAct::Report {
                case: self.case,
                findings,
                restore,
            },
        }
    }

    fn request(&self) -> (op: BusyAct) {
        let blocks: usize = busy_blocks(self.case);
        match self.phase {
            BusyPhase::Capacity => BusyAct::Capacity,
            BusyPhase::Allocate => BusyAct::Allocate,
            BusyPhase::Backup => BusyAct::ReadBackup {
                lba: TEST_START_LBA,
                blocks: TEST_REGION_BLOCKS,
            },
            BusyPhase::Confirm => BusyAct::ReadRegion {
                lba: TEST_START_LBA,
                blocks: TEST_REGION_BLOCKS,
            },
            BusyPhase::Compare => BusyAct::CompareBackup,
            BusyPhase::Fill => BusyAct::Fill {
                lba: TEST_START_LBA,
                blocks,
                tag: self.tag(),
            },
            BusyPhase::Start => BusyAct::Now,
            BusyPhase::Before(_) => BusyAct::Counters,
            BusyPhase::Write(_, _) => BusyAct::Write { lba: TEST_START_LBA, blocks },
            BusyPhase::End(_, _, _) => BusyAct::Now,
            BusyPhase::After(_, _, _) => BusyAct::Counters,
            BusyPhase::ReadBack(_) => BusyAct::ReadBack { lba: TEST_START_LBA, blocks },
            BusyPhase::ComparePattern(_) => BusyAct::ComparePattern { blocks },
            BusyPhase::Faulted(_) => BusyAct::Faulted,
            BusyPhase::RestoreWrite(_) => BusyAct::WriteBackup {
                lba: TEST_START_LBA,
                blocks: TEST_REGION_BLOCKS,
            },
            BusyPhase::RestoreRead(_) => BusyAct::ReadRegion {
                lba: TEST_START_LBA,
                blocks: TEST_REGION_BLOCKS,
            },
            BusyPhase::RestoreCompare(_) => BusyAct::CompareBackup,
            BusyPhase::Report(findings, restore) => BusyAct::Report {
                case: self.case,
                findings,
                restore,
            },
        }
    }

    open spec fn next(self, reply: BusyReply) -> Step<BusyTest, SdMmcResult> {
        match self.phase {
            BusyPhase::Capacity => if TEST_START_LBA as u64 + TEST_REGION_BLOCKS as u64
                > reply.blocks() {
                Step::Done(Err(SdMmcError::OutOfRange))
            } else {
                self.at(BusyPhase::Allocate)
            },
            BusyPhase::Allocate => if reply.flag() {
                self.at(BusyPhase::Backup)
            } else {
                Step::Done(Err(SdMmcError::DmaAllocation))
            },
            BusyPhase::Backup => match reply.outcome() {
                Ok(_) => self.at(BusyPhase::Confirm),
                Err(error) => Step::Done(Err(error)),
            },
            BusyPhase::Confirm => match reply.outcome() {
                Ok(_) => self.at(BusyPhase::Compare),
                Err(error) => Step::Done(Err(error)),
            },
            BusyPhase::Compare => if reply.flag() {
                self.at(BusyPhase::Fill)
            } else {
                Step::Done(Err(SdMmcError::TerminalValidation))
            },
            BusyPhase::Fill => self.at(BusyPhase::Start),
            BusyPhase::Start => self.at(BusyPhase::Before(reply.time())),
            BusyPhase::Before(started) => self.at(BusyPhase::Write(started, reply.counters())),
            BusyPhase::Write(started, before) => self.at(
                BusyPhase::End(started, before, reply.outcome()),
            ),
            BusyPhase::End(started, before, write) => self.at(
                BusyPhase::After(reply.time().saturating_sub(started) / 1_000, before, write),
            ),
            BusyPhase::After(elapsed_us, before, write) => {
                let found = self.findings(elapsed_us, before, reply.counters(), write);
                match found.error {
                    None => self.at(BusyPhase::ReadBack(found)),
                    Some(_) => self.at(BusyPhase::Faulted(found)),
                }
            },
            BusyPhase::ReadBack(found) => match reply.outcome() {
                Ok(_) => self.at(BusyPhase::ComparePattern(found)),
                Err(error) => self.at(
                    BusyPhase::Faulted(BusyFindings { error: Some(error), ..found }),
                ),
            },
            BusyPhase::ComparePattern(found) => if reply.flag() {
                self.at(BusyPhase::Faulted(BusyFindings { data_ok: true, ..found }))
            } else {
                self.at(
                    BusyPhase::Faulted(
                        BusyFindings { error: Some(SdMmcError::TerminalValidation), ..found },
                    ),
                )
            },
            BusyPhase::Faulted(found) => if reply.flag() {
                self.at(BusyPhase::Report(found, Err(SdMmcError::DriverFaulted)))
            } else {
                self.at(BusyPhase::RestoreWrite(found))
            },
            BusyPhase::RestoreWrite(found) => match reply.outcome() {
                Ok(_) => self.at(BusyPhase::RestoreRead(found)),
                Err(error) => self.at(BusyPhase::Report(found, Err(error))),
            },
            BusyPhase::RestoreRead(found) => match reply.outcome() {
                Ok(_) => self.at(BusyPhase::RestoreCompare(found)),
                Err(error) => self.at(BusyPhase::Report(found, Err(error))),
            },
            BusyPhase::RestoreCompare(found) => if reply.flag() {
                self.at(BusyPhase::Report(found, Ok(())))
            } else {
                self.at(BusyPhase::Report(found, Err(SdMmcError::TerminalValidation)))
            },
            BusyPhase::Report(found, restore) => match restore {
                Err(error) => Step::Done(Err(error)),
                Ok(_) => match found.error {
                    Some(error) => Step::Done(Err(error)),
                    None => if self.case.wrapping_add(1) < BUSY_CASES {
                        Step::Next(
                            BusyTest {
                                case: self.case.wrapping_add(1),
                                phase: BusyPhase::Fill,
                            },
                        )
                    } else {
                        Step::Done(Ok(()))
                    },
                },
            },
        }
    }

    fn step(self, reply: BusyReply) -> (step: Step<BusyTest, SdMmcResult>) {
        match self.phase {
            BusyPhase::Capacity => if TEST_START_LBA as u64 + TEST_REGION_BLOCKS as u64
                > reply.blocks() {
                Step::Done(Err(SdMmcError::OutOfRange))
            } else {
                self.at(BusyPhase::Allocate)
            },
            BusyPhase::Allocate => if reply.flag() {
                self.at(BusyPhase::Backup)
            } else {
                Step::Done(Err(SdMmcError::DmaAllocation))
            },
            BusyPhase::Backup => match reply.outcome() {
                Ok(_) => self.at(BusyPhase::Confirm),
                Err(error) => Step::Done(Err(error)),
            },
            BusyPhase::Confirm => match reply.outcome() {
                Ok(_) => self.at(BusyPhase::Compare),
                Err(error) => Step::Done(Err(error)),
            },
            BusyPhase::Compare => if reply.flag() {
                self.at(BusyPhase::Fill)
            } else {
                Step::Done(Err(SdMmcError::TerminalValidation))
            },
            BusyPhase::Fill => self.at(BusyPhase::Start),
            BusyPhase::Start => self.at(BusyPhase::Before(reply.time())),
            BusyPhase::Before(started) => self.at(BusyPhase::Write(started, reply.counters())),
            BusyPhase::Write(started, before) => self.at(
                BusyPhase::End(started, before, reply.outcome()),
            ),
            BusyPhase::End(started, before, write) => self.at(
                BusyPhase::After(reply.time().saturating_sub(started) / 1_000, before, write),
            ),
            BusyPhase::After(elapsed_us, before, write) => {
                let found = self.judge(elapsed_us, before, reply.counters(), write);
                match found.error {
                    None => self.at(BusyPhase::ReadBack(found)),
                    Some(_) => self.at(BusyPhase::Faulted(found)),
                }
            },
            BusyPhase::ReadBack(found) => match reply.outcome() {
                Ok(_) => self.at(BusyPhase::ComparePattern(found)),
                Err(error) => self.at(
                    BusyPhase::Faulted(BusyFindings { error: Some(error), ..found }),
                ),
            },
            BusyPhase::ComparePattern(found) => if reply.flag() {
                self.at(BusyPhase::Faulted(BusyFindings { data_ok: true, ..found }))
            } else {
                self.at(
                    BusyPhase::Faulted(
                        BusyFindings { error: Some(SdMmcError::TerminalValidation), ..found },
                    ),
                )
            },
            BusyPhase::Faulted(found) => if reply.flag() {
                self.at(BusyPhase::Report(found, Err(SdMmcError::DriverFaulted)))
            } else {
                self.at(BusyPhase::RestoreWrite(found))
            },
            BusyPhase::RestoreWrite(found) => match reply.outcome() {
                Ok(_) => self.at(BusyPhase::RestoreRead(found)),
                Err(error) => self.at(BusyPhase::Report(found, Err(error))),
            },
            BusyPhase::RestoreRead(found) => match reply.outcome() {
                Ok(_) => self.at(BusyPhase::RestoreCompare(found)),
                Err(error) => self.at(BusyPhase::Report(found, Err(error))),
            },
            BusyPhase::RestoreCompare(found) => if reply.flag() {
                self.at(BusyPhase::Report(found, Ok(())))
            } else {
                self.at(BusyPhase::Report(found, Err(SdMmcError::TerminalValidation)))
            },
            BusyPhase::Report(found, restore) => match restore {
                Err(error) => Step::Done(Err(error)),
                Ok(_) => match found.error {
                    Some(error) => Step::Done(Err(error)),
                    None => if self.case.wrapping_add(1) < BUSY_CASES {
                        Step::Next(
                            BusyTest {
                                case: self.case.wrapping_add(1),
                                phase: BusyPhase::Fill,
                            },
                        )
                    } else {
                        Step::Done(Ok(()))
                    },
                },
            },
        }
    }
}

/// A course of operations and replies.
pub type BusyCourse = Seq<(BusyAct, BusyReply)>;

/// The whole region is read and saved.
pub open spec fn whole_backup() -> BusyAct {
    BusyAct::ReadBackup { lba: TEST_START_LBA, blocks: TEST_REGION_BLOCKS }
}

/// The whole region is read.
pub open spec fn whole_read() -> BusyAct {
    BusyAct::ReadRegion { lba: TEST_START_LBA, blocks: TEST_REGION_BLOCKS }
}

/// What was saved is written to the whole region.
pub open spec fn whole_restore() -> BusyAct {
    BusyAct::WriteBackup { lba: TEST_START_LBA, blocks: TEST_REGION_BLOCKS }
}

/// The operation writes the block.
pub open spec fn busy_writes(act: BusyAct, block: int) -> bool {
    match act {
        BusyAct::Write { lba, blocks } => lba <= block < lba + blocks,
        BusyAct::WriteBackup { lba, blocks } => lba <= block < lba + blocks,
        _ => false,
    }
}

/// The block belongs to the region.
pub open spec fn in_test_region(block: int) -> bool {
    TEST_START_LBA <= block < TEST_START_LBA + TEST_REGION_BLOCKS
}

/// The operation writes nothing, or from the start of the region on, and not beyond
/// its end.
pub open spec fn writes_region_only(act: BusyAct) -> bool {
    match act {
        BusyAct::Write { lba, blocks } => lba == TEST_START_LBA && blocks <= TEST_REGION_BLOCKS,
        BusyAct::WriteBackup { .. } => act == whole_restore(),
        _ => true,
    }
}

/// The course ends with what was saved being written back, read and found in order.
pub open spec fn busy_restored(trace: BusyCourse) -> bool {
    let n = trace.len();
    &&& n >= 3
    &&& trace[n - 3].0 == whole_restore() && trace[n - 3].1.outcome() is Ok
    &&& trace[n - 2].0 == whole_read() && trace[n - 2].1.outcome() is Ok
    &&& trace[n - 1].0 is CompareBackup && trace[n - 1].1.flag()
}

/// The region was saved and read the same twice, on a card that holds it.
pub open spec fn busy_saved(trace: BusyCourse) -> bool {
    &&& trace.len() >= 5
    &&& trace[0].0 is Capacity && TEST_START_LBA + TEST_REGION_BLOCKS <= trace[0].1.blocks()
    &&& trace[2].0 == whole_backup() && trace[2].1.outcome() is Ok
    &&& trace[3].0 == whole_read() && trace[3].1.outcome() is Ok
    &&& trace[4].0 is CompareBackup && trace[4].1.flag()
}

/// The region was changed.
pub open spec fn busy_touched(trace: BusyCourse) -> bool
    decreases trace.len(),
{
    trace.len() > 0 && (trace.last().0 is Write || trace.last().0 is WriteBackup || busy_touched(
        trace.drop_last(),
    ))
}

/// Whatever changed the region last was putting it back in order, or else the
/// driver was then found out of order.
pub open spec fn busy_tidied(trace: BusyCourse) -> bool
    decreases trace.len(),
{
    trace.len() == 0 || trace.last().0 is WriteBackup || (trace.last().0 is Faulted
        && trace.last().1.flag()) || (!(trace.last().0 is Write) && busy_tidied(
        trace.drop_last(),
    ))
}

/// Reports of cases in which everything was as it should be: just before the report
/// the region was written back, read and found in order.
pub open spec fn good_reports(trace: BusyCourse) -> int
    decreases trace.len(),
{
    if trace.len() == 0 {
        0
    } else {
        good_reports(trace.drop_last()) + (match trace.last().0 {
            BusyAct::Report { case, findings, restore } => if restore is Ok && findings.write
                is Ok && findings.dma_irq_seen && findings.cmd13_per_chunk && findings.data_ok
                && case == good_reports(trace.drop_last()) && busy_restored(trace.drop_last()) {
                1int
            } else {
                0int
            },
            _ => 0int,
        })
    }
}

/// What has been found out agrees.
spec fn consistent(found: BusyFindings) -> bool {
    &&& found.error is None ==> found.write is Ok && found.dma_irq_seen && found.cmd13_per_chunk
}

spec fn busy_invariant(trace: BusyCourse, at: Step<BusyTest, SdMmcResult>) -> bool {
    &&& busy_touched(trace) ==> busy_saved(trace)
    &&& forall|i: int| 0 <= i < trace.len() ==> writes_region_only((#[trigger] trace[i]).0)
    &&& match at {
        Step::Next(m) => {
            &&& m.case < BUSY_CASES
            &&& good_reports(trace) == m.case
            &&& match m.phase {
                BusyPhase::Capacity => trace.len() == 0 && m.case == 0 && busy_tidied(trace),
                BusyPhase::Allocate => trace.len() == 1 && m.case == 0 && !busy_touched(trace)
                    && busy_tidied(trace)
                    && trace[0].0 is Capacity && TEST_START_LBA + TEST_REGION_BLOCKS
                    <= trace[0].1.blocks(),
                BusyPhase::Backup => trace.len() == 2 && m.case == 0 && !busy_touched(trace)
                    && busy_tidied(trace)
                    && trace[0].0 is Capacity && TEST_START_LBA + TEST_REGION_BLOCKS
                    <= trace[0].1.blocks(),
                BusyPhase::Confirm => trace.len() == 3 && m.case == 0 && !busy_touched(trace)
                    && busy_tidied(trace)
                    && trace[0].0 is Capacity && TEST_START_LBA + TEST_REGION_BLOCKS
                    <= trace[0].1.blocks() && trace[2].0 == whole_backup() && trace[2].1.outcome()
                    is Ok,
                BusyPhase::Compare => trace.len() == 4 && m.case == 0 && !busy_touched(trace)
                    && busy_tidied(trace)
                    && trace[0].0 is Capacity && TEST_START_LBA + TEST_REGION_BLOCKS
                    <= trace[0].1.blocks() && trace[2].0 == whole_backup() && trace[2].1.outcome()
                    is Ok && trace[3].0 == whole_read() && trace[3].1.outcome() is Ok,
                BusyPhase::Fill | BusyPhase::Start | BusyPhase::Before(_) | BusyPhase::Write(
                    _,
                    _,
                ) => busy_saved(trace) && busy_tidied(trace),
                BusyPhase::End(_, _, _) => busy_saved(trace),
                BusyPhase::After(_, _, _) => busy_saved(trace),
                BusyPhase::ReadBack(found) => busy_saved(trace) && consistent(found) && found.error
                    is None,
                BusyPhase::ComparePattern(found) => busy_saved(trace) && consistent(found)
                    && found.error is None,
                BusyPhase::Faulted(found) => busy_saved(trace) && consistent(found) && (found.error
                    is None ==> found.data_ok),
                BusyPhase::RestoreWrite(found) => busy_saved(trace) && consistent(found) && (
                found.error is None ==> found.data_ok),
                BusyPhase::RestoreRead(found) => busy_saved(trace) && busy_tidied(trace)
                    && consistent(found) && (found.error is None ==> found.data_ok)
                    && trace.last().0 == whole_restore() && trace.last().1.outcome() is Ok,
                BusyPhase::RestoreCompare(found) => busy_saved(trace) && busy_tidied(trace)
                    && consistent(found) && (found.error is None ==> found.data_ok)
                    && trace[trace.len() - 2].0 == whole_restore() && trace[trace.len()
                    - 2].1.outcome() is Ok && trace.last().0 == whole_read()
                    && trace.last().1.outcome() is Ok,
                BusyPhase::Report(found, restore) => busy_saved(trace) && busy_tidied(trace)
                    && consistent(found) && (found.error is None ==> found.data_ok) && (restore
                    is Ok ==> busy_restored(trace)),
            }
        },
        Step::Done(result) => {
            &&& busy_touched(trace) ==> busy_tidied(trace)
            &&& result is Ok ==> good_reports(trace) == BUSY_CASES && busy_saved(trace)
        },
    }
}

proof fn lemma_busy_step(trace: BusyCourse, m: BusyTest, reply: BusyReply)
    requires
        busy_invariant(trace, Step::Next(m)),
    ensures
        busy_invariant(trace.push((m.op(), reply)), m.next(reply)),
{
    let after = trace.push((m.op(), reply));
    assert(after.drop_last() =~= trace);
    assert(after.last() == (m.op(), reply));
    assert(busy_saved(trace) ==> busy_saved(after));
    vstd::arithmetic::div_mod::lemma_small_mod(m.case as nat + 1, usize::MAX as nat + 1);
}

/// Nothing is written before the region has been saved and has read the same
/// twice. However the test ends, what was saved is then written back, unless the
/// driver has gone out of order. The test passes only if in all six cases the
/// write succeeded, every transfer had its interrupt and its wait for the card,
/// the data could be read back and the region was found back in order: the last
/// change of each case is that what was saved is written back, and then it is read
/// and found the same. Nothing outside of the region is ever written.
pub proof fn law_busy_test_is_safe_and_complete(replies: Seq<BusyReply>)
    ensures
        ({
            let done = run(Step::Next(BusyTest::new()), replies);
            &&& busy_touched(done.trace) ==> busy_saved(done.trace)
            &&& forall|i: int|
                0 <= i < done.trace.len() ==> writes_region_only((#[trigger] done.trace[i]).0)
            &&& done.at matches Step::Done(result) ==> {
                &&& busy_touched(done.trace) ==> busy_tidied(done.trace)
                &&& result is Ok ==> good_reports(done.trace) == BUSY_CASES
            }
        }),
{
    let start = Step::<BusyTest, SdMmcResult>::Next(BusyTest::new());
    let inv = |trace: BusyCourse, at: Step<BusyTest, SdMmcResult>| busy_invariant(trace, at);
    assert forall|trace: BusyCourse, m: BusyTest, reply: BusyReply|
        inv(trace, Step::Next(m)) implies #[trigger] inv(
        trace.push((m.op(), reply)),
        m.next(reply),
    ) by {
        lemma_busy_step(trace, m, reply);
    }
    lemma_run_invariant(start, replies, inv);
}

/// What a test works on.
pub ghost struct BusyWorld {
    /// The blocks of the card.
    pub card: spec_fn(int) -> Seq<u8>,
    /// The blocks that were saved.
    pub backup: Seq<Seq<u8>>,
    /// The blocks of the region that were read last.
    pub region: Seq<Seq<u8>>,
}

/// The blocks hold what the card held from a block on.
pub open spec fn copied(blocks: Seq<Seq<u8>>, card: spec_fn(int) -> Seq<u8>, lba: u32) -> bool {
    forall|i: int| 0 <= i < blocks.len() ==> #[trigger] blocks[i] == card(lba + i)
}

/// What an operation may make of the world. The card keeps the blocks that it is not
/// told to write; a write that succeeds puts down what was saved; a read that succeeds
/// copies; and a comparison tells the truth.
pub open spec fn truthful(
    before: BusyWorld,
    act: BusyAct,
    reply: BusyReply,
    after: BusyWorld,
) -> bool {
    &&& forall|block: int|
        !busy_writes(act, block) ==> #[trigger] (after.card)(block) == (before.card)(block)
    &&& act matches BusyAct::WriteBackup { lba, blocks } ==> reply.outcome() is Ok
        ==> before.backup.len() == blocks ==> forall|i: int|
        0 <= i < blocks ==> (after.card)(lba + i) == #[trigger] before.backup[i]
    &&& match act {
        BusyAct::ReadBackup { lba, blocks } => reply.outcome() is Ok ==> after.backup.len()
            == blocks && copied(after.backup, before.card, lba),
        _ => after.backup == before.backup,
    }
    &&& match act {
        BusyAct::ReadRegion { lba, blocks } => reply.outcome() is Ok ==> after.region.len()
            == blocks && copied(after.region, before.card, lba),
        BusyAct::ReadBack { .. } => true,
        _ => after.region == before.region,
    }
    &&& act is CompareBackup ==> reply.flag() == (before.region == before.backup)
}

/// The worlds that a course leads through, from the one that it finds on.
pub open spec fn passes_through(trace: BusyCourse, worlds: Seq<BusyWorld>) -> bool {
    &&& worlds.len() == trace.len() + 1
    &&& forall|i: int|
        0 <= i < trace.len() ==> truthful(
            worlds[i],
            (#[trigger] trace[i]).0,
            trace[i].1,
            worlds[i + 1],
        )
}

/// The card holds what it held at first.
pub open spec fn unchanged(worlds: Seq<BusyWorld>) -> bool {
    forall|block: int| #[trigger]
        (worlds.last().card)(block) == (worlds[0].card)(block)
}

/// Outside of the region no block ever changes.
pub open spec fn unchanged_elsewhere(worlds: Seq<BusyWorld>) -> bool {
    forall|i: int, block: int|
        0 <= i < worlds.len() && !in_test_region(block) ==> #[trigger] (worlds[i].card)(block) == (
        worlds[0].card)(block)
}

/// What was saved is what the region held at first.
spec fn backed_up(worlds: Seq<BusyWorld>) -> bool {
    &&& worlds.last().backup.len() == TEST_REGION_BLOCKS
    &&& copied(worlds.last().backup, worlds[0].card, TEST_START_LBA)
}

/// How the world stands where the test stands.
spec fn world_invariant(
    trace: BusyCourse,
    worlds: Seq<BusyWorld>,
    at: Step<BusyTest, SdMmcResult>,
) -> bool {
    &&& unchanged_elsewhere(worlds)
    &&& match at {
        Step::Done(result) => result is Ok ==> unchanged(worlds),
        Step::Next(m) => match m.phase {
            BusyPhase::Capacity | BusyPhase::Allocate | BusyPhase::Backup => unchanged(worlds),
            BusyPhase::Confirm => unchanged(worlds) && backed_up(worlds),
            BusyPhase::Compare => unchanged(worlds) && backed_up(worlds),
            BusyPhase::Fill | BusyPhase::Start | BusyPhase::Before(_) | BusyPhase::Write(
                _,
                _,
            ) => unchanged(worlds) && backed_up(worlds),
            BusyPhase::RestoreRead(_) | BusyPhase::RestoreCompare(_) => unchanged(worlds)
                && backed_up(worlds),
            BusyPhase::Report(_, restore) => backed_up(worlds) && (restore is Ok ==> unchanged(
                worlds,
            )),
            _ => backed_up(worlds),
        },
    }
}

proof fn lemma_world_step(
    trace: BusyCourse,
    worlds: Seq<BusyWorld>,
    m: BusyTest,
    reply: BusyReply,
)
    requires
        busy_invariant(trace, Step::Next(m)),
        passes_through(trace.push((m.op(), reply)), worlds),
        world_invariant(trace, worlds.drop_last(), Step::Next(m)),
    ensures
        world_invariant(trace.push((m.op(), reply)), worlds, m.next(reply)),
{
    let past = worlds.drop_last();
    let now = trace.len() as int;
    let after = trace.push((m.op(), reply));
    assert(after[now] == (m.op(), reply));
    assert(truthful(worlds[now], m.op(), reply, worlds[now + 1]));
    assert(past.last() == worlds[now] && worlds.last() == worlds[now + 1]);
    assert(past[0] == worlds[0]);
    assert forall|i: int, block: int|
        0 <= i < worlds.len() && !in_test_region(block) implies #[trigger] (worlds[i].card)(block)
        == (worlds[0].card)(block) by {
        if i <= now {
            assert(past[i] == worlds[i]);
        } else {
            assert(past[now] == worlds[now]);
            assert((worlds[now].card)(block) == (worlds[0].card)(block));
            assert(!busy_writes(m.op(), block));
        }
    }
    match m.phase {
        BusyPhase::Backup => {
            if reply.outcome() is Ok {
                assert forall|i: int| 0 <= i < worlds.last().backup.len() implies #[trigger]
                    worlds.last().backup[i] == (worlds[0].card)(TEST_START_LBA + i) by {
                    assert((past.last().card)(TEST_START_LBA + i) == (worlds[0].card)(
                        TEST_START_LBA + i,
                    ));
                }
            }
        },
        BusyPhase::RestoreWrite(_) => {
            if reply.outcome() is Ok {
                assert forall|block: int| #[trigger]
                    (worlds.last().card)(block) == (worlds[0].card)(block) by {
                    if in_test_region(block) {
                        let i = block - TEST_START_LBA;
                        assert(past.last().backup[i] == (worlds[0].card)(TEST_START_LBA + i));
                        assert((worlds.last().card)(TEST_START_LBA + i) == past.last().backup[i]);
                    } else {
                        assert((worlds[now + 1].card)(block) == (worlds[0].card)(block));
                    }
                }
            }
        },
        BusyPhase::Write(_, _) => {},
        _ => {
            assert forall|block: int| #[trigger]
                (worlds.last().card)(block) == (past.last().card)(block) by {
                assert(!busy_writes(m.op(), block));
            }
            if unchanged(past) {
                assert forall|block: int| #[trigger]
                    (worlds.last().card)(block) == (worlds[0].card)(block) by {
                    assert((past.last().card)(block) == (past[0].card)(block));
                }
            }
        },
    }
}

/// How the test begins: a card that is too small ends it at once, and so does a region
/// that reads differently twice.
spec fn opening(trace: BusyCourse, at: Step<BusyTest, SdMmcResult>) -> bool {
    &&& trace.len() > 0 ==> trace[0].0 is Capacity && (trace[0].1.blocks() < TEST_START_LBA
        + TEST_REGION_BLOCKS ==> trace.len() == 1 && at == Step::<BusyTest, SdMmcResult>::Done(
        Err(SdMmcError::OutOfRange),
    ))
    &&& trace.len() > 4 ==> trace[4].0 is CompareBackup && (!trace[4].1.flag() ==> trace.len() == 5
        && !busy_touched(trace) && at == Step::<BusyTest, SdMmcResult>::Done(
        Err(SdMmcError::TerminalValidation),
    ))
}

/// As long as nothing is written, the card stays as it is.
proof fn lemma_unwritten(trace: BusyCourse, worlds: Seq<BusyWorld>, n: nat)
    requires
        passes_through(trace, worlds),
        n <= trace.len(),
        !busy_touched(trace.take(n as int)),
    ensures
        forall|block: int| #[trigger]
            (worlds[n as int].card)(block) == (worlds[0].card)(block),
    decreases n,
{
    if n > 0 {
        let past = (n - 1) as nat;
        assert(trace.take(n as int).drop_last() =~= trace.take(past as int));
        assert(trace.take(n as int).last() == trace[past as int]);
        lemma_unwritten(trace, worlds, past);
        assert(truthful(worlds[past as int], trace[past as int].0, trace[past as int].1, worlds[n
            as int]));
        assert forall|block: int| #[trigger]
            (worlds[n as int].card)(block) == (worlds[0].card)(block) by {
            assert(!busy_writes(trace[past as int].0, block));
            assert((worlds[past as int].card)(block) == (worlds[0].card)(block));
        }
    }
}

/// On a card that does as it is told, the test changes no block outside of its region,
/// and when it succeeds, every block of the card holds what it held before. A card that
/// is too small is refused before anything is read or written. If the region reads
/// differently twice, the test ends without a write.
pub proof fn law_busy_test_leaves_the_card_as_it_was(
    replies: Seq<BusyReply>,
    worlds: Seq<BusyWorld>,
)
    requires
        passes_through(run(Step::Next(BusyTest::new()), replies).trace, worlds),
    ensures
        ({
            let done = run(Step::Next(BusyTest::new()), replies);
            &&& unchanged_elsewhere(worlds)
            &&& done.at matches Step::Done(Ok(_)) ==> unchanged(worlds)
            &&& done.trace.len() > 0 && done.trace[0].1.blocks() < TEST_START_LBA
                + TEST_REGION_BLOCKS ==> done.trace.len() == 1 && done.trace[0].0 is Capacity
                && done.at == Step::<BusyTest, SdMmcResult>::Done(Err(SdMmcError::OutOfRange))
            &&& done.trace.len() > 4 && worlds[4].region != worlds[4].backup ==> done.trace.len()
                == 5 && !busy_touched(done.trace) && unchanged(worlds) && done.at == Step::<
                BusyTest,
                SdMmcResult,
            >::Done(Err(SdMmcError::TerminalValidation))
        }),
{
    let start = Step::<BusyTest, SdMmcResult>::Next(BusyTest::new());
    let inv = |trace: BusyCourse, at: Step<BusyTest, SdMmcResult>|
        {
            &&& busy_invariant(trace, at)
            &&& forall|worlds: Seq<BusyWorld>| #[trigger]
                passes_through(trace, worlds) ==> world_invariant(trace, worlds, at)
            &&& opening(trace, at)
        };
    assert forall|trace: BusyCourse, m: BusyTest, reply: BusyReply|
        inv(trace, Step::Next(m)) implies #[trigger] inv(
        trace.push((m.op(), reply)),
        m.next(reply),
    ) by {
        lemma_busy_step(trace, m, reply);
        let after = trace.push((m.op(), reply));
        assert forall|worlds: Seq<BusyWorld>| #[trigger]
            passes_through(after, worlds) implies world_invariant(after, worlds, m.next(reply)) by {
            let past = worlds.drop_last();
            assert forall|i: int| 0 <= i < trace.len() implies truthful(
                past[i],
                (#[trigger] trace[i]).0,
                trace[i].1,
                past[i + 1],
            ) by {
                assert(after[i] == trace[i]);
            }
            assert(passes_through(trace, past));
            lemma_world_step(trace, worlds, m, reply);
        }
    }
    assert forall|worlds: Seq<BusyWorld>| #[trigger]
        passes_through(Seq::empty(), worlds) implies world_invariant(
        Seq::empty(),
        worlds,
        start,
    ) by {}
    lemma_run_invariant(start, replies, inv);
    let done = run(start, replies);
    if done.trace.len() > 4 {
        assert(truthful(worlds[4], done.trace[4].0, done.trace[4].1, worlds[5]));
        if worlds[4].region != worlds[4].backup {
            assert(done.trace.take(5) =~= done.trace);
            lemma_unwritten(done.trace, worlds, 5);
        }
    }
}

} // verus!
