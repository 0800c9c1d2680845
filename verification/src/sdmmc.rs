//! The driver.

use vstd::prelude::*;

use crate::blocks::{BlockEnd, BlockPhase, BlockRequest, Direction};
use crate::completion::{IdmacCompletion, IrqActions};
use crate::dma::DMABuffer;
use crate::enable::{AHBDataWidth, EnableEnd, EnableIdmac, IdmacState};
use crate::error::SdMmcResult;
use crate::init::{Card, Init};
use crate::io::{Machine, Op, Reply, Step};
use crate::regs::{IdSts, RIntSts};
use crate::transfer::{FinishTransfer, WaitMode, DMA_BUFFER_SIZE};

verus! {

/// What bringing up the controller ends with.
#[derive(Clone, Copy, Debug, PartialEq, Eq, Structural)]
pub struct Started {
    /// The card.
    pub card: Card,
    /// What became of the DMA engine.
    pub engine: EnableEnd,
}

/// Where bringing up the controller stands.
#[derive(Clone, Copy, Debug, PartialEq, Eq)]
pub enum StartupPhase {
    /// Identifying the card.
    Init(Init),
    /// Bringing the DMA engine into service.
    Enable {
        /// The card.
        card: Card,
        /// The attempt.
        enable: EnableIdmac,
    },
}

/// Brings up the controller: identifies the card, then brings the DMA engine
/// into service. A card that was identified counts as success even if the engine
/// cannot be used; block transfers are unavailable then.
#[derive(Clone, Copy, Debug, PartialEq, Eq)]
pub struct Startup {
    /// Where it stands.
    pub phase: StartupPhase,
}

impl Startup {
    /// Begins to bring up the controller.
    #[verifier::allow_in_spec]
    pub fn new() -> Startup
        returns
            (Startup { phase: StartupPhase::Init(Init::new()) }),
    {
        Startup { phase: StartupPhase::Init(Init::new()) }
    }

    /// What the driver knows of the engine at first.
    #[verifier::allow_in_spec]
    pub fn initial_state() -> IdmacState
        returns
            (IdmacState {
                data_width: AHBDataWidth::Bits32,
                buffer: None,
                faulted: false,
                reset_failed: false,
            }),
    {
        IdmacState {
            data_width: AHBDataWidth::Bits32,
            buffer: None,
            faulted: false,
            reset_failed: false,
        }
    }
}

impl Machine for Startup {
    type Act = Op;

    type Event = Reply;

    type Out = SdMmcResult<Started>;

    open spec fn op(self) -> Op {
        match self.phase {
            StartupPhase::Init(init) => init.op(),
            StartupPhase::Enable { enable, .. } => enable.op(),
        }
    }

    fn request(&self) -> (op: Op) {
        match self.phase {
            StartupPhase::Init(init) => init.request(),
            StartupPhase::Enable { enable, .. } => enable.request(),
        }
    }

    open spec fn next(self, reply: Reply) -> Step<Self, SdMmcResult<Started>> {
        match self.phase {
            StartupPhase::Init(init) => match init.next(reply) {
                Step::Next(init) => Step::Next(Startup { phase: StartupPhase::Init(init) }),
                Step::Done(Ok(card)) => Step::Next(
                    Startup {
                        phase: StartupPhase::Enable {
                            card,
                            enable: EnableIdmac::new(
                                DMA_BUFFER_SIZE,
                                AHBDataWidth::Bits32,
                                Startup::initial_state(),
                            ),
                        },
                    },
                ),
                Step::Done(Err(error)) => Step::Done(Err(error)),
            },
            StartupPhase::Enable { card, enable } => match enable.next(reply) {
                Step::Next(enable) => Step::Next(
                    Startup { phase: StartupPhase::Enable { card, enable } },
                ),
                Step::Done(engine) => Step::Done(Ok(Started { card, engine })),
            },
        }
    }

    fn step(self, reply: Reply) -> (step: Step<Self, SdMmcResult<Started>>) {
        match self.phase {
            StartupPhase::Init(init) => match init.step(reply) {
                Step::Next(init) => Step::Next(Startup { phase: StartupPhase::Init(init) }),
                Step::Done(Ok(card)) => Step::Next(
                    Startup {
                        phase: StartupPhase::Enable {
                            card,
                            enable: EnableIdmac::new(
                                DMA_BUFFER_SIZE,
                                AHBDataWidth::Bits32,
                                Startup::initial_state(),
                            ),
                        },
                    },
                ),
                Step::Done(Err(error)) => Step::Done(Err(error)),
            },
            StartupPhase::Enable { card, enable } => match enable.step(reply) {
                Step::Next(enable) => Step::Next(
                    Startup { phase: StartupPhase::Enable { card, enable } },
                ),
                Step::Done(engine) => Step::Done(Ok(Started { card, engine })),
            },
        }
    }
}

/// SD/MMC driver: what it knows of the card and of the DMA engine.
#[derive(Debug)]
pub struct SdMmc {
    /// The card.
    card: Card,
    /// The DMA engine.
    idmac: IdmacState,
}

impl SdMmc {
    /// The size of a block in bytes.
    pub const BLOCK_SIZE: usize = 512;

    /// The card.
    pub closed spec fn card(self) -> Card {
        self.card
    }

    /// The DMA engine.
    pub closed spec fn idmac(self) -> IdmacState {
        self.idmac
    }

    /// Creates the driver of a controller that was brought up.
    pub fn new(started: Started) -> (driver: SdMmc)
        ensures
            driver.card() == started.card,
            driver.idmac() == started.engine.state,
    {
        SdMmc { card: started.card, idmac: started.engine.state }
    }

    /// Returns the number of blocks.
    pub fn num_blocks(&self) -> (blocks: u64)
        ensures
            blocks == self.card().num_blocks,
    {
        self.card.num_blocks
    }

    /// Returns the relative card address assigned by CMD3.
    pub fn relative_card_address(&self) -> (rca: u16)
        ensures
            rca == self.card().rca,
    {
        self.card.rca
    }

    /// Returns the OCR Card Capacity Status captured from ACMD41.
    ///
    /// Initialization only completes when this is `true`; SDSC byte-addressed
    /// cards are intentionally unsupported.
    pub fn is_high_capacity(&self) -> (ccs: bool)
        ensures
            ccs == self.card().ocr_ccs,
    {
        self.card.ocr_ccs
    }

    /// Tells whether the driver refuses all further transfers.
    pub fn is_faulted(&self) -> (faulted: bool)
        ensures
            faulted == self.idmac().faulted,
    {
        self.idmac.faulted
    }

    /// Tells whether the engine could not be stopped, so that its memory has to
    /// be kept.
    pub fn is_reset_failed(&self) -> (failed: bool)
        ensures
            failed == self.idmac().reset_failed,
    {
        self.idmac.reset_failed
    }

    /// The transfer buffer, if the DMA engine is in service.
    pub fn dma_buffer(&self) -> (buffer: Option<DMABuffer>)
        ensures
            buffer == self.idmac().buffer,
    {
        self.idmac.buffer
    }

    /// The request that reading or writing `len` bytes from `block` on begins
    /// with.
    pub open spec fn begun(
        self,
        direction: Direction,
        mode: WaitMode,
        block: u32,
        len: usize,
    ) -> Step<BlockRequest, BlockEnd> {
        BlockRequest::start(
            direction,
            mode,
            self.card().rca,
            self.card().num_blocks,
            self.idmac(),
            block,
            len,
        )
    }

    /// Begins to read one or more contiguous blocks.
    pub fn read_blocks(&self, block: u32, len: usize) -> (request: Step<BlockRequest, BlockEnd>)
        ensures
            request == self.begun(Direction::Read, WaitMode::Sync, block, len),
    {
        self.begin(Direction::Read, WaitMode::Sync, block, len)
    }

    /// Begins to read one or more contiguous blocks, waiting asynchronously for
    /// each chunk.
    ///
    /// Cancelling the request after command submission stops the engine and
    /// permanently faults the driver, because the terminal states of controller
    /// and card are unknown.
    pub fn read_blocks_async(&self, block: u32, len: usize) -> (request: Step<
        BlockRequest,
        BlockEnd,
    >)
        ensures
            request == self.begun(Direction::Read, WaitMode::Async, block, len),
    {
        self.begin(Direction::Read, WaitMode::Async, block, len)
    }

    /// Begins to write one or more contiguous blocks.
    pub fn write_blocks(&self, block: u32, len: usize) -> (request: Step<BlockRequest, BlockEnd>)
        ensures
            request == self.begun(Direction::Write, WaitMode::Sync, block, len),
    {
        self.begin(Direction::Write, WaitMode::Sync, block, len)
    }

    /// Begins to write one or more contiguous blocks, waiting asynchronously
    /// for each chunk.
    ///
    /// Cancelling the request while the engine is at work stops it before its
    /// descriptors go. Cancelling it while the card is programming leaves no
    /// command under way, but still faults the driver permanently, because the
    /// outcome of the programming is unknown.
    pub fn write_blocks_async(&self, block: u32, len: usize) -> (request: Step<
        BlockRequest,
        BlockEnd,
    >)
        ensures
            request == self.begun(Direction::Write, WaitMode::Async, block, len),
    {
        self.begin(Direction::Write, WaitMode::Async, block, len)
    }

    /// Begins to read a single block.
    pub fn read_block(&self, block: u32) -> (request: Step<BlockRequest, BlockEnd>)
        ensures
            request == self.begun(Direction::Read, WaitMode::Sync, block, 512),
    {
        self.read_blocks(block, Self::BLOCK_SIZE)
    }

    /// Begins to read a single block, waiting asynchronously. See
    /// [`Self::read_blocks_async`] for the cancellation policy.
    pub fn read_block_async(&self, block: u32) -> (request: Step<BlockRequest, BlockEnd>)
        ensures
            request == self.begun(Direction::Read, WaitMode::Async, block, 512),
    {
        self.read_blocks_async(block, Self::BLOCK_SIZE)
    }

    /// Begins to write a single block.
    pub fn write_block(&self, block: u32) -> (request: Step<BlockRequest, BlockEnd>)
        ensures
            request == self.begun(Direction::Write, WaitMode::Sync, block, 512),
    {
        self.write_blocks(block, Self::BLOCK_SIZE)
    }

    /// Begins to write a single block, waiting asynchronously. See
    /// [`Self::write_blocks_async`] for the cancellation policy.
    pub fn write_block_async(&self, block: u32) -> (request: Step<BlockRequest, BlockEnd>)
        ensures
            request == self.begun(Direction::Write, WaitMode::Async, block, 512),
    {
        self.write_blocks_async(block, Self::BLOCK_SIZE)
    }

    /// Begins to read a single block, waiting asynchronously, without a check
    /// that the card has it.
    pub fn read_dma_chunk_async(&self, block: u32) -> (request: BlockRequest)
        ensures
            request == (BlockRequest {
                direction: Direction::Read,
                mode: WaitMode::Async,
                rca: self.card().rca,
                state: self.idmac(),
                len: 512,
                offset: 0,
                block,
                phase: BlockPhase::BlockSize,
            }),
    {
        BlockRequest {
            direction: Direction::Read,
            mode: WaitMode::Async,
            rca: self.card.rca,
            state: self.idmac,
            len: Self::BLOCK_SIZE,
            offset: 0,
            block,
            phase: BlockPhase::BlockSize,
        }
    }

    /// Begins a request.
    fn begin(&self, direction: Direction, mode: WaitMode, block: u32, len: usize) -> (request: Step<
        BlockRequest,
        BlockEnd,
    >)
        ensures
            request == self.begun(direction, mode, block, len),
    {
        BlockRequest::start(
            direction,
            mode,
            self.card.rca,
            self.card.num_blocks,
            self.idmac,
            block,
            len,
        )
    }

    /// Takes note of how a request has ended and returns its result. A fault is
    /// never forgotten.
    pub fn complete(&mut self, end: BlockEnd) -> (result: SdMmcResult)
        ensures
            result == end.result,
            final(self).card() == old(self).card(),
            final(self).idmac() == (IdmacState {
                faulted: old(self).idmac().faulted || end.state.faulted,
                reset_failed: old(self).idmac().reset_failed || end.state.reset_failed,
                ..old(self).idmac()
            }),
    {
        self.idmac.faulted = self.idmac.faulted || end.state.faulted;
        self.idmac.reset_failed = self.idmac.reset_failed || end.state.reset_failed;
        end.result
    }

    /// Cancels a suspended request: the driver is faulted, and a transfer that
    /// is under way must be aborted.
    pub fn cancel(&mut self, request: BlockRequest) -> (abort: Option<FinishTransfer>)
        requires
            request.suspended(),
        ensures
            abort == request.cancellation(),
            final(self).card() == old(self).card(),
            final(self).idmac() == (IdmacState { faulted: true, ..old(self).idmac() }),
    {
        self.idmac.faulted = true;
        request.cancel()
    }

    /// Takes note of how the abort of a cancelled transfer has ended.
    pub fn cancelled(&mut self, result: SdMmcResult)
        ensures
            final(self).card() == old(self).card(),
            final(self).idmac() == (IdmacState {
                faulted: true,
                reset_failed: old(self).idmac().reset_failed || result is Err,
                ..old(self).idmac()
            }),
    {
        self.idmac.faulted = true;
        if result.is_err() {
            self.idmac.reset_failed = true;
        }
    }

    /// Begins to bring the DMA engine into service with a transfer buffer of
    /// `buf_size` bytes.
    pub fn try_enable_idmac(&self, buf_size: usize, ahb_data_width: AHBDataWidth) -> (enable:
        EnableIdmac)
        ensures
            enable == EnableIdmac::new(buf_size, ahb_data_width, self.idmac()),
    {
        EnableIdmac::new(buf_size, ahb_data_width, self.idmac)
    }

    /// Takes note of how the attempt to bring the engine into service has ended.
    pub fn enabled(&mut self, end: EnableEnd)
        ensures
            final(self).card() == old(self).card(),
            final(self).idmac() == end.state,
    {
        self.idmac = end.state;
    }

    /// The transfer buffer to give back when the driver goes, with its
    /// alignment. It is kept if the engine could not be stopped, or if it cannot
    /// be described.
    pub open spec fn releasable(self) -> Option<(DMABuffer, usize)> {
        match self.idmac().buffer {
            Some(buffer) => if !self.idmac().reset_failed && EnableIdmac::layout_ok(
                buffer.size,
                self.idmac().data_width,
            ) {
                Some((buffer, self.idmac().data_width.align_value()))
            } else {
                None
            },
            None => None,
        }
    }

    /// Takes the transfer buffer out of the driver, if it may be given back.
    pub fn release_dma_buffer(&mut self) -> (released: Option<(DMABuffer, usize)>)
        ensures
            released == old(self).releasable(),
            final(self).card() == old(self).card(),
            final(self).idmac() == (IdmacState {
                buffer: if released is Some {
                    None
                } else {
                    old(self).idmac().buffer
                },
                ..old(self).idmac()
            }),
    {
        if self.idmac.reset_failed {
            return None;
        }
        match self.idmac.buffer {
            None => None,
            Some(buffer) => {
                if !EnableIdmac::layout_ok(buffer.size, self.idmac.data_width) {
                    return None;
                }
                self.idmac.buffer = None;
                Some((buffer, self.idmac.data_width.align_value()))
            },
        }
    }

    /// The interrupt handler for DMA transfers: records the status that it found
    /// and decides what to clear and whether to wake the waiter.
    pub fn dma_irq_handler(
        completion: &mut IdmacCompletion,
        rintsts: RIntSts,
        idsts: IdSts,
    ) -> (actions: IrqActions)
        ensures
            actions == IrqActions::answer(rintsts, idsts),
            *final(completion) == old(completion).after_irq(rintsts, idsts),
    {
        let actions = IrqActions::decide(rintsts, idsts);
        completion.record_irq(rintsts, idsts);
        actions
    }
}

/// A driver that was brought up has a supported card.
pub proof fn law_startup_accepts_only_supported_cards(replies: Seq<Reply>)
    ensures
        crate::io::run(Step::Next(Startup::new()), replies).at matches Step::Done(Ok(started))
            ==> started.card.supported(),
{
    let start = Step::<Startup, SdMmcResult<Started>>::Next(Startup::new());
    let inv = |trace: Seq<(Op, Reply)>, at: Step<Startup, SdMmcResult<Started>>|
        startup_invariant(at);
    assert forall|trace: Seq<(Op, Reply)>, m: Startup, reply: Reply|
        inv(trace, Step::Next(m)) implies #[trigger] inv(
        trace.push((m.op(), reply)),
        m.next(reply),
    ) by {
        if let StartupPhase::Init(init) = m.phase {
            crate::init::lemma_card_known(init, reply);
        }
    }
    crate::io::lemma_run_invariant(start, replies, inv);
}

/// What is known of the card while the controller is brought up.
pub open spec fn startup_invariant(at: Step<Startup, SdMmcResult<Started>>) -> bool {
    match at {
        Step::Next(m) => match m.phase {
            StartupPhase::Init(init) => crate::init::card_known(Step::Next(init)),
            StartupPhase::Enable { card, .. } => card.supported(),
        },
        Step::Done(Ok(started)) => started.card.supported(),
        Step::Done(Err(_)) => true,
    }
}

} // verus!
