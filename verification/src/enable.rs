//! Bringing the internal DMA engine into service.

use vstd::prelude::*;

use crate::dma::{layout_is_valid, DMABuffer};
use crate::io::{Machine, Notice, Op, Reply, Step};
use crate::regs::{BMod, Ctrl, HCon, IdIntEn, IdSts, IntMask, RIntSts, Reg};
use crate::transfer::ResetIdmac;

verus! {

/// Data width of the bus that the engine masters, which decides how its buffers
/// must be aligned.
#[derive(Clone, Copy, Debug, Eq, PartialEq, Structural)]
pub enum AHBDataWidth {
    /// 16 bits.
    Bits16,
    /// 32 bits.
    Bits32,
    /// 64 bits.
    Bits64,
}

impl AHBDataWidth {
    /// Returns the alignment requirement in bytes for the given data width.
    #[verifier::allow_in_spec]
    pub fn align_value(&self) -> usize
        returns
            (match self {
                AHBDataWidth::Bits16 => 2usize,
                AHBDataWidth::Bits32 => 4,
                AHBDataWidth::Bits64 => 8,
            }),
    {
        match self {
            AHBDataWidth::Bits16 => 2,
            AHBDataWidth::Bits32 => 4,
            AHBDataWidth::Bits64 => 8,
        }
    }

    /// The width that a code of the hardware configuration stands for.
    #[verifier::allow_in_spec]
    pub fn of_code(code: u32) -> Option<AHBDataWidth>
        returns
            (if code == 0 {
                Some(AHBDataWidth::Bits16)
            } else if code == 1 {
                Some(AHBDataWidth::Bits32)
            } else if code == 2 {
                Some(AHBDataWidth::Bits64)
            } else {
                None::<AHBDataWidth>
            }),
    {
        if code == 0 {
            Some(AHBDataWidth::Bits16)
        } else if code == 1 {
            Some(AHBDataWidth::Bits32)
        } else if code == 2 {
            Some(AHBDataWidth::Bits64)
        } else {
            None
        }
    }
}

/// Interrupts that DMA transfers need: errors, the end of the data phase and of
/// the automatic stop. Command done stays masked because the polling path must
/// see it, and so does the start bit error, whose bit has a second meaning.
#[verifier::allow_in_spec]
pub fn idmac_controller_interrupt_mask() -> IntMask
    returns
        IntMask(0xdfca),
{
    IntMask(0xdfca)
}

/// The mask enables the interrupts that DMA transfers need, and neither the
/// start bit error, nor command done, nor the FIFO requests. Card detection and
/// the SDIO interrupts do not matter.
#[verifier::allow_in_spec]
pub fn idmac_controller_interrupt_mask_matches(mask: IntMask) -> bool
    returns
        mask.0 & 0xfffe == 0xdfca_u32,
{
    mask.0 & 0xfffe == 0xdfca
}

/// The mask that is programmed is the one that is expected, each interrupt that
/// it enables is an error or the end of a phase, and command done is not one.
pub proof fn law_interrupt_mask()
    ensures
        idmac_controller_interrupt_mask_matches(idmac_controller_interrupt_mask()),
        !RIntSts(idmac_controller_interrupt_mask().0).command_done(),
        idmac_controller_interrupt_mask().0 == (RIntSts::ERRORS & !RIntSts::START_BIT_ERROR)
            | RIntSts::AUTO_COMMAND_DONE | RIntSts::DATA_TRANSFER_OVER,
{
    assert(0xdfcau32 & 0xfffe == 0xdfca && 0xdfcau32 & 0x4 == 0) by (bit_vector);
    assert(((0xbfc2u32 & !0x2000u32) | 0x4000) | 0x8 == 0xdfca) by (bit_vector);
}

/// What the driver knows of the engine and of the memory that it may use.
#[derive(Clone, Copy, Debug, PartialEq, Eq, Structural)]
pub struct IdmacState {
    /// Data width of the bus.
    pub data_width: AHBDataWidth,
    /// The transfer buffer, if the engine is in service.
    pub buffer: Option<DMABuffer>,
    /// Once set, no further transfer may be submitted.
    pub faulted: bool,
    /// The engine could not be stopped, so its memory must be kept.
    pub reset_failed: bool,
}

/// What became of the attempt to bring the engine into service.
#[derive(Clone, Copy, Debug, PartialEq, Eq, Structural)]
pub enum EnableOutcome {
    /// The hardware reports a data width that has no meaning.
    UnsupportedWidth(u32),
    /// The engine did not complete its reset.
    ResetFailed,
    /// No buffer of the wanted size can be described.
    InvalidLayout,
    /// No memory for the buffer.
    AllocationFailed,
    /// The interrupt handler could not be registered.
    IrqRefused,
    /// The engine's bus mode was not retained.
    BusMode,
    /// The engine was not connected.
    Control,
    /// The engine reports an abnormal state.
    Abnormal,
    /// The engine is in service.
    Enabled {
        /// The engine's interrupt enables were retained.
        engine_interrupts: bool,
        /// The controller's interrupt mask was retained.
        controller_interrupts: bool,
        /// The engine reports nothing abnormal.
        quiet: bool,
    },
}

/// How the attempt to bring the engine into service has ended.
#[derive(Clone, Copy, Debug, PartialEq, Eq, Structural)]
pub struct EnableEnd {
    /// What the driver knows now.
    pub state: IdmacState,
    /// The hardware reports another data width than was expected.
    pub width_corrected: bool,
    /// What became of the attempt.
    pub outcome: EnableOutcome,
}

/// Where the attempt stands.
#[derive(Clone, Copy, Debug, PartialEq, Eq, Structural)]
pub enum EnablePhase {
    /// Masking the controller's interrupts.
    MaskController,
    /// Masking the engine's interrupts.
    MaskEngine,
    /// Disconnecting the interrupt line.
    MaskLine,
    /// Ordering that.
    MaskFence,
    /// Reading the hardware configuration.
    Configuration,
    /// Resetting the engine.
    Reset(ResetIdmac),
    /// Allocating the transfer buffer.
    Allocate,
    /// Registering the interrupt handler.
    RegisterIrq,
    /// Reading the controller's status.
    StaleRaw,
    /// Reading the engine's status.
    StaleId {
        /// The controller's status.
        rintsts: u32,
    },
    /// Clearing the controller's status.
    ClearRaw {
        /// The controller's status.
        rintsts: u32,
        /// The engine's status.
        idsts: u32,
    },
    /// Reading the engine's status again.
    RereadId,
    /// Clearing the engine's status.
    ClearId {
        /// The engine's status.
        idsts: u32,
    },
    /// Setting the bus mode.
    BusMode,
    /// Ordering that.
    BusModeFence,
    /// Reading the bus mode back.
    CheckBusMode,
    /// Looking at the engine, to report what is abnormal.
    BusModeStatus {
        /// The bus mode is as it should be.
        kept: bool,
    },
    /// Reporting what is abnormal.
    BusModeReport {
        /// The bus mode is as it should be.
        kept: bool,
        /// The engine's status.
        idsts: u32,
    },
    /// Connecting the engine and the interrupt line.
    Connect,
    /// Ordering that.
    ConnectFence,
    /// Reading the control register back.
    CheckControl,
    /// Looking at the engine.
    CheckEngine {
        /// The engine is connected.
        connected: bool,
    },
    /// Enabling the engine's interrupts.
    EngineInterrupts,
    /// Enabling the controller's interrupts.
    ControllerInterrupts,
    /// Reading the engine's interrupt enables back.
    CheckEngineInterrupts,
    /// Reading the controller's interrupt mask back.
    CheckControllerInterrupts {
        /// The engine's interrupt enables were retained.
        engine_interrupts: bool,
    },
    /// Last look at the engine.
    FinalLook {
        /// The engine's interrupt enables were retained.
        engine_interrupts: bool,
        /// The controller's interrupt mask was retained.
        controller_interrupts: bool,
    },
    /// Failure: masking the controller's interrupts.
    UndoController(EnableOutcome),
    /// Failure: masking the engine's interrupts.
    UndoEngine(EnableOutcome),
    /// Failure: disconnecting engine and interrupt line.
    UndoControl(EnableOutcome),
    /// Failure: ordering that.
    UndoFence(EnableOutcome),
    /// Failure: stopping the engine.
    UndoReset {
        /// The reset.
        reset: ResetIdmac,
        /// What went wrong.
        outcome: EnableOutcome,
    },
    /// Failure: giving the buffer back.
    UndoBuffer {
        /// The buffer.
        buffer: DMABuffer,
        /// What went wrong.
        outcome: EnableOutcome,
    },
}

/// Brings the engine into service: makes sure that no interrupt is enabled
/// before its handler is registered, allocates the transfer buffer, programs the
/// engine and checks that each register retained what was written. When a check
/// fails, everything is undone; the buffer is given back only if the engine could
/// be stopped.
#[derive(Clone, Copy, Debug, PartialEq, Eq, Structural)]
pub struct EnableIdmac {
    /// Wanted size of the transfer buffer.
    pub buf_size: usize,
    /// Data width that the hardware is expected to report. The one that it
    /// reports counts.
    pub expected: AHBDataWidth,
    /// The hardware has reported another one.
    pub width_corrected: bool,
    /// What the driver knows so far.
    pub state: IdmacState,
    /// Where the attempt stands.
    pub phase: EnablePhase,
}

impl EnableIdmac {
    /// Begins the attempt.
    #[verifier::allow_in_spec]
    pub fn new(buf_size: usize, expected: AHBDataWidth, state: IdmacState) -> EnableIdmac
        returns
            (EnableIdmac {
                buf_size,
                expected,
                width_corrected: false,
                state,
                phase: EnablePhase::MaskController,
            }),
    {
        EnableIdmac {
            buf_size,
            expected,
            width_corrected: false,
            state,
            phase: EnablePhase::MaskController,
        }
    }

    /// The same attempt at another point.
    #[verifier::allow_in_spec]
    pub fn at(self, phase: EnablePhase) -> Step<EnableIdmac, EnableEnd>
        returns
            Step::<EnableIdmac, EnableEnd>::Next(EnableIdmac { phase, ..self }),
    {
        Step::Next(EnableIdmac { phase, ..self })
    }

    /// The attempt with other knowledge.
    #[verifier::allow_in_spec]
    pub fn with(self, state: IdmacState) -> EnableIdmac
        returns
            (EnableIdmac { state, ..self }),
    {
        EnableIdmac { state, ..self }
    }

    /// The attempt is over.
    #[verifier::allow_in_spec]
    pub fn end(self, outcome: EnableOutcome) -> Step<EnableIdmac, EnableEnd>
        returns
            Step::<EnableIdmac, EnableEnd>::Done(
                EnableEnd {
                    state: self.state,
                    width_corrected: self.width_corrected,
                    outcome,
                },
            ),
    {
        Step::Done(
            EnableEnd { state: self.state, width_corrected: self.width_corrected, outcome },
        )
    }

    /// A stale controller status needs clearing.
    #[verifier::allow_in_spec]
    pub fn stale(rintsts: RIntSts) -> bool
        returns
            rintsts.error() || rintsts.auto_command_done() || rintsts.data_transfer_over()
                || rintsts.receive_fifo_data_request() || rintsts.transmit_fifo_data_request(),
    {
        rintsts.error() || rintsts.auto_command_done() || rintsts.data_transfer_over()
            || rintsts.receive_fifo_data_request() || rintsts.transmit_fifo_data_request()
    }

    /// Point after the controller's status is clear.
    #[verifier::allow_in_spec]
    pub fn clear_engine(self, idsts: u32) -> Step<EnableIdmac, EnableEnd>
        returns
            (if IdSts(idsts).any_event() {
                self.at(EnablePhase::RereadId)
            } else {
                self.at(EnablePhase::BusMode)
            }),
    {
        if IdSts(idsts).any_event() {
            self.at(EnablePhase::RereadId)
        } else {
            self.at(EnablePhase::BusMode)
        }
    }

    /// Point after the bus mode was set.
    #[verifier::allow_in_spec]
    pub fn connect(self, kept: bool) -> Step<EnableIdmac, EnableEnd>
        returns
            (if kept {
                self.at(EnablePhase::Connect)
            } else {
                self.at(EnablePhase::UndoController(EnableOutcome::BusMode))
            }),
    {
        if kept {
            self.at(EnablePhase::Connect)
        } else {
            self.at(EnablePhase::UndoController(EnableOutcome::BusMode))
        }
    }

    /// A buffer of the wanted size can be described for the bus.
    #[verifier::allow_in_spec]
    pub fn layout_ok(size: usize, width: AHBDataWidth) -> bool
        returns
            size <= isize::MAX - (width.align_value() - 1),
    {
        layout_is_valid(size, width.align_value())
    }

    /// The engine is stopped after a failure: the buffer goes, if there is one
    /// that can be described.
    #[verifier::allow_in_spec]
    pub fn release(self, outcome: EnableOutcome) -> Step<EnableIdmac, EnableEnd>
        returns
            (match self.state.buffer {
                Some(buffer) => if EnableIdmac::layout_ok(buffer.size, self.state.data_width) {
                    self.at(EnablePhase::UndoBuffer { buffer, outcome })
                } else {
                    self.end(outcome)
                },
                None => self.end(outcome),
            }),
    {
        match self.state.buffer {
            Some(buffer) => if EnableIdmac::layout_ok(buffer.size, self.state.data_width) {
                self.at(EnablePhase::UndoBuffer { buffer, outcome })
            } else {
                self.end(outcome)
            },
            None => self.end(outcome),
        }
    }
}

impl Machine for EnableIdmac {
    type Act = Op;

    type Event = Reply;

    type Out = EnableEnd;

    open spec fn op(self) -> Op {
        match self.phase {
            EnablePhase::MaskController => Op::Write(Reg::IntMask, 0),
            EnablePhase::MaskEngine => Op::Write(Reg::IdIntEn, 0),
            EnablePhase::MaskLine => Op::Update {
                reg: Reg::Ctrl,
                clear: Ctrl::INT_ENABLE,
                set: 0,
            },
            EnablePhase::MaskFence => Op::Fence,
            EnablePhase::Configuration => Op::Read(Reg::HCon),
            EnablePhase::Reset(reset) => reset.op(),
            EnablePhase::Allocate => Op::AllocBuffer {
                size: self.buf_size,
                align: self.state.data_width.align_value(),
            },
            EnablePhase::RegisterIrq => Op::RegisterIrq,
            EnablePhase::StaleRaw => Op::Read(Reg::RIntSts),
            EnablePhase::StaleId { .. } => Op::Read(Reg::IdSts),
            EnablePhase::ClearRaw { rintsts, .. } => Op::Write(Reg::RIntSts, rintsts),
            EnablePhase::RereadId => Op::Read(Reg::IdSts),
            EnablePhase::ClearId { idsts } => Op::Write(Reg::IdSts, idsts),
            EnablePhase::BusMode => Op::Update {
                reg: Reg::BMod,
                clear: BMod::DSL_MASK,
                set: BMod::DE | BMod::FB,
            },
            EnablePhase::BusModeFence => Op::Fence,
            EnablePhase::CheckBusMode => Op::Read(Reg::BMod),
            EnablePhase::BusModeStatus { .. } => Op::Peek(Reg::IdSts),
            EnablePhase::BusModeReport { idsts, .. } => Op::Report(
                Notice::BusModeStatus { idsts },
            ),
            EnablePhase::Connect => Op::Update {
                reg: Reg::Ctrl,
                clear: 0,
                set: Ctrl::USE_INTERNAL_DMAC | Ctrl::INT_ENABLE,
            },
            EnablePhase::ConnectFence => Op::Fence,
            EnablePhase::CheckControl => Op::Read(Reg::Ctrl),
            EnablePhase::CheckEngine { .. } => Op::Read(Reg::IdSts),
            EnablePhase::EngineInterrupts => Op::Write(Reg::IdIntEn, IdIntEn::ALL),
            EnablePhase::ControllerInterrupts => Op::Write(
                Reg::IntMask,
                idmac_controller_interrupt_mask().0,
            ),
            EnablePhase::CheckEngineInterrupts => Op::Read(Reg::IdIntEn),
            EnablePhase::CheckControllerInterrupts { .. } => Op::Read(Reg::IntMask),
            EnablePhase::FinalLook { .. } => Op::Read(Reg::IdSts),
            EnablePhase::UndoController(_) => Op::Write(Reg::IntMask, 0),
            EnablePhase::UndoEngine(_) => Op::Write(Reg::IdIntEn, 0),
            EnablePhase::UndoControl(_) => Op::Update {
                reg: Reg::Ctrl,
                clear: Ctrl::INT_ENABLE | Ctrl::USE_INTERNAL_DMAC,
                set: 0,
            },
            EnablePhase::UndoFence(_) => Op::Fence,
            EnablePhase::UndoReset { reset, .. } => reset.op(),
            EnablePhase::UndoBuffer { buffer, .. } => Op::FreeBuffer {
                size: buffer.size,
                align: self.state.data_width.align_value(),
            },
        }
    }

    fn request(&self) -> (op: Op) {
        match self.phase {
            EnablePhase::MaskController => Op::Write(Reg::IntMask, 0),
            EnablePhase::MaskEngine => Op::Write(Reg::IdIntEn, 0),
            EnablePhase::MaskLine => Op::Update {
                reg: Reg::Ctrl,
                clear: Ctrl::INT_ENABLE,
                set: 0,
            },
            EnablePhase::MaskFence => Op::Fence,
            EnablePhase::Configuration => Op::Read(Reg::HCon),
            EnablePhase::Reset(reset) => reset.request(),
            EnablePhase::Allocate => Op::AllocBuffer {
                size: self.buf_size,
                align: self.state.data_width.align_value(),
            },
            EnablePhase::RegisterIrq => Op::RegisterIrq,
            EnablePhase::StaleRaw => Op::Read(Reg::RIntSts),
            EnablePhase::StaleId { .. } => Op::Read(Reg::IdSts),
            EnablePhase::ClearRaw { rintsts, .. } => Op::Write(Reg::RIntSts, rintsts),
            EnablePhase::RereadId => Op::Read(Reg::IdSts),
            EnablePhase::ClearId { idsts } => Op::Write(Reg::IdSts, idsts),
            EnablePhase::BusMode => Op::Update {
                reg: Reg::BMod,
                clear: BMod::DSL_MASK,
                set: BMod::DE | BMod::FB,
            },
            EnablePhase::BusModeFence => Op::Fence,
            EnablePhase::CheckBusMode => Op::Read(Reg::BMod),
            EnablePhase::BusModeStatus { .. } => Op::Peek(Reg::IdSts),
            EnablePhase::BusModeReport { idsts, .. } => Op::Report(
                Notice::BusModeStatus { idsts },
            ),
            EnablePhase::Connect => Op::Update {
                reg: Reg::Ctrl,
                clear: 0,
                set: Ctrl::USE_INTERNAL_DMAC | Ctrl::INT_ENABLE,
            },
            EnablePhase::ConnectFence => Op::Fence,
            EnablePhase::CheckControl => Op::Read(Reg::Ctrl),
            EnablePhase::CheckEngine { .. } => Op::Read(Reg::IdSts),
            EnablePhase::EngineInterrupts => Op::Write(Reg::IdIntEn, IdIntEn::ALL),
            EnablePhase::ControllerInterrupts => Op::Write(
                Reg::IntMask,
                idmac_controller_interrupt_mask().0,
            ),
            EnablePhase::CheckEngineInterrupts => Op::Read(Reg::IdIntEn),
            EnablePhase::CheckControllerInterrupts { .. } => Op::Read(Reg::IntMask),
            EnablePhase::FinalLook { .. } => Op::Read(Reg::IdSts),
            EnablePhase::UndoController(_) => Op::Write(Reg::IntMask, 0),
            EnablePhase::UndoEngine(_) => Op::Write(Reg::IdIntEn, 0),
            EnablePhase::UndoControl(_) => Op::Update {
                reg: Reg::Ctrl,
                clear: Ctrl::INT_ENABLE | Ctrl::USE_INTERNAL_DMAC,
                set: 0,
            },
            EnablePhase::UndoFence(_) => Op::Fence,
            EnablePhase::UndoReset { reset, .. } => reset.request(),
            EnablePhase::UndoBuffer { buffer, .. } => Op::FreeBuffer {
                size: buffer.size,
                align: self.state.data_width.align_value(),
            },
        }
    }

    open spec fn next(self, reply: Reply) -> Step<Self, EnableEnd> {
        match self.phase {
            EnablePhase::MaskController => self.at(EnablePhase::MaskEngine),
            EnablePhase::MaskEngine => self.at(EnablePhase::MaskLine),
            EnablePhase::MaskLine => self.at(EnablePhase::MaskFence),
            EnablePhase::MaskFence => self.at(EnablePhase::Configuration),
            EnablePhase::Configuration => match AHBDataWidth::of_code(
                HCon(reply.word()).h_data_width(),
            ) {
                Some(data_width) => (EnableIdmac {
                    width_corrected: data_width != self.expected,
                    state: IdmacState { data_width, ..self.state },
                    ..self
                }).at(EnablePhase::Reset(ResetIdmac::new())),
                None => self.end(
                    EnableOutcome::UnsupportedWidth(HCon(reply.word()).h_data_width()),
                ),
            },
            EnablePhase::Reset(reset) => match reset.next(reply) {
                Step::Next(reset) => self.at(EnablePhase::Reset(reset)),
                Step::Done(true) => if EnableIdmac::layout_ok(
                    self.buf_size,
                    self.state.data_width,
                ) {
                    self.at(EnablePhase::Allocate)
                } else {
                    self.end(EnableOutcome::InvalidLayout)
                },
                Step::Done(false) => self.with(IdmacState { faulted: true, ..self.state }).end(
                    EnableOutcome::ResetFailed,
                ),
            },
            EnablePhase::Allocate => match reply.address() {
                Some(bus_addr) => self.with(
                    IdmacState {
                        buffer: Some(DMABuffer { bus_addr, size: self.buf_size }),
                        ..self.state
                    },
                ).at(EnablePhase::RegisterIrq),
                None => self.end(EnableOutcome::AllocationFailed),
            },
            EnablePhase::RegisterIrq => if reply.flag() {
                self.at(EnablePhase::StaleRaw)
            } else {
                self.at(EnablePhase::UndoController(EnableOutcome::IrqRefused))
            },
            EnablePhase::StaleRaw => self.at(EnablePhase::StaleId { rintsts: reply.word() }),
            EnablePhase::StaleId { rintsts } => if EnableIdmac::stale(RIntSts(rintsts)) {
                self.at(EnablePhase::ClearRaw { rintsts, idsts: reply.word() })
            } else {
                self.clear_engine(reply.word())
            },
            EnablePhase::ClearRaw { idsts, .. } => self.clear_engine(idsts),
            EnablePhase::RereadId => if IdSts(reply.word()).any_event() {
                self.at(EnablePhase::ClearId { idsts: reply.word() })
            } else {
                self.at(EnablePhase::BusMode)
            },
            EnablePhase::ClearId { .. } => self.at(EnablePhase::BusMode),
            EnablePhase::BusMode => self.at(EnablePhase::BusModeFence),
            EnablePhase::BusModeFence => self.at(EnablePhase::CheckBusMode),
            EnablePhase::CheckBusMode => {
                let bmod = BMod(reply.word());
                self.at(
                    EnablePhase::BusModeStatus { kept: bmod.de() && bmod.no_skip() && bmod.fb() },
                )
            },
            EnablePhase::BusModeStatus { kept } => if IdSts(reply.word()).abnormal() {
                self.at(EnablePhase::BusModeReport { kept, idsts: reply.word() })
            } else {
                self.connect(kept)
            },
            EnablePhase::BusModeReport { kept, .. } => self.connect(kept),
            EnablePhase::Connect => self.at(EnablePhase::ConnectFence),
            EnablePhase::ConnectFence => self.at(EnablePhase::CheckControl),
            EnablePhase::CheckControl => self.at(
                EnablePhase::CheckEngine {
                    connected: Ctrl(reply.word()).use_internal_dmac() && Ctrl(
                        reply.word(),
                    ).int_enable(),
                },
            ),
            EnablePhase::CheckEngine { connected } => if !connected {
                self.at(EnablePhase::UndoController(EnableOutcome::Control))
            } else if IdSts(reply.word()).abnormal() {
                self.at(EnablePhase::UndoController(EnableOutcome::Abnormal))
            } else {
                self.at(EnablePhase::EngineInterrupts)
            },
            EnablePhase::EngineInterrupts => self.at(EnablePhase::ControllerInterrupts),
            EnablePhase::ControllerInterrupts => self.at(EnablePhase::CheckEngineInterrupts),
            EnablePhase::CheckEngineInterrupts => self.at(
                EnablePhase::CheckControllerInterrupts {
                    engine_interrupts: IdIntEn(reply.word()).all_enabled(),
                },
            ),
            EnablePhase::CheckControllerInterrupts { engine_interrupts } => self.at(
                EnablePhase::FinalLook {
                    engine_interrupts,
                    controller_interrupts: idmac_controller_interrupt_mask_matches(
                        IntMask(reply.word()),
                    ),
                },
            ),
            EnablePhase::FinalLook { engine_interrupts, controller_interrupts } => self.end(
                EnableOutcome::Enabled {
                    engine_interrupts,
                    controller_interrupts,
                    quiet: !IdSts(reply.word()).abnormal(),
                },
            ),
            EnablePhase::UndoController(outcome) => self.at(EnablePhase::UndoEngine(outcome)),
            EnablePhase::UndoEngine(outcome) => self.at(EnablePhase::UndoControl(outcome)),
            EnablePhase::UndoControl(outcome) => self.at(EnablePhase::UndoFence(outcome)),
            EnablePhase::UndoFence(outcome) => self.at(
                EnablePhase::UndoReset { reset: ResetIdmac::new(), outcome },
            ),
            EnablePhase::UndoReset { reset, outcome } => match reset.next(reply) {
                Step::Next(reset) => self.at(EnablePhase::UndoReset { reset, outcome }),
                Step::Done(true) => self.release(outcome),
                Step::Done(false) => self.with(
                    IdmacState { faulted: true, reset_failed: true, ..self.state },
                ).end(outcome),
            },
            EnablePhase::UndoBuffer { outcome, .. } => self.with(
                IdmacState { buffer: None, ..self.state },
            ).end(outcome),
        }
    }

    fn step(self, reply: Reply) -> (step: Step<Self, EnableEnd>) {
        match self.phase {
            EnablePhase::MaskController => self.at(EnablePhase::MaskEngine),
            EnablePhase::MaskEngine => self.at(EnablePhase::MaskLine),
            EnablePhase::MaskLine => self.at(EnablePhase::MaskFence),
            EnablePhase::MaskFence => self.at(EnablePhase::Configuration),
            EnablePhase::Configuration => match AHBDataWidth::of_code(
                HCon(reply.word()).h_data_width(),
            ) {
                Some(data_width) => (EnableIdmac {
                    width_corrected: data_width != self.expected,
                    state: IdmacState { data_width, ..self.state },
                    ..self
                }).at(EnablePhase::Reset(ResetIdmac::new())),
                None => self.end(
                    EnableOutcome::UnsupportedWidth(HCon(reply.word()).h_data_width()),
                ),
            },
            EnablePhase::Reset(reset) => match reset.step(reply) {
                Step::Next(reset) => self.at(EnablePhase::Reset(reset)),
                Step::Done(true) => if EnableIdmac::layout_ok(
                    self.buf_size,
                    self.state.data_width,
                ) {
                    self.at(EnablePhase::Allocate)
                } else {
                    self.end(EnableOutcome::InvalidLayout)
                },
                Step::Done(false) => self.with(IdmacState { faulted: true, ..self.state }).end(
                    EnableOutcome::ResetFailed,
                ),
            },
            EnablePhase::Allocate => match reply.address() {
                Some(bus_addr) => self.with(
                    IdmacState {
                        buffer: Some(DMABuffer { bus_addr, size: self.buf_size }),
                        ..self.state
                    },
                ).at(EnablePhase::RegisterIrq),
                None => self.end(EnableOutcome::AllocationFailed),
            },
            EnablePhase::RegisterIrq => if reply.flag() {
                self.at(EnablePhase::StaleRaw)
            } else {
                self.at(EnablePhase::UndoController(EnableOutcome::IrqRefused))
            },
            EnablePhase::StaleRaw => self.at(EnablePhase::StaleId { rintsts: reply.word() }),
            EnablePhase::StaleId { rintsts } => if EnableIdmac::stale(RIntSts(rintsts)) {
                self.at(EnablePhase::ClearRaw { rintsts, idsts: reply.word() })
            } else {
                self.clear_engine(reply.word())
            },
            EnablePhase::ClearRaw { idsts, .. } => self.clear_engine(idsts),
            EnablePhase::RereadId => if IdSts(reply.word()).any_event() {
                self.at(EnablePhase::ClearId { idsts: reply.word() })
            } else {
                self.at(EnablePhase::BusMode)
            },
            EnablePhase::ClearId { .. } => self.at(EnablePhase::BusMode),
            EnablePhase::BusMode => self.at(EnablePhase::BusModeFence),
            EnablePhase::BusModeFence => self.at(EnablePhase::CheckBusMode),
            EnablePhase::CheckBusMode => {
                let bmod = BMod(reply.word());
                self.at(
                    EnablePhase::BusModeStatus { kept: bmod.de() && bmod.no_skip() && bmod.fb() },
                )
            },
            EnablePhase::BusModeStatus { kept } => if IdSts(reply.word()).abnormal() {
                self.at(EnablePhase::BusModeReport { kept, idsts: reply.word() })
            } else {
                self.connect(kept)
            },
            EnablePhase::BusModeReport { kept, .. } => self.connect(kept),
            EnablePhase::Connect => self.at(EnablePhase::ConnectFence),
            EnablePhase::ConnectFence => self.at(EnablePhase::CheckControl),
            EnablePhase::CheckControl => self.at(
                EnablePhase::CheckEngine {
                    connected: Ctrl(reply.word()).use_internal_dmac() && Ctrl(
                        reply.word(),
                    ).int_enable(),
                },
            ),
            EnablePhase::CheckEngine { connected } => if !connected {
                self.at(EnablePhase::UndoController(EnableOutcome::Control))
            } else if IdSts(reply.word()).abnormal() {
                self.at(EnablePhase::UndoController(EnableOutcome::Abnormal))
            } else {
                self.at(EnablePhase::EngineInterrupts)
            },
            EnablePhase::EngineInterrupts => self.at(EnablePhase::ControllerInterrupts),
            EnablePhase::ControllerInterrupts => self.at(EnablePhase::CheckEngineInterrupts),
            EnablePhase::CheckEngineInterrupts => self.at(
                EnablePhase::CheckControllerInterrupts {
                    engine_interrupts: IdIntEn(reply.word()).all_enabled(),
                },
            ),
            EnablePhase::CheckControllerInterrupts { engine_interrupts } => self.at(
                EnablePhase::FinalLook {
                    engine_interrupts,
                    controller_interrupts: idmac_controller_interrupt_mask_matches(
                        IntMask(reply.word()),
                    ),
                },
            ),
            EnablePhase::FinalLook { engine_interrupts, controller_interrupts } => self.end(
                EnableOutcome::Enabled {
                    engine_interrupts,
                    controller_interrupts,
                    quiet: !IdSts(reply.word()).abnormal(),
                },
            ),
            EnablePhase::UndoController(outcome) => self.at(EnablePhase::UndoEngine(outcome)),
            EnablePhase::UndoEngine(outcome) => self.at(EnablePhase::UndoControl(outcome)),
            EnablePhase::UndoControl(outcome) => self.at(EnablePhase::UndoFence(outcome)),
            EnablePhase::UndoFence(outcome) => self.at(
                EnablePhase::UndoReset { reset: ResetIdmac::new(), outcome },
            ),
            EnablePhase::UndoReset { reset, outcome } => match reset.step(reply) {
                Step::Next(reset) => self.at(EnablePhase::UndoReset { reset, outcome }),
                Step::Done(true) => self.release(outcome),
                Step::Done(false) => self.with(
                    IdmacState { faulted: true, reset_failed: true, ..self.state },
                ).end(outcome),
            },
            EnablePhase::UndoBuffer { outcome, .. } => self.with(
                IdmacState { buffer: None, ..self.state },
            ).end(outcome),
        }
    }
}

impl EnablePhase {
    /// The attempt has not got as far as the transfer buffer.
    pub open spec fn before_buffer(self) -> bool {
        match self {
            EnablePhase::MaskController => true,
            EnablePhase::MaskEngine => true,
            EnablePhase::MaskLine => true,
            EnablePhase::MaskFence => true,
            EnablePhase::Configuration => true,
            EnablePhase::Reset(_) => true,
            EnablePhase::Allocate => true,
            _ => false,
        }
    }

    /// The attempt has failed and is being undone.
    pub open spec fn undoing(self) -> bool {
        match self {
            EnablePhase::UndoController(_) => true,
            EnablePhase::UndoEngine(_) => true,
            EnablePhase::UndoControl(_) => true,
            EnablePhase::UndoFence(_) => true,
            EnablePhase::UndoReset { .. } => true,
            EnablePhase::UndoBuffer { .. } => true,
            _ => false,
        }
    }

    /// What an attempt that is being undone will end with.
    pub open spec fn failure(self) -> Option<EnableOutcome> {
        match self {
            EnablePhase::UndoController(outcome) => Some(outcome),
            EnablePhase::UndoEngine(outcome) => Some(outcome),
            EnablePhase::UndoControl(outcome) => Some(outcome),
            EnablePhase::UndoFence(outcome) => Some(outcome),
            EnablePhase::UndoReset { outcome, .. } => Some(outcome),
            EnablePhase::UndoBuffer { outcome, .. } => Some(outcome),
            _ => None,
        }
    }
}

/// Every interrupt that the attempt enables has its handler: it is registered once
/// the attempt has got beyond that point.
spec fn handled(trace: Seq<(Op, Reply)>, at: Step<EnableIdmac, EnableEnd>) -> bool {
    at matches Step::Next(m) ==> {
        !m.phase.before_buffer() && !(m.phase is RegisterIrq) && !m.phase.undoing()
            ==> crate::trace::handler_registered(trace)
    }
}

proof fn lemma_handled(trace: Seq<(Op, Reply)>, m: EnableIdmac, reply: Reply)
    requires
        handled(trace, Step::Next(m)),
    ensures
        handled(trace.push((m.op(), reply)), m.next(reply)),
        crate::trace::enables_interrupt(m.op()) ==> crate::trace::handler_registered(trace),
{
    assert(trace.push((m.op(), reply)).drop_last() =~= trace);
    assert(0u32 & 0x10 == 0 && 0x4u32 & 0x10 == 0) by (bit_vector);
}

/// Whatever the driver knew before, bringing the engine into service never enables an
/// interrupt before the handler is registered.
pub proof fn law_no_interrupt_before_its_handler(
    buf_size: usize,
    expected: AHBDataWidth,
    state: IdmacState,
    replies: Seq<Reply>,
)
    ensures
        ({
            let done = crate::io::run(
                Step::Next(EnableIdmac::new(buf_size, expected, state)),
                replies,
            );
            done.at matches Step::Next(m) ==> (crate::trace::enables_interrupt(m.op())
                ==> crate::trace::handler_registered(done.trace))
        }),
{
    let start = Step::<EnableIdmac, EnableEnd>::Next(EnableIdmac::new(buf_size, expected, state));
    let inv = |trace: Seq<(Op, Reply)>, at: Step<EnableIdmac, EnableEnd>| handled(trace, at);
    assert forall|trace: Seq<(Op, Reply)>, m: EnableIdmac, reply: Reply|
        inv(trace, Step::Next(m)) implies #[trigger] inv(
        trace.push((m.op(), reply)),
        m.next(reply),
    ) by {
        lemma_handled(trace, m, reply);
    }
    crate::io::lemma_run_invariant(start, replies, inv);
    let done = crate::io::run(start, replies);
    if let Step::Next(m) = done.at {
        lemma_handled(done.trace, m, Reply::Done);
    }
}

/// What holds at every point of the attempt, for a driver that has no buffer yet.
pub open spec fn enable_invariant(
    buf_size: usize,
    state: IdmacState,
    trace: Seq<(Op, Reply)>,
    at: Step<EnableIdmac, EnableEnd>,
) -> bool {
    let held = crate::trace::buffers_held(trace);
    match at {
        Step::Next(m) => {
            &&& m.buf_size == buf_size
            &&& m.state.faulted == state.faulted
            &&& m.state.reset_failed == state.reset_failed
            &&& if m.phase.before_buffer() {
                m.state.buffer is None && held == 0
            } else {
                &&& m.state.buffer matches Some(buffer)
                &&& buffer.size == buf_size
                &&& held == 1
                &&& EnableIdmac::layout_ok(buf_size, m.state.data_width)
            }
            &&& (m.phase is Allocate ==> EnableIdmac::layout_ok(buf_size, m.state.data_width))
            &&& (m.phase.failure() matches Some(outcome) ==> !(outcome is Enabled))
        },
        Step::Done(end) => all_or_nothing(buf_size, state, trace, end),
    }
}

/// The attempt of a driver without a buffer has either succeeded, with a buffer of
/// the wanted size and no new fault, or it holds no buffer, or the engine could not be
/// stopped: then the buffer is kept and the driver is faulted.
pub open spec fn all_or_nothing(
    buf_size: usize,
    state: IdmacState,
    trace: Seq<(Op, Reply)>,
    end: EnableEnd,
) -> bool {
    &&& crate::trace::buffers_held(trace) == (if end.state.buffer is Some {
        1int
    } else {
        0int
    })
    &&& (end.state.buffer matches Some(buffer) ==> buffer.size == buf_size)
    &&& if end.outcome is Enabled {
        &&& end.state.buffer is Some
        &&& end.state.faulted == state.faulted
        &&& end.state.reset_failed == state.reset_failed
    } else if end.state.buffer is Some {
        end.state.faulted && end.state.reset_failed
    } else {
        end.state.reset_failed == state.reset_failed
    }
}

proof fn lemma_enable_step(
    buf_size: usize,
    state: IdmacState,
    trace: Seq<(Op, Reply)>,
    m: EnableIdmac,
    reply: Reply,
)
    requires
        enable_invariant(buf_size, state, trace, Step::Next(m)),
    ensures
        enable_invariant(buf_size, state, trace.push((m.op(), reply)), m.next(reply)),
{
    assert(trace.push((m.op(), reply)).drop_last() =~= trace);
}

/// Bringing the engine into service is all or nothing. When it fails, the transfer
/// buffer has been given back, unless the engine could not be stopped: then the buffer
/// is kept and the driver is faulted for good. When it succeeds, the buffer has the
/// wanted size.
pub proof fn law_enable_is_all_or_nothing(
    buf_size: usize,
    expected: AHBDataWidth,
    state: IdmacState,
    replies: Seq<Reply>,
)
    requires
        state.buffer is None,
    ensures
        ({
            let done = crate::io::run(
                Step::Next(EnableIdmac::new(buf_size, expected, state)),
                replies,
            );
            done.at matches Step::Done(end) ==> all_or_nothing(buf_size, state, done.trace, end)
        }),
{
    let start = Step::<EnableIdmac, EnableEnd>::Next(EnableIdmac::new(buf_size, expected, state));
    let inv = |trace: Seq<(Op, Reply)>, at: Step<EnableIdmac, EnableEnd>|
        enable_invariant(buf_size, state, trace, at);
    assert forall|trace: Seq<(Op, Reply)>, m: EnableIdmac, reply: Reply|
        inv(trace, Step::Next(m)) implies #[trigger] inv(
        trace.push((m.op(), reply)),
        m.next(reply),
    ) by {
        lemma_enable_step(buf_size, state, trace, m, reply);
    }
    crate::io::lemma_run_invariant(start, replies, inv);
}

/// Bringing the engine into service never makes a faulted driver usable again, nor
/// forgets that the engine could not be stopped.
pub proof fn law_enabling_keeps_faults(
    buf_size: usize,
    expected: AHBDataWidth,
    state: IdmacState,
    replies: Seq<Reply>,
)
    ensures
        ({
            let done = crate::io::run(
                Step::Next(EnableIdmac::new(buf_size, expected, state)),
                replies,
            );
            done.at matches Step::Done(end) ==> {
                &&& (state.faulted ==> end.state.faulted)
                &&& (state.reset_failed ==> end.state.reset_failed)
            }
        }),
{
    let start = Step::<EnableIdmac, EnableEnd>::Next(EnableIdmac::new(buf_size, expected, state));
    let inv = |trace: Seq<(Op, Reply)>, at: Step<EnableIdmac, EnableEnd>|
        match at {
            Step::Next(m) => (state.faulted ==> m.state.faulted) && (state.reset_failed
                ==> m.state.reset_failed),
            Step::Done(end) => (state.faulted ==> end.state.faulted) && (state.reset_failed
                ==> end.state.reset_failed),
        };
    crate::io::lemma_run_invariant(start, replies, inv);
}

} // verus!
