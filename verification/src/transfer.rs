//! Block transfers through the internal DMA engine.
//!
//! A transfer publishes a chain of descriptors, submits its command, waits for
//! the terminal events, checks what the controller and the descriptors show, and
//! gives the descriptors back. When anything goes wrong after the descriptors
//! were published, the engine is stopped first. If it cannot be stopped, the
//! descriptors are kept, because the engine may still read them.

use vstd::prelude::*;

use crate::cmd::{DataPhase, Request};
use crate::completion::IdmacStatus;
use crate::dma::{chain_descriptor, descriptor_count, IdmacDes0};
use crate::error::{validate_r1_response, SdMmcError, SdMmcResult};
use crate::io::{Machine, Notice, Op, Reply, Step, Until};
use crate::regs::{BMod, Cmd, Ctrl, IdSts, Reg, Status};
use crate::send::poll;

verus! {

/// Blocks that one DMA transfer moves at most.
pub const MAX_DMA_BLOCKS: usize = 32;

/// Bytes of the transfer buffer.
pub const DMA_BUFFER_SIZE: usize = 16384;

/// Nanoseconds that the engine gets to complete a reset.
pub const RESET_TIMEOUT: u64 = 100_000_000;

/// Nanoseconds that controller and card get to become idle before a transfer.
pub const PRE_SUBMIT_IDLE_SPIN_TIMEOUT: u64 = 100_000;

/// Nanoseconds that the controller gets to take a command.
pub const START_CMD_SPIN_TIMEOUT: u64 = 100_000_000;

/// Nanoseconds that the response may take.
pub const IDMAC_COMMAND_TIMEOUT: u64 = 2_000_000_000;

/// Nanoseconds that the data may take. The controller's own timeouts normally
/// end a transfer earlier.
pub const IDMAC_DATA_WATCHDOG_TIMEOUT: u64 = 5_000_000_000;

/// Where a reset of the engine stands.
#[derive(Clone, Copy, Debug, PartialEq, Eq, Structural)]
pub enum ResetPhase {
    /// Disabling the engine and asking it to reset.
    Engine,
    /// Resetting the DMA interface and disconnecting the engine.
    Interface,
    /// Ordering the register writes.
    Fence,
    /// Taking the time at which the wait begins.
    Clock,
    /// Looking at the engine's reset bit.
    EngineBit {
        /// The deadline.
        deadline: u64,
        /// Not the first look.
        again: bool,
    },
    /// Looking at the interface's reset bit.
    InterfaceBit {
        /// The deadline.
        deadline: u64,
        /// The engine has completed its reset.
        engine_done: bool,
    },
    /// A reset bit is still set; has the deadline passed?
    Deadline {
        /// The deadline.
        deadline: u64,
    },
}

/// Stops the engine; ends with whether the reset was completed in time.
#[derive(Clone, Copy, Debug, PartialEq, Eq, Structural)]
pub struct ResetIdmac {
    /// Where the reset stands.
    pub phase: ResetPhase,
}

impl ResetIdmac {
    /// Begins a reset.
    #[verifier::allow_in_spec]
    pub fn new() -> ResetIdmac
        returns
            (ResetIdmac { phase: ResetPhase::Engine }),
    {
        ResetIdmac { phase: ResetPhase::Engine }
    }

    /// The reset at another point.
    #[verifier::allow_in_spec]
    pub fn at(self, phase: ResetPhase) -> Step<ResetIdmac, bool>
        returns
            Step::<ResetIdmac, bool>::Next(ResetIdmac { phase }),
    {
        Step::Next(ResetIdmac { phase })
    }
}

impl Machine for ResetIdmac {
    type Act = Op;

    type Event = Reply;

    type Out = bool;

    open spec fn op(self) -> Op {
        match self.phase {
            ResetPhase::Engine => Op::Update { reg: Reg::BMod, clear: BMod::DE, set: BMod::SWR },
            ResetPhase::Interface => Op::Update {
                reg: Reg::Ctrl,
                clear: Ctrl::USE_INTERNAL_DMAC,
                set: Ctrl::DMA_RESET,
            },
            ResetPhase::Fence => Op::Fence,
            ResetPhase::Clock => Op::Now,
            ResetPhase::EngineBit { again, .. } => poll(again, Reg::BMod),
            ResetPhase::InterfaceBit { .. } => Op::Read(Reg::Ctrl),
            ResetPhase::Deadline { .. } => Op::Now,
        }
    }

    fn request(&self) -> (op: Op) {
        match self.phase {
            ResetPhase::Engine => Op::Update { reg: Reg::BMod, clear: BMod::DE, set: BMod::SWR },
            ResetPhase::Interface => Op::Update {
                reg: Reg::Ctrl,
                clear: Ctrl::USE_INTERNAL_DMAC,
                set: Ctrl::DMA_RESET,
            },
            ResetPhase::Fence => Op::Fence,
            ResetPhase::Clock => Op::Now,
            ResetPhase::EngineBit { again, .. } => poll(again, Reg::BMod),
            ResetPhase::InterfaceBit { .. } => Op::Read(Reg::Ctrl),
            ResetPhase::Deadline { .. } => Op::Now,
        }
    }

    open spec fn next(self, reply: Reply) -> Step<Self, bool> {
        match self.phase {
            ResetPhase::Engine => self.at(ResetPhase::Interface),
            ResetPhase::Interface => self.at(ResetPhase::Fence),
            ResetPhase::Fence => self.at(ResetPhase::Clock),
            ResetPhase::Clock => self.at(
                ResetPhase::EngineBit {
                    deadline: reply.time().saturating_add(RESET_TIMEOUT),
                    again: false,
                },
            ),
            ResetPhase::EngineBit { deadline, .. } => self.at(
                ResetPhase::InterfaceBit { deadline, engine_done: !BMod(reply.word()).swr() },
            ),
            ResetPhase::InterfaceBit { deadline, engine_done } => if engine_done && !Ctrl(
                reply.word(),
            ).dma_reset() {
                Step::Done(true)
            } else {
                self.at(ResetPhase::Deadline { deadline })
            },
            ResetPhase::Deadline { deadline } => if reply.time() >= deadline {
                Step::Done(false)
            } else {
                self.at(ResetPhase::EngineBit { deadline, again: true })
            },
        }
    }

    fn step(self, reply: Reply) -> (step: Step<Self, bool>) {
        match self.phase {
            ResetPhase::Engine => self.at(ResetPhase::Interface),
            ResetPhase::Interface => self.at(ResetPhase::Fence),
            ResetPhase::Fence => self.at(ResetPhase::Clock),
            ResetPhase::Clock => self.at(
                ResetPhase::EngineBit {
                    deadline: reply.time().saturating_add(RESET_TIMEOUT),
                    again: false,
                },
            ),
            ResetPhase::EngineBit { deadline, .. } => self.at(
                ResetPhase::InterfaceBit { deadline, engine_done: !BMod(reply.word()).swr() },
            ),
            ResetPhase::InterfaceBit { deadline, engine_done } => if engine_done && !Ctrl(
                reply.word(),
            ).dma_reset() {
                Step::Done(true)
            } else {
                self.at(ResetPhase::Deadline { deadline })
            },
            ResetPhase::Deadline { deadline } => if reply.time() >= deadline {
                Step::Done(false)
            } else {
                self.at(ResetPhase::EngineBit { deadline, again: true })
            },
        }
    }
}

/// Where the end of a transfer stands.
#[derive(Clone, Copy, Debug, PartialEq, Eq, Structural)]
pub enum FinishPhase {
    /// Masking the controller's interrupts.
    MaskController,
    /// Masking the engine's interrupts.
    MaskEngine,
    /// Ordering the masks before the reset.
    MaskFence,
    /// Stopping the engine.
    Reset(ResetIdmac),
    /// Reading the controller's status.
    ReadRaw,
    /// Reading the engine's status.
    ReadId {
        /// The controller's status.
        rintsts: u32,
    },
    /// Clearing the controller's status.
    ClearRaw {
        /// The controller's status.
        rintsts: u32,
        /// The engine's status.
        idsts: u32,
    },
    /// Clearing the engine's status.
    ClearId {
        /// The engine's status.
        idsts: u32,
    },
    /// Ordering all accesses before the descriptors go.
    Fence,
    /// Giving the descriptors back.
    Free,
    /// Disconnecting the engine and the interrupt line.
    Disconnect,
    /// Ordering the disconnection.
    DisconnectFence,
}

/// Ends a transfer whose descriptors are published: clears the status and gives
/// the descriptors back. An aborted transfer has the engine stopped before; if
/// that fails, the descriptors are kept and the outcome is `RecoveryFailed`.
#[derive(Clone, Copy, Debug, PartialEq, Eq, Structural)]
pub struct FinishTransfer {
    /// The transfer is aborted.
    pub abort: bool,
    /// The engine could not be stopped.
    pub stuck: bool,
    /// Where the end stands.
    pub phase: FinishPhase,
}

impl FinishTransfer {
    /// Begins the end of a transfer.
    #[verifier::allow_in_spec]
    pub fn new(abort: bool) -> FinishTransfer
        returns
            (FinishTransfer {
                abort,
                stuck: false,
                phase: if abort {
                    FinishPhase::MaskController
                } else {
                    FinishPhase::ReadRaw
                },
            }),
    {
        FinishTransfer {
            abort,
            stuck: false,
            phase: if abort {
                FinishPhase::MaskController
            } else {
                FinishPhase::ReadRaw
            },
        }
    }

    /// The same end at another point.
    #[verifier::allow_in_spec]
    pub fn at(self, phase: FinishPhase) -> Step<FinishTransfer, SdMmcResult>
        returns
            Step::<FinishTransfer, SdMmcResult>::Next(FinishTransfer { phase, ..self }),
    {
        Step::Next(FinishTransfer { phase, ..self })
    }
}

impl Machine for FinishTransfer {
    type Act = Op;

    type Event = Reply;

    type Out = SdMmcResult;

    open spec fn op(self) -> Op {
        match self.phase {
            FinishPhase::MaskController => Op::Write(Reg::IntMask, 0),
            FinishPhase::MaskEngine => Op::Write(Reg::IdIntEn, 0),
            FinishPhase::MaskFence => Op::Fence,
            FinishPhase::Reset(reset) => reset.op(),
            FinishPhase::ReadRaw => Op::Read(Reg::RIntSts),
            FinishPhase::ReadId { .. } => Op::Read(Reg::IdSts),
            FinishPhase::ClearRaw { rintsts, .. } => Op::Write(Reg::RIntSts, rintsts),
            FinishPhase::ClearId { idsts } => Op::Write(Reg::IdSts, idsts),
            FinishPhase::Fence => Op::Fence,
            FinishPhase::Free => Op::FreeDescriptors,
            FinishPhase::Disconnect => Op::Update {
                reg: Reg::Ctrl,
                clear: Ctrl::USE_INTERNAL_DMAC | Ctrl::INT_ENABLE,
                set: 0,
            },
            FinishPhase::DisconnectFence => Op::Fence,
        }
    }

    fn request(&self) -> (op: Op) {
        match self.phase {
            FinishPhase::MaskController => Op::Write(Reg::IntMask, 0),
            FinishPhase::MaskEngine => Op::Write(Reg::IdIntEn, 0),
            FinishPhase::MaskFence => Op::Fence,
            FinishPhase::Reset(reset) => reset.request(),
            FinishPhase::ReadRaw => Op::Read(Reg::RIntSts),
            FinishPhase::ReadId { .. } => Op::Read(Reg::IdSts),
            FinishPhase::ClearRaw { rintsts, .. } => Op::Write(Reg::RIntSts, rintsts),
            FinishPhase::ClearId { idsts } => Op::Write(Reg::IdSts, idsts),
            FinishPhase::Fence => Op::Fence,
            FinishPhase::Free => Op::FreeDescriptors,
            FinishPhase::Disconnect => Op::Update {
                reg: Reg::Ctrl,
                clear: Ctrl::USE_INTERNAL_DMAC | Ctrl::INT_ENABLE,
                set: 0,
            },
            FinishPhase::DisconnectFence => Op::Fence,
        }
    }

    open spec fn next(self, reply: Reply) -> Step<Self, SdMmcResult> {
        match self.phase {
            FinishPhase::MaskController => self.at(FinishPhase::MaskEngine),
            FinishPhase::MaskEngine => self.at(FinishPhase::MaskFence),
            FinishPhase::MaskFence => self.at(FinishPhase::Reset(ResetIdmac::new())),
            FinishPhase::Reset(reset) => match reset.next(reply) {
                Step::Next(reset) => self.at(FinishPhase::Reset(reset)),
                Step::Done(stopped) => FinishTransfer { stuck: !stopped, ..self }.at(
                    FinishPhase::ReadRaw,
                ),
            },
            FinishPhase::ReadRaw => self.at(FinishPhase::ReadId { rintsts: reply.word() }),
            FinishPhase::ReadId { rintsts } => self.at(
                FinishPhase::ClearRaw { rintsts, idsts: reply.word() },
            ),
            FinishPhase::ClearRaw { idsts, .. } => self.at(FinishPhase::ClearId { idsts }),
            FinishPhase::ClearId { .. } => if self.stuck {
                Step::Done(Err(SdMmcError::RecoveryFailed))
            } else {
                self.at(FinishPhase::Fence)
            },
            FinishPhase::Fence => self.at(FinishPhase::Free),
            FinishPhase::Free => if self.abort {
                self.at(FinishPhase::Disconnect)
            } else {
                Step::Done(Ok(()))
            },
            FinishPhase::Disconnect => self.at(FinishPhase::DisconnectFence),
            FinishPhase::DisconnectFence => Step::Done(Ok(())),
        }
    }

    fn step(self, reply: Reply) -> (step: Step<Self, SdMmcResult>) {
        match self.phase {
            FinishPhase::MaskController => self.at(FinishPhase::MaskEngine),
            FinishPhase::MaskEngine => self.at(FinishPhase::MaskFence),
            FinishPhase::MaskFence => self.at(FinishPhase::Reset(ResetIdmac::new())),
            FinishPhase::Reset(reset) => match reset.step(reply) {
                Step::Next(reset) => self.at(FinishPhase::Reset(reset)),
                Step::Done(stopped) => FinishTransfer { stuck: !stopped, ..self }.at(
                    FinishPhase::ReadRaw,
                ),
            },
            FinishPhase::ReadRaw => self.at(FinishPhase::ReadId { rintsts: reply.word() }),
            FinishPhase::ReadId { rintsts } => self.at(
                FinishPhase::ClearRaw { rintsts, idsts: reply.word() },
            ),
            FinishPhase::ClearRaw { idsts, .. } => self.at(FinishPhase::ClearId { idsts }),
            FinishPhase::ClearId { .. } => if self.stuck {
                Step::Done(Err(SdMmcError::RecoveryFailed))
            } else {
                self.at(FinishPhase::Fence)
            },
            FinishPhase::Fence => self.at(FinishPhase::Free),
            FinishPhase::Free => if self.abort {
                self.at(FinishPhase::Disconnect)
            } else {
                Step::Done(Ok(()))
            },
            FinishPhase::Disconnect => self.at(FinishPhase::DisconnectFence),
            FinishPhase::DisconnectFence => Step::Done(Ok(())),
        }
    }
}

/// A transfer whose descriptors are published.
#[derive(Clone, Copy, Debug, PartialEq, Eq, Structural)]
pub struct IdmacTransferContext {
    /// Command word.
    pub cmd: Cmd,
    /// Argument of the command.
    pub arg: u32,
    /// The response is a card status.
    pub expects_r1: bool,
    /// Generation of the transfer; 0 until it is submitted.
    pub generation: usize,
    /// Bus address of the first descriptor.
    pub descriptors: u32,
    /// Number of descriptors.
    pub descriptor_count: usize,
}

/// What the preparation of a transfer ends with.
#[derive(Clone, Copy, Debug, PartialEq, Eq, Structural)]
pub enum Prepared {
    /// The descriptors are published.
    Ready(IdmacTransferContext),
    /// Nothing is published.
    Refused(SdMmcError),
    /// The controller did not retain what was published.
    Abort(SdMmcError),
}

/// Where the preparation of a transfer stands.
#[derive(Clone, Copy, Debug, PartialEq, Eq, Structural)]
pub enum PreparePhase {
    /// Taking the time at which the wait for idleness begins.
    IdleClock,
    /// Looking at the command register.
    IdleCommand {
        /// The deadline.
        deadline: u64,
        /// Not the first look.
        again: bool,
    },
    /// Looking at the data path.
    IdleData {
        /// The deadline.
        deadline: u64,
        /// The controller takes commands.
        command_idle: bool,
    },
    /// Something is busy; has the deadline passed?
    IdleDeadline {
        /// The deadline.
        deadline: u64,
        /// The controller takes commands.
        command_idle: bool,
    },
    /// Clearing the controller's status.
    ClearRaw,
    /// Looking for stale engine events.
    StaleId,
    /// Reading them once more.
    RereadId,
    /// Clearing them.
    ClearId {
        /// The events.
        idsts: u32,
    },
    /// Lowering the interrupt handler's flags.
    ClearFlags,
    /// Allocating the descriptors.
    Allocate,
    /// Giving unusable descriptors back.
    Release,
    /// Storing a descriptor.
    Store {
        /// Its position.
        index: usize,
        /// Bus address of the first descriptor.
        descriptors: u32,
    },
    /// Ordering the descriptors before the registers.
    StoreFence {
        /// Bus address of the first descriptor.
        descriptors: u32,
    },
    /// Writing the byte count.
    ByteCount {
        /// Bus address of the first descriptor.
        descriptors: u32,
    },
    /// Writing the address of the chain.
    ChainAddress {
        /// Bus address of the first descriptor.
        descriptors: u32,
    },
    /// Ordering the registers.
    PublishFence {
        /// Bus address of the first descriptor.
        descriptors: u32,
    },
    /// Reading the address back.
    CheckAddress {
        /// Bus address of the first descriptor.
        descriptors: u32,
    },
    /// Reading the byte count back.
    CheckByteCount {
        /// Bus address of the first descriptor.
        descriptors: u32,
        /// The address was retained.
        address_kept: bool,
    },
    /// Counting the descriptors that belong to the engine.
    CountOwned {
        /// Bus address of the first descriptor.
        descriptors: u32,
        /// Address and byte count were retained.
        registers_kept: bool,
        /// Descriptor to look at.
        index: usize,
        /// Descriptors of the engine so far.
        owned: usize,
    },
}

/// Prepares a transfer: waits for idleness, clears stale status, builds and
/// publishes the descriptors, and checks that the publication took effect.
#[derive(Clone, Copy, Debug, PartialEq, Eq, Structural)]
pub struct Prepare {
    /// The command.
    pub request: Request,
    /// Bytes of its data phase.
    pub len: usize,
    /// Bus address of the transfer buffer.
    pub buffer: u32,
    /// Where the preparation stands.
    pub phase: PreparePhase,
}

impl Prepare {
    /// Begins the preparation of a transfer. A faulted driver accepts no
    /// transfer, and a command without data is no transfer.
    #[verifier::allow_in_spec]
    pub fn start(faulted: bool, request: Request, buffer: u32) -> Step<Prepare, Prepared>
        returns
            (if faulted {
                Step::<Prepare, Prepared>::Done(Prepared::Refused(SdMmcError::DriverFaulted))
            } else if !request.kind.build_word().data_expected() {
                Step::Done(Prepared::Refused(SdMmcError::InvalidParameter))
            } else {
                match request.data {
                    DataPhase::Nothing => Step::Done(
                        Prepared::Refused(SdMmcError::InvalidParameter),
                    ),
                    DataPhase::Read(len) => Step::Next(
                        Prepare { request, len, buffer, phase: PreparePhase::IdleClock },
                    ),
                    DataPhase::Write(len) => Step::Next(
                        Prepare { request, len, buffer, phase: PreparePhase::IdleClock },
                    ),
                }
            }),
    {
        if faulted {
            Step::Done(Prepared::Refused(SdMmcError::DriverFaulted))
        } else if !request.kind.build_word().data_expected() {
            Step::Done(Prepared::Refused(SdMmcError::InvalidParameter))
        } else {
            match request.data {
                DataPhase::Nothing => Step::Done(Prepared::Refused(SdMmcError::InvalidParameter)),
                DataPhase::Read(len) => Step::Next(
                    Prepare { request, len, buffer, phase: PreparePhase::IdleClock },
                ),
                DataPhase::Write(len) => Step::Next(
                    Prepare { request, len, buffer, phase: PreparePhase::IdleClock },
                ),
            }
        }
    }

    /// The same preparation at another point.
    #[verifier::allow_in_spec]
    pub fn at(self, phase: PreparePhase) -> Step<Prepare, Prepared>
        returns
            Step::<Prepare, Prepared>::Next(Prepare { phase, ..self }),
    {
        Step::Next(Prepare { phase, ..self })
    }

    /// The preparation ends before anything is published.
    #[verifier::allow_in_spec]
    pub fn refuse(self, error: SdMmcError) -> Step<Prepare, Prepared>
        returns
            Step::<Prepare, Prepared>::Done(Prepared::Refused(error)),
    {
        Step::Done(Prepared::Refused(error))
    }

    /// The transfer as published.
    #[verifier::allow_in_spec]
    pub fn context(self, descriptors: u32) -> IdmacTransferContext
        returns
            (IdmacTransferContext {
                cmd: self.request.kind.build_word(),
                arg: self.request.arg,
                expects_r1: self.request.kind.has_r1_response(),
                generation: 0,
                descriptors,
                descriptor_count: descriptor_count(self.len),
            }),
    {
        IdmacTransferContext {
            cmd: self.request.kind.build_word(),
            arg: self.request.arg,
            expects_r1: self.request.kind.has_r1_response(),
            generation: 0,
            descriptors,
            descriptor_count: descriptor_count(self.len),
        }
    }

    /// The buffer is neither empty nor larger than the transfer buffer, and its
    /// last byte can be addressed with 32 bits.
    #[verifier::allow_in_spec]
    pub fn buffer_check(self) -> SdMmcResult
        returns
            (if self.len == 0 || self.len > DMA_BUFFER_SIZE {
                Err::<(), SdMmcError>(SdMmcError::InvalidParameter)
            } else if self.len - 1 > u32::MAX - self.buffer {
                Err(SdMmcError::DmaAddress)
            } else {
                Ok(())
            }),
    {
        if self.len == 0 || self.len > DMA_BUFFER_SIZE {
            Err(SdMmcError::InvalidParameter)
        } else if (self.len - 1) as u32 > u32::MAX - self.buffer {
            Err(SdMmcError::DmaAddress)
        } else {
            Ok(())
        }
    }

    /// Bytes from the first descriptor to the last one.
    #[verifier::allow_in_spec]
    pub fn last_descriptor_offset(self) -> u64
        returns
            (if self.len == 0 {
                0u64
            } else {
                (((self.len - 1) / 4096) * 16) as u64
            }),
    {
        if self.len == 0 {
            0
        } else {
            assert((self.len - 1) / 4096 * 16 <= u64::MAX);
            ((self.len - 1) / 4096) as u64 * 16
        }
    }

    /// The chain can be published at this bus address.
    #[verifier::allow_in_spec]
    pub fn usable(self, address: u64) -> bool
        returns
            address <= u32::MAX && self.last_descriptor_offset() <= u32::MAX - address,
    {
        address <= u32::MAX as u64 && self.last_descriptor_offset() <= u32::MAX as u64 - address
    }

    /// Point after a descriptor was stored.
    #[verifier::allow_in_spec]
    pub fn store_from(self, index: usize, descriptors: u32) -> PreparePhase
        returns
            (if index < descriptor_count(self.len) {
                PreparePhase::Store { index, descriptors }
            } else {
                PreparePhase::StoreFence { descriptors }
            }),
    {
        if index < descriptor_count(self.len) {
            PreparePhase::Store { index, descriptors }
        } else {
            PreparePhase::StoreFence { descriptors }
        }
    }
}

impl Machine for Prepare {
    type Act = Op;

    type Event = Reply;

    type Out = Prepared;

    open spec fn op(self) -> Op {
        match self.phase {
            PreparePhase::IdleClock => Op::Now,
            PreparePhase::IdleCommand { again, .. } => poll(again, Reg::Cmd),
            PreparePhase::IdleData { .. } => Op::Read(Reg::Status),
            PreparePhase::IdleDeadline { .. } => Op::Now,
            PreparePhase::ClearRaw => Op::Acknowledge(Reg::RIntSts),
            PreparePhase::StaleId => Op::Read(Reg::IdSts),
            PreparePhase::RereadId => Op::Read(Reg::IdSts),
            PreparePhase::ClearId { idsts } => Op::Write(Reg::IdSts, idsts),
            PreparePhase::ClearFlags => Op::ClearFlags,
            PreparePhase::Allocate => Op::AllocDescriptors(descriptor_count(self.len)),
            PreparePhase::Release => Op::FreeDescriptors,
            PreparePhase::Store { index, descriptors } => Op::StoreDescriptor(
                index,
                chain_descriptor(index, self.len, self.buffer, descriptors),
            ),
            PreparePhase::StoreFence { .. } => Op::Fence,
            PreparePhase::ByteCount { .. } => Op::Write(Reg::BytCnt, self.len as u32),
            PreparePhase::ChainAddress { descriptors } => Op::Write(Reg::DbAddr, descriptors),
            PreparePhase::PublishFence { .. } => Op::Fence,
            PreparePhase::CheckAddress { .. } => Op::Read(Reg::DbAddr),
            PreparePhase::CheckByteCount { .. } => Op::Read(Reg::BytCnt),
            PreparePhase::CountOwned { index, .. } => Op::LoadDes0(index),
        }
    }

    fn request(&self) -> (op: Op) {
        match self.phase {
            PreparePhase::IdleClock => Op::Now,
            PreparePhase::IdleCommand { again, .. } => poll(again, Reg::Cmd),
            PreparePhase::IdleData { .. } => Op::Read(Reg::Status),
            PreparePhase::IdleDeadline { .. } => Op::Now,
            PreparePhase::ClearRaw => Op::Acknowledge(Reg::RIntSts),
            PreparePhase::StaleId => Op::Read(Reg::IdSts),
            PreparePhase::RereadId => Op::Read(Reg::IdSts),
            PreparePhase::ClearId { idsts } => Op::Write(Reg::IdSts, idsts),
            PreparePhase::ClearFlags => Op::ClearFlags,
            PreparePhase::Allocate => Op::AllocDescriptors(descriptor_count(self.len)),
            PreparePhase::Release => Op::FreeDescriptors,
            PreparePhase::Store { index, descriptors } => Op::StoreDescriptor(
                index,
                chain_descriptor(index, self.len, self.buffer, descriptors),
            ),
            PreparePhase::StoreFence { .. } => Op::Fence,
            PreparePhase::ByteCount { .. } => Op::Write(Reg::BytCnt, self.len as u32),
            PreparePhase::ChainAddress { descriptors } => Op::Write(Reg::DbAddr, descriptors),
            PreparePhase::PublishFence { .. } => Op::Fence,
            PreparePhase::CheckAddress { .. } => Op::Read(Reg::DbAddr),
            PreparePhase::CheckByteCount { .. } => Op::Read(Reg::BytCnt),
            PreparePhase::CountOwned { index, .. } => Op::LoadDes0(index),
        }
    }

    open spec fn next(self, reply: Reply) -> Step<Self, Prepared> {
        match self.phase {
            PreparePhase::IdleClock => self.at(
                PreparePhase::IdleCommand {
                    deadline: reply.time().saturating_add(PRE_SUBMIT_IDLE_SPIN_TIMEOUT),
                    again: false,
                },
            ),
            PreparePhase::IdleCommand { deadline, .. } => self.at(
                PreparePhase::IdleData { deadline, command_idle: !Cmd(reply.word()).start_cmd() },
            ),
            PreparePhase::IdleData { deadline, command_idle } => if command_idle && Status(
                reply.word(),
            ).can_send_data() {
                self.at(PreparePhase::ClearRaw)
            } else {
                self.at(PreparePhase::IdleDeadline { deadline, command_idle })
            },
            PreparePhase::IdleDeadline { deadline, command_idle } => if reply.time() >= deadline {
                self.refuse(
                    if command_idle {
                        SdMmcError::DataBusy
                    } else {
                        SdMmcError::CommandBusy
                    },
                )
            } else {
                self.at(PreparePhase::IdleCommand { deadline, again: true })
            },
            PreparePhase::ClearRaw => self.at(PreparePhase::StaleId),
            PreparePhase::StaleId => if IdSts(reply.word()).any_event() {
                self.at(PreparePhase::RereadId)
            } else {
                self.at(PreparePhase::ClearFlags)
            },
            PreparePhase::RereadId => if IdSts(reply.word()).any_event() {
                self.at(PreparePhase::ClearId { idsts: reply.word() })
            } else {
                self.at(PreparePhase::ClearFlags)
            },
            PreparePhase::ClearId { .. } => self.at(PreparePhase::ClearFlags),
            PreparePhase::ClearFlags => match self.buffer_check() {
                Ok(_) => self.at(PreparePhase::Allocate),
                Err(error) => self.refuse(error),
            },
            PreparePhase::Allocate => match reply.address() {
                None => self.refuse(SdMmcError::DmaAllocation),
                Some(address) => if self.usable(address) {
                    self.at(self.store_from(0, address as u32))
                } else {
                    self.at(PreparePhase::Release)
                },
            },
            PreparePhase::Release => self.refuse(SdMmcError::DmaAddress),
            PreparePhase::Store { index, descriptors } => self.at(
                self.store_from(index.saturating_add(1), descriptors),
            ),
            PreparePhase::StoreFence { descriptors } => self.at(
                PreparePhase::ByteCount { descriptors },
            ),
            PreparePhase::ByteCount { descriptors } => self.at(
                PreparePhase::ChainAddress { descriptors },
            ),
            PreparePhase::ChainAddress { descriptors } => self.at(
                PreparePhase::PublishFence { descriptors },
            ),
            PreparePhase::PublishFence { descriptors } => self.at(
                PreparePhase::CheckAddress { descriptors },
            ),
            PreparePhase::CheckAddress { descriptors } => self.at(
                PreparePhase::CheckByteCount {
                    descriptors,
                    address_kept: reply.word() == descriptors,
                },
            ),
            PreparePhase::CheckByteCount { descriptors, address_kept } => self.at(
                PreparePhase::CountOwned {
                    descriptors,
                    registers_kept: address_kept && reply.word() == self.len as u32,
                    index: 0,
                    owned: 0,
                },
            ),
            PreparePhase::CountOwned { descriptors, registers_kept, index, owned } => {
                let count: usize = if IdmacDes0(reply.word()).own() {
                    owned.saturating_add(1)
                } else {
                    owned
                };
                let following: usize = index.saturating_add(1);
                if following < descriptor_count(self.len) {
                    self.at(
                        PreparePhase::CountOwned {
                            descriptors,
                            registers_kept,
                            index: following,
                            owned: count,
                        },
                    )
                } else if registers_kept && count == descriptor_count(self.len) {
                    Step::Done(Prepared::Ready(self.context(descriptors)))
                } else {
                    Step::Done(Prepared::Abort(SdMmcError::DescriptorPublication))
                }
            },
        }
    }

    fn step(self, reply: Reply) -> (step: Step<Self, Prepared>) {
        match self.phase {
            PreparePhase::IdleClock => self.at(
                PreparePhase::IdleCommand {
                    deadline: reply.time().saturating_add(PRE_SUBMIT_IDLE_SPIN_TIMEOUT),
                    again: false,
                },
            ),
            PreparePhase::IdleCommand { deadline, .. } => self.at(
                PreparePhase::IdleData { deadline, command_idle: !Cmd(reply.word()).start_cmd() },
            ),
            PreparePhase::IdleData { deadline, command_idle } => if command_idle && Status(
                reply.word(),
            ).can_send_data() {
                self.at(PreparePhase::ClearRaw)
            } else {
                self.at(PreparePhase::IdleDeadline { deadline, command_idle })
            },
            PreparePhase::IdleDeadline { deadline, command_idle } => if reply.time() >= deadline {
                self.refuse(
                    if command_idle {
                        SdMmcError::DataBusy
                    } else {
                        SdMmcError::CommandBusy
                    },
                )
            } else {
                self.at(PreparePhase::IdleCommand { deadline, again: true })
            },
            PreparePhase::ClearRaw => self.at(PreparePhase::StaleId),
            PreparePhase::StaleId => if IdSts(reply.word()).any_event() {
                self.at(PreparePhase::RereadId)
            } else {
                self.at(PreparePhase::ClearFlags)
            },
            PreparePhase::RereadId => if IdSts(reply.word()).any_event() {
                self.at(PreparePhase::ClearId { idsts: reply.word() })
            } else {
                self.at(PreparePhase::ClearFlags)
            },
            PreparePhase::ClearId { .. } => self.at(PreparePhase::ClearFlags),
            PreparePhase::ClearFlags => match self.buffer_check() {
                Ok(_) => self.at(PreparePhase::Allocate),
                Err(error) => self.refuse(error),
            },
            PreparePhase::Allocate => match reply.address() {
                None => self.refuse(SdMmcError::DmaAllocation),
                Some(address) => if self.usable(address) {
                    self.at(self.store_from(0, address as u32))
                } else {
                    self.at(PreparePhase::Release)
                },
            },
            PreparePhase::Release => self.refuse(SdMmcError::DmaAddress),
            PreparePhase::Store { index, descriptors } => self.at(
                self.store_from(index.saturating_add(1), descriptors),
            ),
            PreparePhase::StoreFence { descriptors } => self.at(
                PreparePhase::ByteCount { descriptors },
            ),
            PreparePhase::ByteCount { descriptors } => self.at(
                PreparePhase::ChainAddress { descriptors },
            ),
            PreparePhase::ChainAddress { descriptors } => self.at(
                PreparePhase::PublishFence { descriptors },
            ),
            PreparePhase::PublishFence { descriptors } => self.at(
                PreparePhase::CheckAddress { descriptors },
            ),
            PreparePhase::CheckAddress { descriptors } => self.at(
                PreparePhase::CheckByteCount {
                    descriptors,
                    address_kept: reply.word() == descriptors,
                },
            ),
            PreparePhase::CheckByteCount { descriptors, address_kept } => self.at(
                PreparePhase::CountOwned {
                    descriptors,
                    registers_kept: address_kept && reply.word() == self.len as u32,
                    index: 0,
                    owned: 0,
                },
            ),
            PreparePhase::CountOwned { descriptors, registers_kept, index, owned } => {
                let count: usize = if IdmacDes0(reply.word()).own() {
                    owned.saturating_add(1)
                } else {
                    owned
                };
                let following: usize = index.saturating_add(1);
                if following < descriptor_count(self.len) {
                    self.at(
                        PreparePhase::CountOwned {
                            descriptors,
                            registers_kept,
                            index: following,
                            owned: count,
                        },
                    )
                } else if registers_kept && count == descriptor_count(self.len) {
                    Step::Done(Prepared::Ready(self.context(descriptors)))
                } else {
                    Step::Done(Prepared::Abort(SdMmcError::DescriptorPublication))
                }
            },
        }
    }
}

/// What the submission of a transfer ends with.
#[derive(Clone, Copy, Debug, PartialEq, Eq, Structural)]
pub enum Started {
    /// The engine is at work.
    Running(IdmacTransferContext),
    /// The submission failed.
    Abort(SdMmcError),
}

/// Where the submission of a transfer stands.
#[derive(Clone, Copy, Debug, PartialEq, Eq, Structural)]
pub enum StartPhase {
    /// Starting a new generation.
    Begin,
    /// Writing the argument.
    WriteArg,
    /// Ordering argument and command.
    ArgFence,
    /// Writing the command.
    WriteCmd,
    /// Ordering command and polls.
    CmdFence,
    /// Taking the time at which the wait begins.
    AcceptClock,
    /// Waiting for the controller to take the command.
    Accept {
        /// The deadline.
        deadline: u64,
        /// Not the first look.
        again: bool,
    },
    /// The command is still waiting; has the deadline passed?
    AcceptDeadline {
        /// The deadline.
        deadline: u64,
    },
    /// Looking whether the engine found its descriptor.
    Engine,
    /// The engine is suspended; reading its status again.
    RereadId,
    /// Clearing its status.
    ClearId {
        /// The status.
        idsts: u32,
    },
    /// Asking it to resume.
    Resume,
    /// Ordering the resumption.
    ResumeFence,
    /// Looking at the engine once more.
    EngineCheck,
    /// The engine is at work; looking at its state, to report it.
    State,
    /// Looking who owns a descriptor.
    Owned {
        /// State of the engine.
        fsm: u32,
        /// Position of the descriptor.
        index: usize,
        /// An earlier descriptor belongs to the engine.
        desc_own: bool,
    },
    /// Looking at the address of the chain.
    Address {
        /// State of the engine.
        fsm: u32,
        /// A descriptor belongs to the engine.
        desc_own: bool,
    },
    /// Reporting the start.
    Announce {
        /// State of the engine.
        fsm: u32,
        /// A descriptor belongs to the engine.
        desc_own: bool,
        /// Address of the chain.
        dbaddr: u32,
    },
}

/// Submits a prepared transfer and makes sure that the engine is at work.
#[derive(Clone, Copy, Debug, PartialEq, Eq, Structural)]
pub struct StartTransfer {
    /// The transfer.
    pub context: IdmacTransferContext,
    /// Where the submission stands.
    pub phase: StartPhase,
}

impl StartTransfer {
    /// Begins the submission.
    #[verifier::allow_in_spec]
    pub fn new(context: IdmacTransferContext) -> StartTransfer
        returns
            (StartTransfer { context, phase: StartPhase::Begin }),
    {
        StartTransfer { context, phase: StartPhase::Begin }
    }

    /// The same submission at another point.
    #[verifier::allow_in_spec]
    pub fn at(self, phase: StartPhase) -> Step<StartTransfer, Started>
        returns
            Step::<StartTransfer, Started>::Next(StartTransfer { phase, ..self }),
    {
        Step::Next(StartTransfer { phase, ..self })
    }
}

impl Machine for StartTransfer {
    type Act = Op;

    type Event = Reply;

    type Out = Started;

    open spec fn op(self) -> Op {
        match self.phase {
            StartPhase::Begin => Op::BeginTransfer,
            StartPhase::WriteArg => Op::Write(Reg::CmdArg, self.context.arg),
            StartPhase::ArgFence => Op::Fence,
            StartPhase::WriteCmd => Op::Write(Reg::Cmd, self.context.cmd.0),
            StartPhase::CmdFence => Op::Fence,
            StartPhase::AcceptClock => Op::Now,
            StartPhase::Accept { again, .. } => poll(again, Reg::Cmd),
            StartPhase::AcceptDeadline { .. } => Op::Now,
            StartPhase::Engine => Op::Read(Reg::IdSts),
            StartPhase::RereadId => Op::Read(Reg::IdSts),
            StartPhase::ClearId { idsts } => Op::Write(Reg::IdSts, idsts),
            StartPhase::Resume => Op::Write(Reg::PldMnd, 1),
            StartPhase::ResumeFence => Op::Fence,
            StartPhase::EngineCheck => Op::Read(Reg::IdSts),
            StartPhase::State => Op::Peek(Reg::IdSts),
            StartPhase::Owned { index, .. } => Op::PeekDes0(index),
            StartPhase::Address { .. } => Op::Peek(Reg::DbAddr),
            StartPhase::Announce { fsm, desc_own, dbaddr } => Op::Report(
                Notice::Started { cmd: self.context.cmd, fsm, desc_own, dbaddr },
            ),
        }
    }

    fn request(&self) -> (op: Op) {
        match self.phase {
            StartPhase::Begin => Op::BeginTransfer,
            StartPhase::WriteArg => Op::Write(Reg::CmdArg, self.context.arg),
            StartPhase::ArgFence => Op::Fence,
            StartPhase::WriteCmd => Op::Write(Reg::Cmd, self.context.cmd.0),
            StartPhase::CmdFence => Op::Fence,
            StartPhase::AcceptClock => Op::Now,
            StartPhase::Accept { again, .. } => poll(again, Reg::Cmd),
            StartPhase::AcceptDeadline { .. } => Op::Now,
            StartPhase::Engine => Op::Read(Reg::IdSts),
            StartPhase::RereadId => Op::Read(Reg::IdSts),
            StartPhase::ClearId { idsts } => Op::Write(Reg::IdSts, idsts),
            StartPhase::Resume => Op::Write(Reg::PldMnd, 1),
            StartPhase::ResumeFence => Op::Fence,
            StartPhase::EngineCheck => Op::Read(Reg::IdSts),
            StartPhase::State => Op::Peek(Reg::IdSts),
            StartPhase::Owned { index, .. } => Op::PeekDes0(index),
            StartPhase::Address { .. } => Op::Peek(Reg::DbAddr),
            StartPhase::Announce { fsm, desc_own, dbaddr } => Op::Report(
                Notice::Started { cmd: self.context.cmd, fsm, desc_own, dbaddr },
            ),
        }
    }

    open spec fn next(self, reply: Reply) -> Step<Self, Started> {
        match self.phase {
            StartPhase::Begin => Step::Next(
                StartTransfer {
                    context: IdmacTransferContext {
                        generation: reply.generation(),
                        ..self.context
                    },
                    phase: StartPhase::WriteArg,
                },
            ),
            StartPhase::WriteArg => self.at(StartPhase::ArgFence),
            StartPhase::ArgFence => self.at(StartPhase::WriteCmd),
            StartPhase::WriteCmd => self.at(StartPhase::CmdFence),
            StartPhase::CmdFence => self.at(StartPhase::AcceptClock),
            StartPhase::AcceptClock => self.at(
                StartPhase::Accept {
                    deadline: reply.time().saturating_add(START_CMD_SPIN_TIMEOUT),
                    again: false,
                },
            ),
            StartPhase::Accept { deadline, .. } => if Cmd(reply.word()).start_cmd() {
                self.at(StartPhase::AcceptDeadline { deadline })
            } else {
                self.at(StartPhase::Engine)
            },
            StartPhase::AcceptDeadline { deadline } => if reply.time() >= deadline {
                Step::Done(Started::Abort(SdMmcError::CommandStartTimeout))
            } else {
                self.at(StartPhase::Accept { deadline, again: true })
            },
            StartPhase::Engine => if IdSts(reply.word()).du() {
                self.at(StartPhase::RereadId)
            } else {
                self.at(StartPhase::EngineCheck)
            },
            StartPhase::RereadId => if IdSts(reply.word()).any_event() {
                self.at(StartPhase::ClearId { idsts: reply.word() })
            } else {
                self.at(StartPhase::Resume)
            },
            StartPhase::ClearId { .. } => self.at(StartPhase::Resume),
            StartPhase::Resume => self.at(StartPhase::ResumeFence),
            StartPhase::ResumeFence => self.at(StartPhase::EngineCheck),
            StartPhase::EngineCheck => if IdSts(reply.word()).abnormal() {
                Step::Done(Started::Abort(SdMmcError::Hardware))
            } else {
                self.at(StartPhase::State)
            },
            StartPhase::State => if self.context.descriptor_count == 0 {
                self.at(
                    StartPhase::Address { fsm: IdSts(reply.word()).fsm(), desc_own: false },
                )
            } else {
                self.at(
                    StartPhase::Owned {
                        fsm: IdSts(reply.word()).fsm(),
                        index: 0,
                        desc_own: false,
                    },
                )
            },
            StartPhase::Owned { fsm, index, desc_own } => {
                let following: usize = index.saturating_add(1);
                let owned = desc_own || IdmacDes0(reply.word()).own();
                if following < self.context.descriptor_count {
                    self.at(StartPhase::Owned { fsm, index: following, desc_own: owned })
                } else {
                    self.at(StartPhase::Address { fsm, desc_own: owned })
                }
            },
            StartPhase::Address { fsm, desc_own } => self.at(
                StartPhase::Announce { fsm, desc_own, dbaddr: reply.word() },
            ),
            StartPhase::Announce { .. } => Step::Done(Started::Running(self.context)),
        }
    }

    fn step(self, reply: Reply) -> (step: Step<Self, Started>) {
        match self.phase {
            StartPhase::Begin => Step::Next(
                StartTransfer {
                    context: IdmacTransferContext {
                        generation: reply.generation(),
                        ..self.context
                    },
                    phase: StartPhase::WriteArg,
                },
            ),
            StartPhase::WriteArg => self.at(StartPhase::ArgFence),
            StartPhase::ArgFence => self.at(StartPhase::WriteCmd),
            StartPhase::WriteCmd => self.at(StartPhase::CmdFence),
            StartPhase::CmdFence => self.at(StartPhase::AcceptClock),
            StartPhase::AcceptClock => self.at(
                StartPhase::Accept {
                    deadline: reply.time().saturating_add(START_CMD_SPIN_TIMEOUT),
                    again: false,
                },
            ),
            StartPhase::Accept { deadline, .. } => if Cmd(reply.word()).start_cmd() {
                self.at(StartPhase::AcceptDeadline { deadline })
            } else {
                self.at(StartPhase::Engine)
            },
            StartPhase::AcceptDeadline { deadline } => if reply.time() >= deadline {
                Step::Done(Started::Abort(SdMmcError::CommandStartTimeout))
            } else {
                self.at(StartPhase::Accept { deadline, again: true })
            },
            StartPhase::Engine => if IdSts(reply.word()).du() {
                self.at(StartPhase::RereadId)
            } else {
                self.at(StartPhase::EngineCheck)
            },
            StartPhase::RereadId => if IdSts(reply.word()).any_event() {
                self.at(StartPhase::ClearId { idsts: reply.word() })
            } else {
                self.at(StartPhase::Resume)
            },
            StartPhase::ClearId { .. } => self.at(StartPhase::Resume),
            StartPhase::Resume => self.at(StartPhase::ResumeFence),
            StartPhase::ResumeFence => self.at(StartPhase::EngineCheck),
            StartPhase::EngineCheck => if IdSts(reply.word()).abnormal() {
                Step::Done(Started::Abort(SdMmcError::Hardware))
            } else {
                self.at(StartPhase::State)
            },
            StartPhase::State => if self.context.descriptor_count == 0 {
                self.at(
                    StartPhase::Address { fsm: IdSts(reply.word()).fsm(), desc_own: false },
                )
            } else {
                self.at(
                    StartPhase::Owned {
                        fsm: IdSts(reply.word()).fsm(),
                        index: 0,
                        desc_own: false,
                    },
                )
            },
            StartPhase::Owned { fsm, index, desc_own } => {
                let following: usize = index.saturating_add(1);
                let owned = desc_own || IdmacDes0(reply.word()).own();
                if following < self.context.descriptor_count {
                    self.at(StartPhase::Owned { fsm, index: following, desc_own: owned })
                } else {
                    self.at(StartPhase::Address { fsm, desc_own: owned })
                }
            },
            StartPhase::Address { fsm, desc_own } => self.at(
                StartPhase::Announce { fsm, desc_own, dbaddr: reply.word() },
            ),
            StartPhase::Announce { .. } => Step::Done(Started::Running(self.context)),
        }
    }
}

/// How loudly a start is reported.
#[derive(Clone, Copy, Debug, PartialEq, Eq, Structural)]
pub enum Loudness {
    /// As a warning, so that it is seen.
    Warning,
    /// For debugging only.
    Debug,
}

/// Remembers whether a start was reported.
#[derive(Clone, Copy, Debug, PartialEq, Eq, Structural)]
pub struct StartLog {
    /// One was.
    pub announced: bool,
}

impl StartLog {
    /// None was yet.
    #[verifier::allow_in_spec]
    pub fn new() -> StartLog
        returns
            (StartLog { announced: false }),
    {
        StartLog { announced: false }
    }

    /// Tells how loudly another start is reported: the first one as a warning, the
    /// others for debugging.
    pub fn announce(&mut self) -> (loudness: Loudness)
        ensures
            loudness == (if old(self).announced {
                Loudness::Debug
            } else {
                Loudness::Warning
            }),
            final(self).announced,
    {
        let loudness = if self.announced {
            Loudness::Debug
        } else {
            Loudness::Warning
        };
        self.announced = true;
        loudness
    }
}

/// How a transfer waits for its events.
#[derive(Clone, Copy, Debug, PartialEq, Eq, Structural)]
pub enum WaitMode {
    /// By polling.
    Sync,
    /// By sleeping until the interrupt handler wakes the waiter.
    Async,
}

/// Where the wait for a transfer stands.
#[derive(Clone, Copy, Debug, PartialEq, Eq, Structural)]
pub enum WaitPhase {
    /// Taking the time at which the wait for the response begins.
    CommandClock,
    /// Looking for the response.
    Command {
        /// The deadline.
        deadline: u64,
    },
    /// The response is outstanding; has the deadline passed?
    CommandDeadline {
        /// The deadline.
        deadline: u64,
    },
    /// Sleeping until the response is there.
    CommandAwait,
    /// Looking for errors of the command phase.
    CommandStatus,
    /// Taking the time at which the wait for the data begins.
    DataClock,
    /// Looking for the terminal events.
    Data {
        /// The deadline.
        deadline: u64,
    },
    /// Events are outstanding; has the deadline passed?
    DataDeadline {
        /// The deadline.
        deadline: u64,
    },
    /// Sleeping until the terminal events are there.
    DataAwait,
    /// Looking for errors of the transfer.
    DataStatus {
        /// The wait has timed out.
        timed_out: bool,
    },
}

/// Waits until a submitted transfer is over.
#[derive(Clone, Copy, Debug, PartialEq, Eq, Structural)]
pub struct WaitTransfer {
    /// The transfer.
    pub context: IdmacTransferContext,
    /// How to wait.
    pub mode: WaitMode,
    /// Where the wait stands.
    pub phase: WaitPhase,
}

impl WaitTransfer {
    /// Begins the wait: for the response, if the command has one.
    #[verifier::allow_in_spec]
    pub fn new(context: IdmacTransferContext, mode: WaitMode) -> WaitTransfer
        returns
            (WaitTransfer {
                context,
                mode,
                phase: if !context.cmd.response_expect() {
                    WaitPhase::CommandStatus
                } else {
                    match mode {
                        WaitMode::Sync => WaitPhase::CommandClock,
                        WaitMode::Async => WaitPhase::CommandAwait,
                    }
                },
            }),
    {
        WaitTransfer {
            context,
            mode,
            phase: if !context.cmd.response_expect() {
                WaitPhase::CommandStatus
            } else {
                match mode {
                    WaitMode::Sync => WaitPhase::CommandClock,
                    WaitMode::Async => WaitPhase::CommandAwait,
                }
            },
        }
    }

    /// The same wait at another point.
    #[verifier::allow_in_spec]
    pub fn at(self, phase: WaitPhase) -> Step<WaitTransfer, SdMmcResult>
        returns
            Step::<WaitTransfer, SdMmcResult>::Next(WaitTransfer { phase, ..self }),
    {
        Step::Next(WaitTransfer { phase, ..self })
    }
}

impl Machine for WaitTransfer {
    type Act = Op;

    type Event = Reply;

    type Out = SdMmcResult;

    open spec fn op(self) -> Op {
        match self.phase {
            WaitPhase::CommandClock => Op::Now,
            WaitPhase::Command { .. } => Op::Observe(self.context.generation),
            WaitPhase::CommandDeadline { .. } => Op::Now,
            WaitPhase::CommandAwait => Op::Await {
                until: Until::CommandDone,
                generation: self.context.generation,
                timeout: IDMAC_COMMAND_TIMEOUT,
            },
            WaitPhase::CommandStatus => Op::Observe(self.context.generation),
            WaitPhase::DataClock => Op::Now,
            WaitPhase::Data { .. } => Op::Observe(self.context.generation),
            WaitPhase::DataDeadline { .. } => Op::Now,
            WaitPhase::DataAwait => Op::Await {
                until: Until::Terminal(self.context.cmd),
                generation: self.context.generation,
                timeout: IDMAC_DATA_WATCHDOG_TIMEOUT,
            },
            WaitPhase::DataStatus { .. } => Op::Observe(self.context.generation),
        }
    }

    fn request(&self) -> (op: Op) {
        match self.phase {
            WaitPhase::CommandClock => Op::Now,
            WaitPhase::Command { .. } => Op::Observe(self.context.generation),
            WaitPhase::CommandDeadline { .. } => Op::Now,
            WaitPhase::CommandAwait => Op::Await {
                until: Until::CommandDone,
                generation: self.context.generation,
                timeout: IDMAC_COMMAND_TIMEOUT,
            },
            WaitPhase::CommandStatus => Op::Observe(self.context.generation),
            WaitPhase::DataClock => Op::Now,
            WaitPhase::Data { .. } => Op::Observe(self.context.generation),
            WaitPhase::DataDeadline { .. } => Op::Now,
            WaitPhase::DataAwait => Op::Await {
                until: Until::Terminal(self.context.cmd),
                generation: self.context.generation,
                timeout: IDMAC_DATA_WATCHDOG_TIMEOUT,
            },
            WaitPhase::DataStatus { .. } => Op::Observe(self.context.generation),
        }
    }

    open spec fn next(self, reply: Reply) -> Step<Self, SdMmcResult> {
        match self.phase {
            WaitPhase::CommandClock => self.at(
                WaitPhase::Command { deadline: reply.time().saturating_add(IDMAC_COMMAND_TIMEOUT) },
            ),
            WaitPhase::Command { deadline } => if Until::CommandDone.reached(reply.status()) {
                self.at(WaitPhase::CommandStatus)
            } else {
                self.at(WaitPhase::CommandDeadline { deadline })
            },
            WaitPhase::CommandDeadline { deadline } => if reply.time() >= deadline {
                Step::Done(Err(SdMmcError::CommandTimeout))
            } else {
                self.at(WaitPhase::Command { deadline })
            },
            WaitPhase::CommandAwait => if reply.flag() {
                Step::Done(Err(SdMmcError::CommandTimeout))
            } else {
                self.at(WaitPhase::CommandStatus)
            },
            WaitPhase::CommandStatus => if reply.status().idmac_status_has_error() {
                Step::Done(Err(SdMmcError::Hardware))
            } else {
                match self.mode {
                    WaitMode::Sync => self.at(WaitPhase::DataClock),
                    WaitMode::Async => self.at(WaitPhase::DataAwait),
                }
            },
            WaitPhase::DataClock => self.at(
                WaitPhase::Data {
                    deadline: reply.time().saturating_add(IDMAC_DATA_WATCHDOG_TIMEOUT),
                },
            ),
            WaitPhase::Data { deadline } => if Until::Terminal(self.context.cmd).reached(
                reply.status(),
            ) {
                self.at(WaitPhase::DataStatus { timed_out: false })
            } else {
                self.at(WaitPhase::DataDeadline { deadline })
            },
            WaitPhase::DataDeadline { deadline } => if reply.time() >= deadline {
                Step::Done(Err(SdMmcError::DataTimeout))
            } else {
                self.at(WaitPhase::Data { deadline })
            },
            WaitPhase::DataAwait => self.at(WaitPhase::DataStatus { timed_out: reply.flag() }),
            WaitPhase::DataStatus { timed_out } => if timed_out {
                Step::Done(Err(SdMmcError::DataTimeout))
            } else if reply.status().idmac_status_has_error() {
                Step::Done(Err(SdMmcError::Hardware))
            } else {
                Step::Done(Ok(()))
            },
        }
    }

    fn step(self, reply: Reply) -> (step: Step<Self, SdMmcResult>) {
        match self.phase {
            WaitPhase::CommandClock => self.at(
                WaitPhase::Command { deadline: reply.time().saturating_add(IDMAC_COMMAND_TIMEOUT) },
            ),
            WaitPhase::Command { deadline } => if Until::CommandDone.reached(reply.status()) {
                self.at(WaitPhase::CommandStatus)
            } else {
                self.at(WaitPhase::CommandDeadline { deadline })
            },
            WaitPhase::CommandDeadline { deadline } => if reply.time() >= deadline {
                Step::Done(Err(SdMmcError::CommandTimeout))
            } else {
                self.at(WaitPhase::Command { deadline })
            },
            WaitPhase::CommandAwait => if reply.flag() {
                Step::Done(Err(SdMmcError::CommandTimeout))
            } else {
                self.at(WaitPhase::CommandStatus)
            },
            WaitPhase::CommandStatus => if reply.status().idmac_status_has_error() {
                Step::Done(Err(SdMmcError::Hardware))
            } else {
                match self.mode {
                    WaitMode::Sync => self.at(WaitPhase::DataClock),
                    WaitMode::Async => self.at(WaitPhase::DataAwait),
                }
            },
            WaitPhase::DataClock => self.at(
                WaitPhase::Data {
                    deadline: reply.time().saturating_add(IDMAC_DATA_WATCHDOG_TIMEOUT),
                },
            ),
            WaitPhase::Data { deadline } => if Until::Terminal(self.context.cmd).reached(
                reply.status(),
            ) {
                self.at(WaitPhase::DataStatus { timed_out: false })
            } else {
                self.at(WaitPhase::DataDeadline { deadline })
            },
            WaitPhase::DataDeadline { deadline } => if reply.time() >= deadline {
                Step::Done(Err(SdMmcError::DataTimeout))
            } else {
                self.at(WaitPhase::Data { deadline })
            },
            WaitPhase::DataAwait => self.at(WaitPhase::DataStatus { timed_out: reply.flag() }),
            WaitPhase::DataStatus { timed_out } => if timed_out {
                Step::Done(Err(SdMmcError::DataTimeout))
            } else if reply.status().idmac_status_has_error() {
                Step::Done(Err(SdMmcError::Hardware))
            } else {
                Step::Done(Ok(()))
            },
        }
    }
}

/// Where the validation of a transfer stands.
#[derive(Clone, Copy, Debug, PartialEq, Eq, Structural)]
pub enum ValidatePhase {
    /// Collecting the final status.
    Status,
    /// Ordering status and descriptors.
    Fence {
        /// The status is that of a complete transfer.
        events: bool,
    },
    /// Looking for a descriptor that still belongs to the engine.
    Owned {
        /// The status is that of a complete transfer.
        events: bool,
        /// Descriptor to look at.
        index: usize,
        /// A descriptor of the engine was found.
        found: bool,
    },
    /// Looking for a descriptor with a card error.
    CardError {
        /// All is well so far.
        good: bool,
        /// Descriptor to look at.
        index: usize,
    },
}

/// Checks that a transfer has reached its terminal state: every event is there,
/// no error, and every descriptor is back without an error of its own. Ends with
/// whether that is so.
#[derive(Clone, Copy, Debug, PartialEq, Eq, Structural)]
pub struct ValidateTransfer {
    /// The transfer.
    pub context: IdmacTransferContext,
    /// Where the validation stands.
    pub phase: ValidatePhase,
}

impl ValidateTransfer {
    /// Begins the validation.
    #[verifier::allow_in_spec]
    pub fn new(context: IdmacTransferContext) -> ValidateTransfer
        returns
            (ValidateTransfer { context, phase: ValidatePhase::Status }),
    {
        ValidateTransfer { context, phase: ValidatePhase::Status }
    }

    /// The same validation at another point.
    #[verifier::allow_in_spec]
    pub fn at(self, phase: ValidatePhase) -> Step<ValidateTransfer, bool>
        returns
            Step::<ValidateTransfer, bool>::Next(ValidateTransfer { phase, ..self }),
    {
        Step::Next(ValidateTransfer { phase, ..self })
    }

    /// The status is that of a complete transfer without errors.
    #[verifier::allow_in_spec]
    pub fn complete(self, status: IdmacStatus) -> bool
        returns
            !status.idmac_status_has_error() && status.terminal_events(self.context.cmd),
    {
        !status.idmac_status_has_error() && status.terminal_events(self.context.cmd)
    }
}

impl Machine for ValidateTransfer {
    type Act = Op;

    type Event = Reply;

    type Out = bool;

    open spec fn op(self) -> Op {
        match self.phase {
            ValidatePhase::Status => Op::Observe(self.context.generation),
            ValidatePhase::Fence { .. } => Op::Fence,
            ValidatePhase::Owned { index, .. } => Op::LoadDes0(index),
            ValidatePhase::CardError { index, .. } => Op::LoadDes0(index),
        }
    }

    fn request(&self) -> (op: Op) {
        match self.phase {
            ValidatePhase::Status => Op::Observe(self.context.generation),
            ValidatePhase::Fence { .. } => Op::Fence,
            ValidatePhase::Owned { index, .. } => Op::LoadDes0(index),
            ValidatePhase::CardError { index, .. } => Op::LoadDes0(index),
        }
    }

    open spec fn next(self, reply: Reply) -> Step<Self, bool> {
        match self.phase {
            ValidatePhase::Status => self.at(
                ValidatePhase::Fence { events: self.complete(reply.status()) },
            ),
            ValidatePhase::Fence { events } => self.at(
                ValidatePhase::Owned { events, index: 0, found: false },
            ),
            ValidatePhase::Owned { events, index, found } => {
                let owned = found || IdmacDes0(reply.word()).own();
                let following: usize = index.saturating_add(1);
                if following < self.context.descriptor_count {
                    self.at(ValidatePhase::Owned { events, index: following, found: owned })
                } else {
                    self.at(ValidatePhase::CardError { good: events && !owned, index: 0 })
                }
            },
            ValidatePhase::CardError { good, index } => {
                let following: usize = index.saturating_add(1);
                if IdmacDes0(reply.word()).ces() {
                    Step::Done(false)
                } else if following < self.context.descriptor_count {
                    self.at(ValidatePhase::CardError { good, index: following })
                } else {
                    Step::Done(good)
                }
            },
        }
    }

    fn step(self, reply: Reply) -> (step: Step<Self, bool>) {
        match self.phase {
            ValidatePhase::Status => self.at(
                ValidatePhase::Fence { events: self.complete(reply.status()) },
            ),
            ValidatePhase::Fence { events } => self.at(
                ValidatePhase::Owned { events, index: 0, found: false },
            ),
            ValidatePhase::Owned { events, index, found } => {
                let owned = found || IdmacDes0(reply.word()).own();
                let following: usize = index.saturating_add(1);
                if following < self.context.descriptor_count {
                    self.at(ValidatePhase::Owned { events, index: following, found: owned })
                } else {
                    self.at(ValidatePhase::CardError { good: events && !owned, index: 0 })
                }
            },
            ValidatePhase::CardError { good, index } => {
                let following: usize = index.saturating_add(1);
                if IdmacDes0(reply.word()).ces() {
                    Step::Done(false)
                } else if following < self.context.descriptor_count {
                    self.at(ValidatePhase::CardError { good, index: following })
                } else {
                    Step::Done(good)
                }
            },
        }
    }
}

/// What a transfer ends with.
#[derive(Clone, Copy, Debug, PartialEq, Eq)]
pub struct TransferEnd {
    /// The response, or why there is none.
    pub result: SdMmcResult<[u32; 4]>,
    /// The driver may not submit any further transfer.
    pub faulted: bool,
    /// The engine could not be stopped, so memory that it may use must be kept.
    pub reset_failed: bool,
}

/// Where a transfer stands.
#[derive(Clone, Copy, Debug, PartialEq, Eq)]
pub enum TransferPhase {
    /// Preparing the descriptors.
    Prepare(Prepare),
    /// Submitting the command.
    Start(StartTransfer),
    /// Waiting for the end.
    Wait(WaitTransfer),
    /// Checking the terminal state.
    Validate(ValidateTransfer),
    /// Reading the response.
    Response(IdmacTransferContext),
    /// Cleaning up.
    Finish {
        /// The clean-up.
        finish: FinishTransfer,
        /// The outcome if the clean-up succeeds.
        result: SdMmcResult<[u32; 4]>,
    },
}

/// One command with its data phase, carried out by the DMA engine.
#[derive(Clone, Copy, Debug, PartialEq, Eq)]
pub struct IdmacTransfer {
    /// How to wait.
    pub mode: WaitMode,
    /// Where the transfer stands.
    pub phase: TransferPhase,
}

impl IdmacTransfer {
    /// Begins a transfer of the buffer at bus address `buffer`.
    #[verifier::allow_in_spec]
    pub fn start(mode: WaitMode, faulted: bool, request: Request, buffer: u32) -> Step<
        IdmacTransfer,
        TransferEnd,
    >
        returns
            IdmacTransfer::after_prepare(
                mode,
                faulted,
                Prepare::start(faulted, request, buffer),
            ),
    {
        IdmacTransfer::after_prepare(mode, faulted, Prepare::start(faulted, request, buffer))
    }

    /// The transfer at a point.
    #[verifier::allow_in_spec]
    pub fn at(mode: WaitMode, phase: TransferPhase) -> Step<IdmacTransfer, TransferEnd>
        returns
            Step::<IdmacTransfer, TransferEnd>::Next(IdmacTransfer { mode, phase }),
    {
        Step::Next(IdmacTransfer { mode, phase })
    }

    /// The transfer has failed with its descriptors published: it is aborted.
    #[verifier::allow_in_spec]
    pub fn abort(mode: WaitMode, error: SdMmcError) -> Step<IdmacTransfer, TransferEnd>
        returns
            IdmacTransfer::at(
                mode,
                TransferPhase::Finish { finish: FinishTransfer::new(true), result: Err(error) },
            ),
    {
        IdmacTransfer::at(
            mode,
            TransferPhase::Finish { finish: FinishTransfer::new(true), result: Err(error) },
        )
    }

    /// Where a step of the preparation leads.
    #[verifier::allow_in_spec]
    pub fn after_prepare(mode: WaitMode, faulted: bool, step: Step<Prepare, Prepared>) -> Step<
        IdmacTransfer,
        TransferEnd,
    >
        returns
            (match step {
                Step::Next(prepare) => IdmacTransfer::at(mode, TransferPhase::Prepare(prepare)),
                Step::Done(Prepared::Ready(context)) => IdmacTransfer::at(
                    mode,
                    TransferPhase::Start(StartTransfer::new(context)),
                ),
                Step::Done(Prepared::Refused(error)) => Step::Done(
                    TransferEnd { result: Err(error), faulted, reset_failed: false },
                ),
                Step::Done(Prepared::Abort(error)) => IdmacTransfer::abort(mode, error),
            }),
    {
        match step {
            Step::Next(prepare) => IdmacTransfer::at(mode, TransferPhase::Prepare(prepare)),
            Step::Done(Prepared::Ready(context)) => IdmacTransfer::at(
                mode,
                TransferPhase::Start(StartTransfer::new(context)),
            ),
            Step::Done(Prepared::Refused(error)) => Step::Done(
                TransferEnd { result: Err(error), faulted, reset_failed: false },
            ),
            Step::Done(Prepared::Abort(error)) => IdmacTransfer::abort(mode, error),
        }
    }

    /// Judgement on the response of a transfer in its terminal state.
    #[verifier::allow_in_spec]
    pub fn validated_response(
        mode: WaitMode,
        context: IdmacTransferContext,
        response: [u32; 4],
    ) -> Step<IdmacTransfer, TransferEnd>
        returns
            (if context.expects_r1 {
                match validate_r1_response(response[0], false) {
                    Ok(_) => IdmacTransfer::at(
                        mode,
                        TransferPhase::Finish {
                            finish: FinishTransfer::new(false),
                            result: Ok(response),
                        },
                    ),
                    Err(error) => IdmacTransfer::abort(mode, error),
                }
            } else {
                IdmacTransfer::at(
                    mode,
                    TransferPhase::Finish {
                        finish: FinishTransfer::new(false),
                        result: Ok(response),
                    },
                )
            }),
    {
        if context.expects_r1 {
            match validate_r1_response(response[0], false) {
                Ok(_) => IdmacTransfer::at(
                    mode,
                    TransferPhase::Finish {
                        finish: FinishTransfer::new(false),
                        result: Ok(response),
                    },
                ),
                Err(error) => IdmacTransfer::abort(mode, error),
            }
        } else {
            IdmacTransfer::at(
                mode,
                TransferPhase::Finish { finish: FinishTransfer::new(false), result: Ok(response) },
            )
        }
    }

    /// The end of a transfer whose clean-up is over.
    #[verifier::allow_in_spec]
    pub fn conclude(
        abort: bool,
        finished: SdMmcResult,
        result: SdMmcResult<[u32; 4]>,
    ) -> TransferEnd
        returns
            (match finished {
                Ok(_) => TransferEnd { result, faulted: abort, reset_failed: false },
                Err(error) => TransferEnd {
                    result: Err(error),
                    faulted: true,
                    reset_failed: true,
                },
            }),
    {
        match finished {
            Ok(_) => TransferEnd { result, faulted: abort, reset_failed: false },
            Err(error) => TransferEnd { result: Err(error), faulted: true, reset_failed: true },
        }
    }

    /// The transfer is suspended: it sleeps until an event arrives. Only here
    /// can it be cancelled.
    #[verifier::allow_in_spec]
    pub fn suspended(self) -> bool
        returns
            (match self.phase {
                TransferPhase::Wait(wait) => match wait.phase {
                    WaitPhase::CommandAwait => true,
                    WaitPhase::DataAwait => true,
                    _ => false,
                },
                _ => false,
            }),
    {
        match self.phase {
            TransferPhase::Wait(wait) => match wait.phase {
                WaitPhase::CommandAwait => true,
                WaitPhase::DataAwait => true,
                _ => false,
            },
            _ => false,
        }
    }
}

impl Machine for IdmacTransfer {
    type Act = Op;

    type Event = Reply;

    type Out = TransferEnd;

    open spec fn op(self) -> Op {
        match self.phase {
            TransferPhase::Prepare(prepare) => prepare.op(),
            TransferPhase::Start(start) => start.op(),
            TransferPhase::Wait(wait) => wait.op(),
            TransferPhase::Validate(validate) => validate.op(),
            TransferPhase::Response(_) => Op::Response,
            TransferPhase::Finish { finish, .. } => finish.op(),
        }
    }

    fn request(&self) -> (op: Op) {
        match self.phase {
            TransferPhase::Prepare(prepare) => prepare.request(),
            TransferPhase::Start(start) => start.request(),
            TransferPhase::Wait(wait) => wait.request(),
            TransferPhase::Validate(validate) => validate.request(),
            TransferPhase::Response(_) => Op::Response,
            TransferPhase::Finish { finish, .. } => finish.request(),
        }
    }

    open spec fn next(self, reply: Reply) -> Step<Self, TransferEnd> {
        match self.phase {
            TransferPhase::Prepare(prepare) => IdmacTransfer::after_prepare(
                self.mode,
                false,
                prepare.next(reply),
            ),
            TransferPhase::Start(start) => match start.next(reply) {
                Step::Next(start) => IdmacTransfer::at(self.mode, TransferPhase::Start(start)),
                Step::Done(Started::Running(context)) => IdmacTransfer::at(
                    self.mode,
                    TransferPhase::Wait(WaitTransfer::new(context, self.mode)),
                ),
                Step::Done(Started::Abort(error)) => IdmacTransfer::abort(self.mode, error),
            },
            TransferPhase::Wait(wait) => match wait.next(reply) {
                Step::Next(wait) => IdmacTransfer::at(self.mode, TransferPhase::Wait(wait)),
                Step::Done(Ok(_)) => IdmacTransfer::at(
                    self.mode,
                    TransferPhase::Validate(ValidateTransfer::new(wait.context)),
                ),
                Step::Done(Err(error)) => IdmacTransfer::abort(self.mode, error),
            },
            TransferPhase::Validate(validate) => match validate.next(reply) {
                Step::Next(validate) => IdmacTransfer::at(
                    self.mode,
                    TransferPhase::Validate(validate),
                ),
                Step::Done(true) => IdmacTransfer::at(
                    self.mode,
                    TransferPhase::Response(validate.context),
                ),
                Step::Done(false) => IdmacTransfer::abort(
                    self.mode,
                    SdMmcError::TerminalValidation,
                ),
            },
            TransferPhase::Response(context) => IdmacTransfer::validated_response(
                self.mode,
                context,
                reply.response(),
            ),
            TransferPhase::Finish { finish, result } => match finish.next(reply) {
                Step::Next(finish) => IdmacTransfer::at(
                    self.mode,
                    TransferPhase::Finish { finish, result },
                ),
                Step::Done(finished) => Step::Done(
                    IdmacTransfer::conclude(finish.abort, finished, result),
                ),
            },
        }
    }

    fn step(self, reply: Reply) -> (step: Step<Self, TransferEnd>) {
        match self.phase {
            TransferPhase::Prepare(prepare) => IdmacTransfer::after_prepare(
                self.mode,
                false,
                prepare.step(reply),
            ),
            TransferPhase::Start(start) => match start.step(reply) {
                Step::Next(start) => IdmacTransfer::at(self.mode, TransferPhase::Start(start)),
                Step::Done(Started::Running(context)) => IdmacTransfer::at(
                    self.mode,
                    TransferPhase::Wait(WaitTransfer::new(context, self.mode)),
                ),
                Step::Done(Started::Abort(error)) => IdmacTransfer::abort(self.mode, error),
            },
            TransferPhase::Wait(wait) => match wait.step(reply) {
                Step::Next(wait) => IdmacTransfer::at(self.mode, TransferPhase::Wait(wait)),
                Step::Done(Ok(_)) => IdmacTransfer::at(
                    self.mode,
                    TransferPhase::Validate(ValidateTransfer::new(wait.context)),
                ),
                Step::Done(Err(error)) => IdmacTransfer::abort(self.mode, error),
            },
            TransferPhase::Validate(validate) => match validate.step(reply) {
                Step::Next(validate) => IdmacTransfer::at(
                    self.mode,
                    TransferPhase::Validate(validate),
                ),
                Step::Done(true) => IdmacTransfer::at(
                    self.mode,
                    TransferPhase::Response(validate.context),
                ),
                Step::Done(false) => IdmacTransfer::abort(
                    self.mode,
                    SdMmcError::TerminalValidation,
                ),
            },
            TransferPhase::Response(context) => IdmacTransfer::validated_response(
                self.mode,
                context,
                reply.response(),
            ),
            TransferPhase::Finish { finish, result } => match finish.step(reply) {
                Step::Next(finish) => IdmacTransfer::at(
                    self.mode,
                    TransferPhase::Finish { finish, result },
                ),
                Step::Done(finished) => Step::Done(
                    IdmacTransfer::conclude(finish.abort, finished, result),
                ),
            },
        }
    }
}

} // verus!
