//! Card identification.

use vstd::prelude::*;

use crate::card::{Cid, CsdV2};
use crate::clock::{latch, SwitchClock, DEFAULT_SPEED_CLOCK_DIVIDER, IDENTIFICATION_CLOCK_DIVIDER};
use crate::cmd::{CommandKind, DataPhase, Request};
use crate::error::{SdMmcError, SdMmcResult};
use crate::io::{Machine, Op, Reply, Step};
use crate::regs::{BMod, BlkSiz, ClkEna, Ctrl, Reg};
use crate::send::SendCmd;

verus! {

/// Spins after the clock was programmed.
pub const CLOCK_SETTLE_SPINS: u32 = 10_000;

/// Spins after the card was powered.
pub const POWER_SETTLE_SPINS: u32 = 100_000;

/// Argument of CMD8: 2.7 to 3.6 V and a check pattern.
pub const IF_COND: u32 = 0x1aa;

/// Argument of ACMD41: high capacity support and the voltage window.
pub const OP_COND: u32 = 0x40ff_8000;

/// Nanoseconds that the card gets to complete its power-up.
pub const OP_COND_TIMEOUT: u64 = 2_000_000_000;

/// Nanoseconds between two inquiries.
pub const OP_COND_PAUSE: u64 = 10_000_000;

/// Bytes of the buffer for the SCR register, of which the card fills 8.
pub const SCR_BUFFER_SIZE: usize = 512;

/// What identification has found out about the card.
#[derive(Clone, Copy, Debug, PartialEq, Eq, Structural)]
pub struct Card {
    /// Capacity in blocks.
    pub num_blocks: u64,
    /// Relative card address.
    pub rca: u16,
    /// Card Capacity Status: the card is addressed by blocks.
    pub ocr_ccs: bool,
    /// Identification register.
    pub cid: Cid,
    /// Card specific data.
    pub csd: CsdV2,
    /// The SCR register was read.
    pub scr_read: bool,
}

/// The echo of CMD8 carries the voltage and the check pattern of its argument.
#[verifier::allow_in_spec]
pub fn if_cond_accepted(response: u32) -> bool
    returns
        response & 0xfff == IF_COND,
{
    response & 0xfff == IF_COND
}

/// The operating conditions show that the power-up is complete.
#[verifier::allow_in_spec]
pub fn power_up_complete(ocr: u32) -> bool
    returns
        ocr & 0x8000_0000 != 0u32,
{
    ocr & 0x8000_0000 != 0
}

/// The operating conditions show a card of high capacity.
#[verifier::allow_in_spec]
pub fn high_capacity(ocr: u32) -> bool
    returns
        ocr & 0x4000_0000 != 0u32,
{
    ocr & 0x4000_0000 != 0
}

/// The relative card address of an R6 response, unless the response reports an
/// error or the address is 0.
pub open spec fn published_rca(response: u32) -> Option<u16> {
    if response & 0xe000 != 0 || response / 0x1_0000 == 0 {
        None
    } else {
        Some((response / 0x1_0000) as u16)
    }
}

/// Takes the relative card address from an R6 response.
#[verifier::when_used_as_spec(published_rca)]
pub fn relative_address(response: u32) -> (rca: Option<u16>)
    ensures
        rca == published_rca(response),
{
    if response & 0xe000 != 0 {
        return None;
    }
    let rca: u16 = (response / 0x1_0000) as u16;
    if rca == 0 {
        return None;
    }
    Some(rca)
}

/// The relative card address in the upper half of a command argument.
#[verifier::allow_in_spec]
pub fn rca_arg(rca: u16) -> u32
    returns
        (rca * 0x1_0000) as u32,
{
    rca as u32 * 0x1_0000
}

/// Word of the CSD.
pub open spec fn csd_word(response: [u32; 4]) -> CsdV2 {
    CsdV2(crate::card::long_response(response) as u128)
}

/// Word of the CID.
pub open spec fn cid_word(response: [u32; 4]) -> Cid {
    Cid(crate::card::long_response(response) as u128)
}

/// Decodes the response to CMD9.
#[verifier::when_used_as_spec(csd_word)]
pub fn decode_csd(response: [u32; 4]) -> (csd: CsdV2)
    ensures
        csd == csd_word(response),
{
    CsdV2::from_response(response)
}

/// Decodes the response to CMD2.
#[verifier::when_used_as_spec(cid_word)]
pub fn decode_cid(response: [u32; 4]) -> (cid: Cid)
    ensures
        cid == cid_word(response),
{
    Cid::from_response(response)
}

/// Bus widths that the SCR register reports, from its first eight bytes.
pub fn scr_bus_widths(scr: [u8; 8]) -> (widths: u8)
    ensures
        widths == scr[1] % 16,
{
    scr[1] % 16
}

/// Submission of a command without data.
#[verifier::allow_in_spec]
pub fn plain(kind: CommandKind, arg: u32) -> SendCmd
    returns
        SendCmd::new(Request { kind, arg, data: DataPhase::Nothing }, None),
{
    SendCmd::new(Request { kind, arg, data: DataPhase::Nothing }, None)
}

/// Where identification stands.
#[derive(Clone, Copy, Debug, PartialEq, Eq)]
pub enum InitPhase {
    /// Clearing the status that was left over.
    ClearStale,
    /// Disabling the clock.
    ClockOff,
    /// Latching that.
    LatchOff(SendCmd),
    /// Setting the identification clock.
    Divider,
    /// Enabling the clock.
    ClockOn,
    /// Latching that.
    LatchOn(SendCmd),
    /// Letting the clock settle.
    ClockSettle,
    /// Powering the card.
    Power,
    /// Letting the card power up.
    PowerSettle,
    /// Selecting the one-bit bus.
    BusWidth,
    /// Stopping the DMA engine.
    StopEngine,
    /// Resetting the DMA interface.
    ResetInterface,
    /// CMD0.
    GoIdle(SendCmd),
    /// CMD8.
    IfCond(SendCmd),
    /// Taking the time at which the power-up begins.
    OpCondStart,
    /// Has the power-up taken too long?
    OpCondClock {
        /// The deadline.
        deadline: u64,
    },
    /// CMD55 before ACMD41.
    OpCondApp {
        /// The command.
        send: SendCmd,
        /// The deadline.
        deadline: u64,
    },
    /// ACMD41.
    OpCond {
        /// The command.
        send: SendCmd,
        /// The deadline.
        deadline: u64,
    },
    /// Pausing before the next inquiry.
    OpCondPause {
        /// The deadline.
        deadline: u64,
    },
    /// CMD2.
    AllSendCid(SendCmd),
    /// CMD3.
    RelativeAddr {
        /// The command.
        send: SendCmd,
        /// The card's identification.
        cid: Cid,
    },
    /// CMD9.
    SendCsd {
        /// The command.
        send: SendCmd,
        /// The card's identification.
        cid: Cid,
        /// The card's address.
        rca: u16,
    },
    /// CMD7.
    Select {
        /// The command.
        send: SendCmd,
        /// The card.
        card: Card,
    },
    /// CMD55 before ACMD51.
    ScrApp {
        /// The command.
        send: SendCmd,
        /// The card.
        card: Card,
    },
    /// Setting the block size for the SCR register.
    ScrBlockSize(Card),
    /// Setting the byte count for the SCR register.
    ScrByteCount(Card),
    /// ACMD51.
    Scr {
        /// The command.
        send: SendCmd,
        /// The card.
        card: Card,
    },
    /// Clearing the status.
    ClearFinal(Card),
    /// Switching to Default Speed.
    Switch {
        /// The switch.
        switch: SwitchClock,
        /// The card.
        card: Card,
    },
}

/// Identifies the card and selects it for transfers. Only cards that are
/// addressed by blocks (high capacity, CSD version 2) are accepted.
#[derive(Clone, Copy, Debug, PartialEq, Eq)]
pub struct Init {
    /// Where identification stands.
    pub phase: InitPhase,
}

impl Init {
    /// Begins identification.
    #[verifier::allow_in_spec]
    pub fn new() -> Init
        returns
            (Init { phase: InitPhase::ClearStale }),
    {
        Init { phase: InitPhase::ClearStale }
    }

    /// Identification at another point.
    #[verifier::allow_in_spec]
    pub fn at(self, phase: InitPhase) -> Step<Init, SdMmcResult<Card>>
        returns
            Step::<Init, SdMmcResult<Card>>::Next(Init { phase }),
    {
        Step::Next(Init { phase })
    }

    /// Identification fails.
    #[verifier::allow_in_spec]
    pub fn fail(self, error: SdMmcError) -> Step<Init, SdMmcResult<Card>>
        returns
            Step::<Init, SdMmcResult<Card>>::Done(Err(error)),
    {
        Step::Done(Err(error))
    }

    /// Point after the answer to CMD0. A card that is still starting up may let
    /// this command time out, which is no failure.
    #[verifier::allow_in_spec]
    pub fn after_go_idle(self, result: SdMmcResult<[u32; 4]>) -> Step<Init, SdMmcResult<Card>>
        returns
            (match result {
                Ok(_) => self.at(InitPhase::IfCond(plain(CommandKind::SendIfCond, IF_COND))),
                Err(SdMmcError::CommandTimeout) => self.at(
                    InitPhase::IfCond(plain(CommandKind::SendIfCond, IF_COND)),
                ),
                Err(error) => self.fail(error),
            }),
    {
        match result {
            Ok(_) => self.at(InitPhase::IfCond(plain(CommandKind::SendIfCond, IF_COND))),
            Err(SdMmcError::CommandTimeout) => self.at(
                InitPhase::IfCond(plain(CommandKind::SendIfCond, IF_COND)),
            ),
            Err(error) => self.fail(error),
        }
    }

    /// Point after the answer to ACMD41: a card that is ready and of high
    /// capacity is asked for its identification, one that is ready but not of
    /// high capacity is rejected, any other is asked again.
    #[verifier::allow_in_spec]
    pub fn after_op_cond(self, result: SdMmcResult<[u32; 4]>, deadline: u64) -> Step<
        Init,
        SdMmcResult<Card>,
    >
        returns
            (match result {
                Ok(response) => if !power_up_complete(response[0]) {
                    self.at(InitPhase::OpCondPause { deadline })
                } else if !high_capacity(response[0]) {
                    self.fail(SdMmcError::UnsupportedCard)
                } else {
                    self.at(InitPhase::AllSendCid(plain(CommandKind::AllSendCid, 0)))
                },
                Err(_) => self.at(InitPhase::OpCondPause { deadline }),
            }),
    {
        match result {
            Ok(response) => if !power_up_complete(response[0]) {
                self.at(InitPhase::OpCondPause { deadline })
            } else if !high_capacity(response[0]) {
                self.fail(SdMmcError::UnsupportedCard)
            } else {
                self.at(InitPhase::AllSendCid(plain(CommandKind::AllSendCid, 0)))
            },
            Err(_) => self.at(InitPhase::OpCondPause { deadline }),
        }
    }

    /// Point after the answer to CMD3.
    #[verifier::allow_in_spec]
    pub fn after_relative_addr(self, response: [u32; 4], cid: Cid) -> Step<Init, SdMmcResult<Card>>
        returns
            (match relative_address(response[0]) {
                Some(rca) => self.at(
                    InitPhase::SendCsd {
                        send: plain(CommandKind::SendCsd, rca_arg(rca)),
                        cid,
                        rca,
                    },
                ),
                None => self.fail(SdMmcError::InitializationFailed),
            }),
    {
        match relative_address(response[0]) {
            Some(rca) => self.at(
                InitPhase::SendCsd { send: plain(CommandKind::SendCsd, rca_arg(rca)), cid, rca },
            ),
            None => self.fail(SdMmcError::InitializationFailed),
        }
    }

    /// Point after the answer to CMD9. The card has shown by now that it is of
    /// high capacity.
    #[verifier::allow_in_spec]
    pub fn after_csd(self, response: [u32; 4], cid: Cid, rca: u16) -> Step<Init, SdMmcResult<Card>>
        returns
            (if decode_csd(response).csd_structure() != 1 {
                self.fail(SdMmcError::UnsupportedCard)
            } else {
                self.at(
                    InitPhase::Select {
                        send: plain(CommandKind::SelectCard, rca_arg(rca)),
                        card: Card {
                            num_blocks: decode_csd(response).num_blocks(),
                            rca,
                            ocr_ccs: true,
                            cid,
                            csd: decode_csd(response),
                            scr_read: false,
                        },
                    },
                )
            }),
    {
        let csd = decode_csd(response);
        if csd.csd_structure() != 1 {
            self.fail(SdMmcError::UnsupportedCard)
        } else {
            self.at(
                InitPhase::Select {
                    send: plain(CommandKind::SelectCard, rca_arg(rca)),
                    card: Card {
                        num_blocks: csd.num_blocks(),
                        rca,
                        ocr_ccs: true,
                        cid,
                        csd,
                        scr_read: false,
                    },
                },
            )
        }
    }

    /// Submission of ACMD51.
    #[verifier::allow_in_spec]
    pub fn send_scr() -> SendCmd
        returns
            SendCmd::new(
                Request {
                    kind: CommandKind::SendScr,
                    arg: 0,
                    data: DataPhase::Read(SCR_BUFFER_SIZE),
                },
                None,
            ),
    {
        SendCmd::new(
            Request { kind: CommandKind::SendScr, arg: 0, data: DataPhase::Read(SCR_BUFFER_SIZE) },
            None,
        )
    }
}

impl Machine for Init {
    type Act = Op;

    type Event = Reply;

    type Out = SdMmcResult<Card>;

    open spec fn op(self) -> Op {
        match self.phase {
            InitPhase::ClearStale => Op::Acknowledge(Reg::RIntSts),
            InitPhase::ClockOff => Op::Write(Reg::ClkEna, 0),
            InitPhase::LatchOff(send) => send.op(),
            InitPhase::Divider => Op::Write(Reg::ClkDiv, IDENTIFICATION_CLOCK_DIVIDER as u32),
            InitPhase::ClockOn => Op::Write(Reg::ClkEna, ClkEna::CARD0),
            InitPhase::LatchOn(send) => send.op(),
            InitPhase::ClockSettle => Op::Delay(CLOCK_SETTLE_SPINS),
            InitPhase::Power => Op::Write(Reg::PwrEn, 1),
            InitPhase::PowerSettle => Op::Delay(POWER_SETTLE_SPINS),
            InitPhase::BusWidth => Op::Write(Reg::CType, 0),
            InitPhase::StopEngine => Op::Update { reg: Reg::BMod, clear: BMod::DE, set: BMod::SWR },
            InitPhase::ResetInterface => Op::Update {
                reg: Reg::Ctrl,
                clear: Ctrl::USE_INTERNAL_DMAC,
                set: Ctrl::DMA_RESET,
            },
            InitPhase::GoIdle(send) => send.op(),
            InitPhase::IfCond(send) => send.op(),
            InitPhase::OpCondStart => Op::Now,
            InitPhase::OpCondClock { .. } => Op::Now,
            InitPhase::OpCondApp { send, .. } => send.op(),
            InitPhase::OpCond { send, .. } => send.op(),
            InitPhase::OpCondPause { .. } => Op::BusyWait(OP_COND_PAUSE),
            InitPhase::AllSendCid(send) => send.op(),
            InitPhase::RelativeAddr { send, .. } => send.op(),
            InitPhase::SendCsd { send, .. } => send.op(),
            InitPhase::Select { send, .. } => send.op(),
            InitPhase::ScrApp { send, .. } => send.op(),
            InitPhase::ScrBlockSize(_) => Op::Update {
                reg: Reg::BlkSiz,
                clear: BlkSiz::SIZE_MASK,
                set: 8,
            },
            InitPhase::ScrByteCount(_) => Op::Write(Reg::BytCnt, 8),
            InitPhase::Scr { send, .. } => send.op(),
            InitPhase::ClearFinal(_) => Op::Acknowledge(Reg::RIntSts),
            InitPhase::Switch { switch, .. } => switch.op(),
        }
    }

    fn request(&self) -> (op: Op) {
        match self.phase {
            InitPhase::ClearStale => Op::Acknowledge(Reg::RIntSts),
            InitPhase::ClockOff => Op::Write(Reg::ClkEna, 0),
            InitPhase::LatchOff(send) => send.request(),
            InitPhase::Divider => Op::Write(Reg::ClkDiv, IDENTIFICATION_CLOCK_DIVIDER as u32),
            InitPhase::ClockOn => Op::Write(Reg::ClkEna, ClkEna::CARD0),
            InitPhase::LatchOn(send) => send.request(),
            InitPhase::ClockSettle => Op::Delay(CLOCK_SETTLE_SPINS),
            InitPhase::Power => Op::Write(Reg::PwrEn, 1),
            InitPhase::PowerSettle => Op::Delay(POWER_SETTLE_SPINS),
            InitPhase::BusWidth => Op::Write(Reg::CType, 0),
            InitPhase::StopEngine => Op::Update { reg: Reg::BMod, clear: BMod::DE, set: BMod::SWR },
            InitPhase::ResetInterface => Op::Update {
                reg: Reg::Ctrl,
                clear: Ctrl::USE_INTERNAL_DMAC,
                set: Ctrl::DMA_RESET,
            },
            InitPhase::GoIdle(send) => send.request(),
            InitPhase::IfCond(send) => send.request(),
            InitPhase::OpCondStart => Op::Now,
            InitPhase::OpCondClock { .. } => Op::Now,
            InitPhase::OpCondApp { send, .. } => send.request(),
            InitPhase::OpCond { send, .. } => send.request(),
            InitPhase::OpCondPause { .. } => Op::BusyWait(OP_COND_PAUSE),
            InitPhase::AllSendCid(send) => send.request(),
            InitPhase::RelativeAddr { send, .. } => send.request(),
            InitPhase::SendCsd { send, .. } => send.request(),
            InitPhase::Select { send, .. } => send.request(),
            InitPhase::ScrApp { send, .. } => send.request(),
            InitPhase::ScrBlockSize(_) => Op::Update {
                reg: Reg::BlkSiz,
                clear: BlkSiz::SIZE_MASK,
                set: 8,
            },
            InitPhase::ScrByteCount(_) => Op::Write(Reg::BytCnt, 8),
            InitPhase::Scr { send, .. } => send.request(),
            InitPhase::ClearFinal(_) => Op::Acknowledge(Reg::RIntSts),
            InitPhase::Switch { switch, .. } => switch.request(),
        }
    }

    open spec fn next(self, reply: Reply) -> Step<Self, SdMmcResult<Card>> {
        match self.phase {
            InitPhase::ClearStale => self.at(InitPhase::ClockOff),
            InitPhase::ClockOff => self.at(InitPhase::LatchOff(latch())),
            InitPhase::LatchOff(send) => match send.next(reply) {
                Step::Next(send) => self.at(InitPhase::LatchOff(send)),
                Step::Done(Ok(_)) => self.at(InitPhase::Divider),
                Step::Done(Err(error)) => self.fail(error),
            },
            InitPhase::Divider => self.at(InitPhase::ClockOn),
            InitPhase::ClockOn => self.at(InitPhase::LatchOn(latch())),
            InitPhase::LatchOn(send) => match send.next(reply) {
                Step::Next(send) => self.at(InitPhase::LatchOn(send)),
                Step::Done(Ok(_)) => self.at(InitPhase::ClockSettle),
                Step::Done(Err(error)) => self.fail(error),
            },
            InitPhase::ClockSettle => self.at(InitPhase::Power),
            InitPhase::Power => self.at(InitPhase::PowerSettle),
            InitPhase::PowerSettle => self.at(InitPhase::BusWidth),
            InitPhase::BusWidth => self.at(InitPhase::StopEngine),
            InitPhase::StopEngine => self.at(InitPhase::ResetInterface),
            InitPhase::ResetInterface => self.at(
                InitPhase::GoIdle(plain(CommandKind::GoIdleState, 0)),
            ),
            InitPhase::GoIdle(send) => match send.next(reply) {
                Step::Next(send) => self.at(InitPhase::GoIdle(send)),
                Step::Done(result) => self.after_go_idle(result),
            },
            InitPhase::IfCond(send) => match send.next(reply) {
                Step::Next(send) => self.at(InitPhase::IfCond(send)),
                Step::Done(Ok(response)) => if if_cond_accepted(response[0]) {
                    self.at(InitPhase::OpCondStart)
                } else {
                    self.fail(SdMmcError::UnsupportedCard)
                },
                Step::Done(Err(_)) => self.fail(SdMmcError::UnsupportedCard),
            },
            InitPhase::OpCondStart => self.at(
                InitPhase::OpCondClock { deadline: reply.time().saturating_add(OP_COND_TIMEOUT) },
            ),
            InitPhase::OpCondClock { deadline } => if reply.time() < deadline {
                self.at(InitPhase::OpCondApp { send: plain(CommandKind::AppCmd, 0), deadline })
            } else {
                self.fail(SdMmcError::InitializationFailed)
            },
            InitPhase::OpCondApp { send, deadline } => match send.next(reply) {
                Step::Next(send) => self.at(InitPhase::OpCondApp { send, deadline }),
                Step::Done(Ok(_)) => self.at(
                    InitPhase::OpCond {
                        send: plain(CommandKind::SdSendOpCond, OP_COND),
                        deadline,
                    },
                ),
                Step::Done(Err(_)) => self.at(InitPhase::OpCondPause { deadline }),
            },
            InitPhase::OpCond { send, deadline } => match send.next(reply) {
                Step::Next(send) => self.at(InitPhase::OpCond { send, deadline }),
                Step::Done(result) => self.after_op_cond(result, deadline),
            },
            InitPhase::OpCondPause { deadline } => self.at(InitPhase::OpCondClock { deadline }),
            InitPhase::AllSendCid(send) => match send.next(reply) {
                Step::Next(send) => self.at(InitPhase::AllSendCid(send)),
                Step::Done(Ok(response)) => self.at(
                    InitPhase::RelativeAddr {
                        send: plain(CommandKind::SendRelativeAddr, 0),
                        cid: decode_cid(response),
                    },
                ),
                Step::Done(Err(error)) => self.fail(error),
            },
            InitPhase::RelativeAddr { send, cid } => match send.next(reply) {
                Step::Next(send) => self.at(InitPhase::RelativeAddr { send, cid }),
                Step::Done(Ok(response)) => self.after_relative_addr(response, cid),
                Step::Done(Err(error)) => self.fail(error),
            },
            InitPhase::SendCsd { send, cid, rca } => match send.next(reply) {
                Step::Next(send) => self.at(InitPhase::SendCsd { send, cid, rca }),
                Step::Done(Ok(response)) => self.after_csd(response, cid, rca),
                Step::Done(Err(error)) => self.fail(error),
            },
            InitPhase::Select { send, card } => match send.next(reply) {
                Step::Next(send) => self.at(InitPhase::Select { send, card }),
                Step::Done(Ok(_)) => self.at(
                    InitPhase::ScrApp {
                        send: plain(CommandKind::AppCmd, rca_arg(card.rca)),
                        card,
                    },
                ),
                Step::Done(Err(error)) => self.fail(error),
            },
            InitPhase::ScrApp { send, card } => match send.next(reply) {
                Step::Next(send) => self.at(InitPhase::ScrApp { send, card }),
                Step::Done(Ok(_)) => self.at(InitPhase::ScrBlockSize(card)),
                Step::Done(Err(error)) => self.fail(error),
            },
            InitPhase::ScrBlockSize(card) => self.at(InitPhase::ScrByteCount(card)),
            InitPhase::ScrByteCount(card) => self.at(
                InitPhase::Scr { send: Init::send_scr(), card },
            ),
            InitPhase::Scr { send, card } => match send.next(reply) {
                Step::Next(send) => self.at(InitPhase::Scr { send, card }),
                Step::Done(Ok(_)) => self.at(
                    InitPhase::ClearFinal(Card { scr_read: true, ..card }),
                ),
                Step::Done(Err(_)) => self.at(InitPhase::ClearFinal(card)),
            },
            InitPhase::ClearFinal(card) => self.at(
                InitPhase::Switch {
                    switch: SwitchClock::new(DEFAULT_SPEED_CLOCK_DIVIDER),
                    card,
                },
            ),
            InitPhase::Switch { switch, card } => match switch.next(reply) {
                Step::Next(switch) => self.at(InitPhase::Switch { switch, card }),
                Step::Done(true) => Step::Done(Ok(card)),
                Step::Done(false) => self.fail(SdMmcError::InitializationFailed),
            },
        }
    }

    fn step(self, reply: Reply) -> (step: Step<Self, SdMmcResult<Card>>) {
        match self.phase {
            InitPhase::ClearStale => self.at(InitPhase::ClockOff),
            InitPhase::ClockOff => self.at(InitPhase::LatchOff(latch())),
            InitPhase::LatchOff(send) => match send.step(reply) {
                Step::Next(send) => self.at(InitPhase::LatchOff(send)),
                Step::Done(Ok(_)) => self.at(InitPhase::Divider),
                Step::Done(Err(error)) => self.fail(error),
            },
            InitPhase::Divider => self.at(InitPhase::ClockOn),
            InitPhase::ClockOn => self.at(InitPhase::LatchOn(latch())),
            InitPhase::LatchOn(send) => match send.step(reply) {
                Step::Next(send) => self.at(InitPhase::LatchOn(send)),
                Step::Done(Ok(_)) => self.at(InitPhase::ClockSettle),
                Step::Done(Err(error)) => self.fail(error),
            },
            InitPhase::ClockSettle => self.at(InitPhase::Power),
            InitPhase::Power => self.at(InitPhase::PowerSettle),
            InitPhase::PowerSettle => self.at(InitPhase::BusWidth),
            InitPhase::BusWidth => self.at(InitPhase::StopEngine),
            InitPhase::StopEngine => self.at(InitPhase::ResetInterface),
            InitPhase::ResetInterface => self.at(
                InitPhase::GoIdle(plain(CommandKind::GoIdleState, 0)),
            ),
            InitPhase::GoIdle(send) => match send.step(reply) {
                Step::Next(send) => self.at(InitPhase::GoIdle(send)),
                Step::Done(result) => self.after_go_idle(result),
            },
            InitPhase::IfCond(send) => match send.step(reply) {
                Step::Next(send) => self.at(InitPhase::IfCond(send)),
                Step::Done(Ok(response)) => if if_cond_accepted(response[0]) {
                    self.at(InitPhase::OpCondStart)
                } else {
                    self.fail(SdMmcError::UnsupportedCard)
                },
                Step::Done(Err(_)) => self.fail(SdMmcError::UnsupportedCard),
            },
            InitPhase::OpCondStart => self.at(
                InitPhase::OpCondClock { deadline: reply.time().saturating_add(OP_COND_TIMEOUT) },
            ),
            InitPhase::OpCondClock { deadline } => if reply.time() < deadline {
                self.at(InitPhase::OpCondApp { send: plain(CommandKind::AppCmd, 0), deadline })
            } else {
                self.fail(SdMmcError::InitializationFailed)
            },
            InitPhase::OpCondApp { send, deadline } => match send.step(reply) {
                Step::Next(send) => self.at(InitPhase::OpCondApp { send, deadline }),
                Step::Done(Ok(_)) => self.at(
                    InitPhase::OpCond {
                        send: plain(CommandKind::SdSendOpCond, OP_COND),
                        deadline,
                    },
                ),
                Step::Done(Err(_)) => self.at(InitPhase::OpCondPause { deadline }),
            },
            InitPhase::OpCond { send, deadline } => match send.step(reply) {
                Step::Next(send) => self.at(InitPhase::OpCond { send, deadline }),
                Step::Done(result) => self.after_op_cond(result, deadline),
            },
            InitPhase::OpCondPause { deadline } => self.at(InitPhase::OpCondClock { deadline }),
            InitPhase::AllSendCid(send) => match send.step(reply) {
                Step::Next(send) => self.at(InitPhase::AllSendCid(send)),
                Step::Done(Ok(response)) => self.at(
                    InitPhase::RelativeAddr {
                        send: plain(CommandKind::SendRelativeAddr, 0),
                        cid: decode_cid(response),
                    },
                ),
                Step::Done(Err(error)) => self.fail(error),
            },
            InitPhase::RelativeAddr { send, cid } => match send.step(reply) {
                Step::Next(send) => self.at(InitPhase::RelativeAddr { send, cid }),
                Step::Done(Ok(response)) => self.after_relative_addr(response, cid),
                Step::Done(Err(error)) => self.fail(error),
            },
            InitPhase::SendCsd { send, cid, rca } => match send.step(reply) {
                Step::Next(send) => self.at(InitPhase::SendCsd { send, cid, rca }),
                Step::Done(Ok(response)) => self.after_csd(response, cid, rca),
                Step::Done(Err(error)) => self.fail(error),
            },
            InitPhase::Select { send, card } => match send.step(reply) {
                Step::Next(send) => self.at(InitPhase::Select { send, card }),
                Step::Done(Ok(_)) => self.at(
                    InitPhase::ScrApp {
                        send: plain(CommandKind::AppCmd, rca_arg(card.rca)),
                        card,
                    },
                ),
                Step::Done(Err(error)) => self.fail(error),
            },
            InitPhase::ScrApp { send, card } => match send.step(reply) {
                Step::Next(send) => self.at(InitPhase::ScrApp { send, card }),
                Step::Done(Ok(_)) => self.at(InitPhase::ScrBlockSize(card)),
                Step::Done(Err(error)) => self.fail(error),
            },
            InitPhase::ScrBlockSize(card) => self.at(InitPhase::ScrByteCount(card)),
            InitPhase::ScrByteCount(card) => self.at(
                InitPhase::Scr { send: Init::send_scr(), card },
            ),
            InitPhase::Scr { send, card } => match send.step(reply) {
                Step::Next(send) => self.at(InitPhase::Scr { send, card }),
                Step::Done(Ok(_)) => self.at(
                    InitPhase::ClearFinal(Card { scr_read: true, ..card }),
                ),
                Step::Done(Err(_)) => self.at(InitPhase::ClearFinal(card)),
            },
            InitPhase::ClearFinal(card) => self.at(
                InitPhase::Switch {
                    switch: SwitchClock::new(DEFAULT_SPEED_CLOCK_DIVIDER),
                    card,
                },
            ),
            InitPhase::Switch { switch, card } => match switch.step(reply) {
                Step::Next(switch) => self.at(InitPhase::Switch { switch, card }),
                Step::Done(true) => Step::Done(Ok(card)),
                Step::Done(false) => self.fail(SdMmcError::InitializationFailed),
            },
        }
    }
}

/// What is known of the card at every point of identification.
pub open spec fn card_known(at: Step<Init, SdMmcResult<Card>>) -> bool {
    match at {
        Step::Done(Ok(card)) => card.supported(),
        Step::Done(Err(_)) => true,
        Step::Next(m) => match m.phase {
            InitPhase::SendCsd { rca, .. } => rca != 0,
            InitPhase::Select { card, .. } => card.supported(),
            InitPhase::ScrApp { card, .. } => card.supported(),
            InitPhase::ScrBlockSize(card) => card.supported(),
            InitPhase::ScrByteCount(card) => card.supported(),
            InitPhase::Scr { card, .. } => card.supported(),
            InitPhase::ClearFinal(card) => card.supported(),
            InitPhase::Switch { card, .. } => card.supported(),
            _ => true,
        },
    }
}

impl Card {
    /// The card is one that the driver supports: addressed by blocks, described
    /// by a CSD of version 2 from which its capacity is taken, and reachable
    /// under an address of its own.
    pub open spec fn supported(self) -> bool {
        &&& self.ocr_ccs
        &&& self.rca != 0
        &&& self.csd.csd_structure() == 1
        &&& self.num_blocks == (self.csd.c_size() + 1) * 1024
    }
}

pub proof fn lemma_card_known(m: Init, reply: Reply)
    requires
        card_known(Step::Next(m)),
    ensures
        card_known(m.next(reply)),
{
    match m.phase {
        InitPhase::RelativeAddr { send, cid } => {
            if let Step::Done(Ok(response)) = send.next(reply) {
                lemma_rca_known(m, response, cid);
            }
        },
        InitPhase::SendCsd { send, cid, rca } => {
            if let Step::Done(Ok(response)) = send.next(reply) {
                lemma_csd_known(m, response, cid, rca);
            }
        },
        _ => {},
    }
}

proof fn lemma_rca_known(m: Init, response: [u32; 4], cid: Cid)
    ensures
        card_known(m.after_relative_addr(response, cid)),
{
}

proof fn lemma_csd_known(m: Init, response: [u32; 4], cid: Cid, rca: u16)
    requires
        rca != 0,
    ensures
        card_known(m.after_csd(response, cid, rca)),
{
}

/// Identification succeeds only with a supported card: one of high capacity
/// with a CSD of version 2 and a relative address other than 0.
pub proof fn law_init_accepts_only_supported_cards(replies: Seq<Reply>)
    ensures
        crate::io::run(Step::Next(Init::new()), replies).at matches Step::Done(Ok(card))
            ==> card.supported(),
{
    let start = Step::<Init, SdMmcResult<Card>>::Next(Init::new());
    let inv = |trace: Seq<(Op, Reply)>, at: Step<Init, SdMmcResult<Card>>| card_known(at);
    assert forall|trace: Seq<(Op, Reply)>, m: Init, reply: Reply|
        inv(trace, Step::Next(m)) implies #[trigger] inv(
        trace.push((m.op(), reply)),
        m.next(reply),
    ) by {
        lemma_card_known(m, reply);
    }
    crate::io::lemma_run_invariant(start, replies, inv);
}

/// Every application command in a sequence of commands directly follows CMD55.
pub open spec fn app_commands_announced(words: Seq<u32>) -> bool {
    forall|k: int|
        0 <= k < words.len() && ((#[trigger] words[k]) == CommandKind::SdSendOpCond.word().0
            || words[k] == CommandKind::SendScr.word().0) ==> k > 0 && words[k - 1]
            == CommandKind::AppCmd.word().0
}

/// A command of this kind is under way; it is the last of the commands if it
/// was submitted already.
pub open spec fn under_way(words: Seq<u32>, send: SendCmd, kind: CommandKind) -> bool {
    &&& send.request.kind == kind
    &&& send.phase.before_submission() || (words.len() > 0 && words.last() == kind.word().0)
}

/// CMD55 was the last command, or the one before the command under way.
pub open spec fn announced(words: Seq<u32>, send: SendCmd, kind: CommandKind) -> bool {
    &&& send.request.kind == kind
    &&& send.phase.before_submission() ==> words.len() > 0 && words.last()
        == CommandKind::AppCmd.word().0
}

/// The commands of identification so far.
pub open spec fn protocol_invariant(
    trace: Seq<(Op, Reply)>,
    at: Step<Init, SdMmcResult<Card>>,
) -> bool {
    let words = crate::trace::commands(trace);
    &&& app_commands_announced(words)
    &&& at matches Step::Next(m) ==> match m.phase {
        InitPhase::LatchOff(send) => under_way(words, send, CommandKind::ResetClock),
        InitPhase::LatchOn(send) => under_way(words, send, CommandKind::ResetClock),
        InitPhase::GoIdle(send) => under_way(words, send, CommandKind::GoIdleState),
        InitPhase::IfCond(send) => under_way(words, send, CommandKind::SendIfCond),
        InitPhase::OpCondApp { send, .. } => under_way(words, send, CommandKind::AppCmd),
        InitPhase::OpCond { send, .. } => announced(words, send, CommandKind::SdSendOpCond),
        InitPhase::AllSendCid(send) => under_way(words, send, CommandKind::AllSendCid),
        InitPhase::RelativeAddr { send, .. } => {
            under_way(words, send, CommandKind::SendRelativeAddr)
        },
        InitPhase::SendCsd { send, .. } => under_way(words, send, CommandKind::SendCsd),
        InitPhase::Select { send, .. } => under_way(words, send, CommandKind::SelectCard),
        InitPhase::ScrApp { send, .. } => under_way(words, send, CommandKind::AppCmd),
        InitPhase::ScrBlockSize(_) => words.len() > 0 && words.last()
            == CommandKind::AppCmd.word().0,
        InitPhase::ScrByteCount(_) => words.len() > 0 && words.last()
            == CommandKind::AppCmd.word().0,
        InitPhase::Scr { send, .. } => announced(words, send, CommandKind::SendScr),
        InitPhase::Switch { switch, .. } => crate::clock::switching(switch),
        _ => true,
    }
}

/// The submission of a command adds its word, every other operation of its
/// submission adds nothing; a command that was answered has been submitted.
proof fn lemma_send_commands(trace: Seq<(Op, Reply)>, send: SendCmd, reply: Reply)
    ensures
        ({
            let after = crate::trace::commands(trace.push((send.op(), reply)));
            let words = crate::trace::commands(trace);
            &&& after == (if send.phase is WriteCmd {
                words.push(send.request.kind.word().0)
            } else {
                words
            })
            &&& send.next(reply) matches Step::Next(m) ==> {
                &&& m.request == send.request
                &&& m.phase.before_submission() ==> send.phase.before_submission() && !(
                send.phase is WriteCmd)
                &&& !m.phase.before_submission() ==> !send.phase.before_submission()
                    || send.phase is WriteCmd
            }
            &&& send.next(reply) matches Step::Done(Ok(_)) ==> !send.phase.before_submission()
        }),
{
    assert(trace.push((send.op(), reply)).drop_last() =~= trace);
}

proof fn lemma_protocol_step(trace: Seq<(Op, Reply)>, m: Init, reply: Reply)
    requires
        protocol_invariant(trace, Step::Next(m)),
    ensures
        protocol_invariant(trace.push((m.op(), reply)), m.next(reply)),
{
    assert(trace.push((m.op(), reply)).drop_last() =~= trace);
    match m.phase {
        InitPhase::LatchOff(send) => lemma_send_commands(trace, send, reply),
        InitPhase::LatchOn(send) => lemma_send_commands(trace, send, reply),
        InitPhase::GoIdle(send) => lemma_send_commands(trace, send, reply),
        InitPhase::IfCond(send) => lemma_send_commands(trace, send, reply),
        InitPhase::OpCondApp { send, .. } => lemma_send_commands(trace, send, reply),
        InitPhase::OpCond { send, .. } => lemma_send_commands(trace, send, reply),
        InitPhase::AllSendCid(send) => lemma_send_commands(trace, send, reply),
        InitPhase::RelativeAddr { send, .. } => lemma_send_commands(trace, send, reply),
        InitPhase::SendCsd { send, .. } => lemma_send_commands(trace, send, reply),
        InitPhase::Select { send, .. } => lemma_send_commands(trace, send, reply),
        InitPhase::ScrApp { send, .. } => lemma_send_commands(trace, send, reply),
        InitPhase::Scr { send, .. } => lemma_send_commands(trace, send, reply),
        InitPhase::Switch { switch, .. } => crate::clock::lemma_switching(switch, reply),
        _ => {},
    }
}

/// During identification every application command (ACMD41, ACMD51) is sent
/// directly after CMD55.
pub proof fn law_init_announces_app_commands(replies: Seq<Reply>)
    ensures
        app_commands_announced(
            crate::trace::commands(crate::io::run(Step::Next(Init::new()), replies).trace),
        ),
{
    let start = Step::<Init, SdMmcResult<Card>>::Next(Init::new());
    let inv = |trace: Seq<(Op, Reply)>, at: Step<Init, SdMmcResult<Card>>|
        protocol_invariant(trace, at);
    assert forall|trace: Seq<(Op, Reply)>, m: Init, reply: Reply|
        inv(trace, Step::Next(m)) implies #[trigger] inv(
        trace.push((m.op(), reply)),
        m.next(reply),
    ) by {
        lemma_protocol_step(trace, m, reply);
    }
    crate::io::lemma_run_invariant(start, replies, inv);
}

} // verus!
