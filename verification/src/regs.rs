//! Registers of the DesignWare mobile storage host controller.
//!
//! Every register is a 32-bit word. Each type here wraps the word of one
//! register and names the bits that the driver reads or programs.

use vstd::prelude::*;

verus! {

/// Registers of the controller that the driver accesses.
#[derive(Clone, Copy, Debug, PartialEq, Eq, Structural)]
pub enum Reg {
    /// Control.
    Ctrl,
    /// Card power enable.
    PwrEn,
    /// Card clock divider.
    ClkDiv,
    /// Card clock enable.
    ClkEna,
    /// Card bus width.
    CType,
    /// Block size.
    BlkSiz,
    /// Byte count of the data phase.
    BytCnt,
    /// Interrupt mask.
    IntMask,
    /// Command argument.
    CmdArg,
    /// Command.
    Cmd,
    /// Raw interrupt status, write one to clear.
    RIntSts,
    /// Controller status.
    Status,
    /// Hardware configuration.
    HCon,
    /// Bus mode of the internal DMA controller.
    BMod,
    /// Poll demand of the internal DMA controller.
    PldMnd,
    /// Address of the first DMA descriptor.
    DbAddr,
    /// Status of the internal DMA controller, write one to clear.
    IdSts,
    /// Interrupt enable of the internal DMA controller.
    IdIntEn,
}

impl Reg {
    /// Byte offset of the register from the controller's base address.
    #[verifier::allow_in_spec]
    pub fn offset(self) -> usize
        returns
            (match self {
                Reg::Ctrl => 0x000usize,
                Reg::PwrEn => 0x004,
                Reg::ClkDiv => 0x008,
                Reg::ClkEna => 0x010,
                Reg::CType => 0x018,
                Reg::BlkSiz => 0x01c,
                Reg::BytCnt => 0x020,
                Reg::IntMask => 0x024,
                Reg::CmdArg => 0x028,
                Reg::Cmd => 0x02c,
                Reg::RIntSts => 0x044,
                Reg::Status => 0x048,
                Reg::HCon => 0x070,
                Reg::BMod => 0x080,
                Reg::PldMnd => 0x084,
                Reg::DbAddr => 0x088,
                Reg::IdSts => 0x08c,
                Reg::IdIntEn => 0x090,
            }),
    {
        match self {
            Reg::Ctrl => 0x000,
            Reg::PwrEn => 0x004,
            Reg::ClkDiv => 0x008,
            Reg::ClkEna => 0x010,
            Reg::CType => 0x018,
            Reg::BlkSiz => 0x01c,
            Reg::BytCnt => 0x020,
            Reg::IntMask => 0x024,
            Reg::CmdArg => 0x028,
            Reg::Cmd => 0x02c,
            Reg::RIntSts => 0x044,
            Reg::Status => 0x048,
            Reg::HCon => 0x070,
            Reg::BMod => 0x080,
            Reg::PldMnd => 0x084,
            Reg::DbAddr => 0x088,
            Reg::IdSts => 0x08c,
            Reg::IdIntEn => 0x090,
        }
    }
}

/// Offset of the first of the four response registers.
pub const RESPONSE_OFFSET: usize = 0x030;

/// Offset of the data FIFO.
pub const FIFO_OFFSET: usize = 0x200;

/// The word that a read-modify-write leaves behind: the bits of `clear` are
/// reset, then the bits of `set` are set.
#[verifier::allow_in_spec]
pub fn updated(word: u32, clear: u32, set: u32) -> u32
    returns
        (word & !clear) | set,
{
    (word & !clear) | set
}

/// Command register.
#[derive(Clone, Copy, Debug, PartialEq, Eq, Structural)]
pub struct Cmd(pub u32);

impl Cmd {
    /// The command is waiting to be taken by the controller.
    pub const START_CMD: u32 = 0x8000_0000;
    /// Commands pass through the hold register.
    pub const USE_HOLD_REG: u32 = 0x2000_0000;
    /// Only the clock registers are updated, nothing is sent to the card.
    pub const UPDATE_CLOCK: u32 = 0x0020_0000;
    /// The initialization sequence precedes the command.
    pub const SEND_INITIALIZATION: u32 = 0x0000_8000;
    /// The controller appends a stop command to the data phase.
    pub const SEND_AUTO_STOP: u32 = 0x0000_1000;
    /// The data phase writes to the card.
    pub const READ_WRITE: u32 = 0x0000_0400;
    /// The command has a data phase.
    pub const DATA_EXPECTED: u32 = 0x0000_0200;
    /// The response carries a CRC to be checked.
    pub const CHECK_RESPONSE_CRC: u32 = 0x0000_0100;
    /// The response is a long one.
    pub const RESPONSE_LENGTH: u32 = 0x0000_0080;
    /// The card answers the command.
    pub const RESPONSE_EXPECT: u32 = 0x0000_0040;
    /// Bits that hold the command index.
    pub const INDEX_MASK: u32 = 0x0000_003f;

    /// A command word that only asks the controller to start.
    #[verifier::allow_in_spec]
    pub fn start() -> Cmd
        returns
            Cmd(Cmd::START_CMD),
    {
        Cmd(Self::START_CMD)
    }

    /// Sets every bit of `mask`.
    #[verifier::allow_in_spec]
    pub fn with(self, mask: u32) -> Cmd
        returns
            Cmd(self.0 | mask),
    {
        Cmd(self.0 | mask)
    }

    /// Stores the command index.
    pub fn with_cmd_index(self, index: u8) -> (cmd: Cmd)
        requires
            index < 64,
        ensures
            cmd == Cmd((self.0 & !Cmd::INDEX_MASK) | index as u32),
    {
        Cmd((self.0 & !Self::INDEX_MASK) | index as u32)
    }

    /// A bit of `mask` is set.
    pub open spec fn has(self, mask: u32) -> bool {
        self.0 & mask != 0
    }

    /// Command index.
    #[verifier::allow_in_spec]
    pub fn cmd_index(self) -> u32
        returns
            self.0 & Cmd::INDEX_MASK,
    {
        self.0 & Self::INDEX_MASK
    }

    /// The controller has not taken the command yet.
    #[verifier::allow_in_spec]
    pub fn start_cmd(self) -> bool
        returns
            self.0 & Cmd::START_CMD != 0u32,
    {
        self.0 & Self::START_CMD != 0
    }

    /// The command has a data phase.
    #[verifier::allow_in_spec]
    pub fn data_expected(self) -> bool
        returns
            self.0 & Cmd::DATA_EXPECTED != 0u32,
    {
        self.0 & Self::DATA_EXPECTED != 0
    }

    /// The card answers the command.
    #[verifier::allow_in_spec]
    pub fn response_expect(self) -> bool
        returns
            self.0 & Cmd::RESPONSE_EXPECT != 0u32,
    {
        self.0 & Self::RESPONSE_EXPECT != 0
    }

    /// The controller appends a stop command to the data phase.
    #[verifier::allow_in_spec]
    pub fn send_auto_stop(self) -> bool
        returns
            self.0 & Cmd::SEND_AUTO_STOP != 0u32,
    {
        self.0 & Self::SEND_AUTO_STOP != 0
    }

    /// The data phase writes to the card.
    #[verifier::allow_in_spec]
    pub fn read_write(self) -> bool
        returns
            self.0 & Cmd::READ_WRITE != 0u32,
    {
        self.0 & Self::READ_WRITE != 0
    }
}

/// Raw interrupt status.
#[derive(Clone, Copy, Debug, PartialEq, Eq, Structural)]
pub struct RIntSts(pub u32);

impl RIntSts {
    /// End-bit error, or no CRC status after a write.
    pub const END_BIT_ERROR: u32 = 0x8000;
    /// The automatic stop command is done.
    pub const AUTO_COMMAND_DONE: u32 = 0x4000;
    /// Start-bit error.
    pub const START_BIT_ERROR: u32 = 0x2000;
    /// A register was written while it was locked.
    pub const HARDWARE_LOCKED_WRITE: u32 = 0x1000;
    /// FIFO underrun or overrun.
    pub const FIFO_UNDER_OVER_RUN: u32 = 0x0800;
    /// The host did not serve the FIFO in time.
    pub const HOST_TIMEOUT: u32 = 0x0400;
    /// The card did not send its data in time.
    pub const DATA_READ_TIMEOUT: u32 = 0x0200;
    /// The card did not answer in time.
    pub const RESPONSE_TIMEOUT: u32 = 0x0100;
    /// CRC error in the data.
    pub const DATA_CRC_ERROR: u32 = 0x0080;
    /// CRC error in the response.
    pub const RESPONSE_CRC_ERROR: u32 = 0x0040;
    /// The receive FIFO holds data.
    pub const RECEIVE_FIFO_DATA_REQUEST: u32 = 0x0020;
    /// The transmit FIFO takes data.
    pub const TRANSMIT_FIFO_DATA_REQUEST: u32 = 0x0010;
    /// The data phase is over.
    pub const DATA_TRANSFER_OVER: u32 = 0x0008;
    /// The command phase is over.
    pub const COMMAND_DONE: u32 = 0x0004;
    /// The response is malformed.
    pub const RESPONSE_ERROR: u32 = 0x0002;
    /// Every bit that reports an error.
    pub const ERRORS: u32 = 0xbfc2;

    /// The controller or the card reported an error.
    #[verifier::allow_in_spec]
    pub fn error(self) -> bool
        returns
            self.0 & RIntSts::ERRORS != 0u32,
    {
        self.0 & Self::ERRORS != 0
    }

    /// The automatic stop command is done.
    #[verifier::allow_in_spec]
    pub fn auto_command_done(self) -> bool
        returns
            self.0 & RIntSts::AUTO_COMMAND_DONE != 0u32,
    {
        self.0 & Self::AUTO_COMMAND_DONE != 0
    }

    /// The card did not send its data in time.
    #[verifier::allow_in_spec]
    pub fn data_read_timeout(self) -> bool
        returns
            self.0 & RIntSts::DATA_READ_TIMEOUT != 0u32,
    {
        self.0 & Self::DATA_READ_TIMEOUT != 0
    }

    /// The receive FIFO holds data.
    #[verifier::allow_in_spec]
    pub fn receive_fifo_data_request(self) -> bool
        returns
            self.0 & RIntSts::RECEIVE_FIFO_DATA_REQUEST != 0u32,
    {
        self.0 & Self::RECEIVE_FIFO_DATA_REQUEST != 0
    }

    /// The transmit FIFO takes data.
    #[verifier::allow_in_spec]
    pub fn transmit_fifo_data_request(self) -> bool
        returns
            self.0 & RIntSts::TRANSMIT_FIFO_DATA_REQUEST != 0u32,
    {
        self.0 & Self::TRANSMIT_FIFO_DATA_REQUEST != 0
    }

    /// The data phase is over.
    #[verifier::allow_in_spec]
    pub fn data_transfer_over(self) -> bool
        returns
            self.0 & RIntSts::DATA_TRANSFER_OVER != 0u32,
    {
        self.0 & Self::DATA_TRANSFER_OVER != 0
    }

    /// The command phase is over.
    #[verifier::allow_in_spec]
    pub fn command_done(self) -> bool
        returns
            self.0 & RIntSts::COMMAND_DONE != 0u32,
    {
        self.0 & Self::COMMAND_DONE != 0
    }

    /// The command phase is over or failed.
    #[verifier::allow_in_spec]
    pub fn command_finished(self) -> bool
        returns
            self.command_done() || self.error(),
    {
        self.command_done() || self.error()
    }
}

/// Status of the internal DMA controller.
#[derive(Clone, Copy, Debug, PartialEq, Eq, Structural)]
pub struct IdSts(pub u32);

impl IdSts {
    /// Abnormal interrupt summary.
    pub const AIS: u32 = 0x0200;
    /// Normal interrupt summary.
    pub const NIS: u32 = 0x0100;
    /// Card error summary.
    pub const CES: u32 = 0x0020;
    /// Descriptor unavailable.
    pub const DU: u32 = 0x0010;
    /// Fatal bus error.
    pub const FBE: u32 = 0x0004;
    /// Receive interrupt: the data has reached memory.
    pub const RI: u32 = 0x0002;
    /// Transmit interrupt: the data has left memory.
    pub const TI: u32 = 0x0001;
    /// Every event bit.
    pub const EVENTS: u32 = 0x0337;
    /// Every bit that reports an error.
    pub const ERRORS: u32 = 0x0234;
    /// Abnormal summary, unavailable descriptor or fatal bus error.
    pub const ABNORMAL: u32 = 0x0214;

    /// Some event bit is set.
    #[verifier::allow_in_spec]
    pub fn any_event(self) -> bool
        returns
            self.0 & IdSts::EVENTS != 0u32,
    {
        self.0 & Self::EVENTS != 0
    }

    /// Some error bit is set.
    #[verifier::allow_in_spec]
    pub fn error(self) -> bool
        returns
            self.0 & IdSts::ERRORS != 0u32,
    {
        self.0 & Self::ERRORS != 0
    }

    /// The abnormal summary, an unavailable descriptor or a bus error is set.
    #[verifier::allow_in_spec]
    pub fn abnormal(self) -> bool
        returns
            self.0 & IdSts::ABNORMAL != 0u32,
    {
        self.0 & Self::ABNORMAL != 0
    }

    /// State of the engine, bits 16 to 13.
    #[verifier::allow_in_spec]
    pub fn fsm(self) -> u32
        returns
            self.0 / 0x2000 % 16,
    {
        self.0 / 0x2000 % 16
    }

    /// No descriptor was available.
    #[verifier::allow_in_spec]
    pub fn du(self) -> bool
        returns
            self.0 & IdSts::DU != 0u32,
    {
        self.0 & Self::DU != 0
    }

    /// The data has reached memory.
    #[verifier::allow_in_spec]
    pub fn ri(self) -> bool
        returns
            self.0 & IdSts::RI != 0u32,
    {
        self.0 & Self::RI != 0
    }

    /// The data has left memory.
    #[verifier::allow_in_spec]
    pub fn ti(self) -> bool
        returns
            self.0 & IdSts::TI != 0u32,
    {
        self.0 & Self::TI != 0
    }
}

/// Controller status.
#[derive(Clone, Copy, Debug, PartialEq, Eq, Structural)]
pub struct Status(pub u32);

impl Status {
    /// The data state machine is busy.
    pub const DATA_STATE_MC_BUSY: u32 = 0x0400;
    /// The card holds its data line busy.
    pub const DATA_BUSY: u32 = 0x0200;

    /// The card holds its data line busy.
    #[verifier::allow_in_spec]
    pub fn data_busy(self) -> bool
        returns
            self.0 & Status::DATA_BUSY != 0u32,
    {
        self.0 & Self::DATA_BUSY != 0
    }

    /// The data state machine is busy.
    #[verifier::allow_in_spec]
    pub fn data_state_mc_busy(self) -> bool
        returns
            self.0 & Status::DATA_STATE_MC_BUSY != 0u32,
    {
        self.0 & Self::DATA_STATE_MC_BUSY != 0
    }

    /// Neither the card nor the data state machine is busy.
    #[verifier::allow_in_spec]
    pub fn can_send_data(self) -> bool
        returns
            !self.data_busy() && !self.data_state_mc_busy(),
    {
        !self.data_busy() && !self.data_state_mc_busy()
    }

    /// Number of filled FIFO entries, bits 29 to 17.
    #[verifier::allow_in_spec]
    pub fn fifo_count(self) -> u32
        returns
            (self.0 >> 17u32) & 0x1fffu32,
    {
        (self.0 >> 17u32) & 0x1fff
    }
}

/// Control register.
#[derive(Clone, Copy, Debug, PartialEq, Eq, Structural)]
pub struct Ctrl(pub u32);

impl Ctrl {
    /// Data moves through the internal DMA controller.
    pub const USE_INTERNAL_DMAC: u32 = 0x0200_0000;
    /// The interrupt output is enabled.
    pub const INT_ENABLE: u32 = 0x0000_0010;
    /// Resets the DMA interface until the controller clears the bit.
    pub const DMA_RESET: u32 = 0x0000_0004;

    /// Data moves through the internal DMA controller.
    #[verifier::allow_in_spec]
    pub fn use_internal_dmac(self) -> bool
        returns
            self.0 & Ctrl::USE_INTERNAL_DMAC != 0u32,
    {
        self.0 & Self::USE_INTERNAL_DMAC != 0
    }

    /// The interrupt output is enabled.
    #[verifier::allow_in_spec]
    pub fn int_enable(self) -> bool
        returns
            self.0 & Ctrl::INT_ENABLE != 0u32,
    {
        self.0 & Self::INT_ENABLE != 0
    }

    /// The DMA interface is still being reset.
    #[verifier::allow_in_spec]
    pub fn dma_reset(self) -> bool
        returns
            self.0 & Ctrl::DMA_RESET != 0u32,
    {
        self.0 & Self::DMA_RESET != 0
    }
}

/// Bus mode of the internal DMA controller.
#[derive(Clone, Copy, Debug, PartialEq, Eq, Structural)]
pub struct BMod(pub u32);

impl BMod {
    /// The internal DMA controller is enabled.
    pub const DE: u32 = 0x80;
    /// Descriptor skip length.
    pub const DSL_MASK: u32 = 0x7c;
    /// Fixed bursts.
    pub const FB: u32 = 0x02;
    /// Software reset, cleared by the controller.
    pub const SWR: u32 = 0x01;

    /// The internal DMA controller is enabled.
    #[verifier::allow_in_spec]
    pub fn de(self) -> bool
        returns
            self.0 & BMod::DE != 0u32,
    {
        self.0 & Self::DE != 0
    }

    /// Descriptors follow each other without a gap.
    #[verifier::allow_in_spec]
    pub fn no_skip(self) -> bool
        returns
            self.0 & BMod::DSL_MASK == 0u32,
    {
        self.0 & Self::DSL_MASK == 0
    }

    /// Bursts are fixed.
    #[verifier::allow_in_spec]
    pub fn fb(self) -> bool
        returns
            self.0 & BMod::FB != 0u32,
    {
        self.0 & Self::FB != 0
    }

    /// The software reset is still under way.
    #[verifier::allow_in_spec]
    pub fn swr(self) -> bool
        returns
            self.0 & BMod::SWR != 0u32,
    {
        self.0 & Self::SWR != 0
    }
}

/// Hardware configuration.
#[derive(Clone, Copy, Debug, PartialEq, Eq, Structural)]
pub struct HCon(pub u32);

impl HCon {
    /// Code of the host data width, bits 9 to 7.
    #[verifier::allow_in_spec]
    pub fn h_data_width(self) -> u32
        returns
            (self.0 >> 7u32) & 0x7u32,
    {
        (self.0 >> 7u32) & 0x7
    }
}

/// Card clock divider.
#[derive(Clone, Copy, Debug, PartialEq, Eq, Structural)]
pub struct ClkDiv(pub u32);

impl ClkDiv {
    /// Divider of the first clock, bits 7 to 0.
    #[verifier::allow_in_spec]
    pub fn clk_divider0(self) -> u32
        returns
            self.0 & 0xffu32,
    {
        self.0 & 0xff
    }
}

/// Card clock enable.
#[derive(Clone, Copy, Debug, PartialEq, Eq, Structural)]
pub struct ClkEna(pub u32);

impl ClkEna {
    /// The clock of the first card runs.
    pub const CARD0: u32 = 1;

    /// The clock of the first card runs.
    #[verifier::allow_in_spec]
    pub fn card0_enabled(self) -> bool
        returns
            self.0 & ClkEna::CARD0 != 0u32,
    {
        self.0 & Self::CARD0 != 0
    }
}

/// Block size register.
#[derive(Clone, Copy, Debug, PartialEq, Eq, Structural)]
pub struct BlkSiz(pub u32);

impl BlkSiz {
    /// Bits that hold the block size.
    pub const SIZE_MASK: u32 = 0xffff;
}

/// Interrupt mask. A set bit lets the event of the same position in the raw
/// interrupt status raise an interrupt.
#[derive(Clone, Copy, Debug, PartialEq, Eq, Structural)]
pub struct IntMask(pub u32);

/// Interrupt enable of the internal DMA controller.
#[derive(Clone, Copy, Debug, PartialEq, Eq, Structural)]
pub struct IdIntEn(pub u32);

impl IdIntEn {
    /// Every interrupt that the driver listens to: the abnormal and normal
    /// summaries, card error, unavailable descriptor, bus error, receive and
    /// transmit.
    pub const ALL: u32 = 0x0337;

    /// Every interrupt that the driver listens to is enabled.
    #[verifier::allow_in_spec]
    pub fn all_enabled(self) -> bool
        returns
            self.0 & IdIntEn::ALL == IdIntEn::ALL,
    {
        self.0 & Self::ALL == Self::ALL
    }
}

} // verus!
