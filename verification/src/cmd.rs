//! Commands of the SD protocol and the words that submit them.

use vstd::prelude::*;

use crate::regs::Cmd;

verus! {

/// A command for the card, with the buffer of its data phase.
pub enum Command<'a> {
    /// CMD0
    GoIdleState,
    /// CMD2
    AllSendCid,
    /// CMD3
    SendRelativeAddr,
    /// CMD7
    SelectCard(u32),
    /// CMD8
    SendIfCond(u32),
    /// CMD9
    SendCsd(u32),
    /// CMD13
    SendStatus(u32),
    /// CMD17
    ReadSingleBlock(u32, &'a mut [u8]),
    /// CMD18
    ReadMultipleBlocks(u32, &'a mut [u8]),
    /// CMD24
    WriteSingleBlock(u32, &'a [u8]),
    /// CMD25
    WriteMultipleBlocks(u32, &'a [u8]),
    /// ACMD41
    SdSendOpCond(u32),
    /// ACMD51
    SendScr(&'a mut [u8]),
    /// CMD55
    AppCmd(u32),
    /// Pseudo-command that latches the clock registers; nothing is sent to the
    /// card.
    ResetClock,
}

/// The buffer of a data phase and its direction.
pub enum DataXfer<'a> {
    /// Data from the card.
    Read(&'a mut [u8]),
    /// Data to the card.
    Write(&'a [u8]),
}

/// The kind of a command, without its argument and buffer.
#[derive(Clone, Copy, Debug, PartialEq, Eq, Structural)]
pub enum CommandKind {
    /// CMD0
    GoIdleState,
    /// CMD2
    AllSendCid,
    /// CMD3
    SendRelativeAddr,
    /// CMD7
    SelectCard,
    /// CMD8
    SendIfCond,
    /// CMD9
    SendCsd,
    /// CMD13
    SendStatus,
    /// CMD17
    ReadSingleBlock,
    /// CMD18
    ReadMultipleBlocks,
    /// CMD24
    WriteSingleBlock,
    /// CMD25
    WriteMultipleBlocks,
    /// ACMD41
    SdSendOpCond,
    /// ACMD51
    SendScr,
    /// CMD55
    AppCmd,
    /// Latches the clock registers.
    ResetClock,
}

/// Direction and length of a data phase.
#[derive(Clone, Copy, Debug, PartialEq, Eq, Structural)]
pub enum DataPhase {
    /// No data phase.
    Nothing,
    /// This many bytes come from the card.
    Read(usize),
    /// This many bytes go to the card.
    Write(usize),
}

impl DataPhase {
    /// Number of bytes.
    #[verifier::allow_in_spec]
    pub fn len(self) -> usize
        returns
            (match self {
                DataPhase::Nothing => 0usize,
                DataPhase::Read(len) => len,
                DataPhase::Write(len) => len,
            }),
    {
        match self {
            DataPhase::Nothing => 0,
            DataPhase::Read(len) => len,
            DataPhase::Write(len) => len,
        }
    }
}

/// Everything about a command that its submission depends on.
#[derive(Clone, Copy, Debug, PartialEq, Eq, Structural)]
pub struct Request {
    /// The kind of the command.
    pub kind: CommandKind,
    /// The command argument.
    pub arg: u32,
    /// The data phase.
    pub data: DataPhase,
}

impl CommandKind {
    /// Number of the command. The clock pseudo-command has none and reports 0.
    #[verifier::allow_in_spec]
    pub fn cmd_index(self) -> u8
        returns
            (match self {
                CommandKind::GoIdleState => 0u8,
                CommandKind::AllSendCid => 2,
                CommandKind::SendRelativeAddr => 3,
                CommandKind::SelectCard => 7,
                CommandKind::SendIfCond => 8,
                CommandKind::SendCsd => 9,
                CommandKind::SendStatus => 13,
                CommandKind::ReadSingleBlock => 17,
                CommandKind::ReadMultipleBlocks => 18,
                CommandKind::WriteSingleBlock => 24,
                CommandKind::WriteMultipleBlocks => 25,
                CommandKind::SdSendOpCond => 41,
                CommandKind::SendScr => 51,
                CommandKind::AppCmd => 55,
                CommandKind::ResetClock => 0,
            }),
    {
        match self {
            CommandKind::GoIdleState => 0,
            CommandKind::AllSendCid => 2,
            CommandKind::SendRelativeAddr => 3,
            CommandKind::SelectCard => 7,
            CommandKind::SendIfCond => 8,
            CommandKind::SendCsd => 9,
            CommandKind::SendStatus => 13,
            CommandKind::ReadSingleBlock => 17,
            CommandKind::ReadMultipleBlocks => 18,
            CommandKind::WriteSingleBlock => 24,
            CommandKind::WriteMultipleBlocks => 25,
            CommandKind::SdSendOpCond => 41,
            CommandKind::SendScr => 51,
            CommandKind::AppCmd => 55,
            CommandKind::ResetClock => 0,
        }
    }

    /// The word that the command register receives.
    pub open spec fn word(self) -> Cmd {
        Cmd(
            match self {
                CommandKind::GoIdleState => 0xa000_8000,
                CommandKind::AllSendCid => 0xa000_01c2,
                CommandKind::SendRelativeAddr => 0xa000_0143,
                CommandKind::SelectCard => 0xa000_0147,
                CommandKind::SendIfCond => 0xa000_0148,
                CommandKind::SendCsd => 0xa000_01c9,
                CommandKind::SendStatus => 0xa000_014d,
                CommandKind::ReadSingleBlock => 0xa000_0351,
                CommandKind::ReadMultipleBlocks => 0xa000_1352,
                CommandKind::WriteSingleBlock => 0xa000_0758,
                CommandKind::WriteMultipleBlocks => 0xa000_1759,
                CommandKind::SdSendOpCond => 0xa000_0069,
                CommandKind::SendScr => 0xa000_0373,
                CommandKind::AppCmd => 0xa000_0177,
                CommandKind::ResetClock => 0x8020_0000,
            },
        )
    }

    /// Builds the word that the command register receives.
    #[verifier::when_used_as_spec(word)]
    pub fn build_word(self) -> (cmd: Cmd)
        ensures
            cmd == self.word(),
    {
        proof {
            lemma_words();
        }
        let cmd = Cmd::start().with(Cmd::USE_HOLD_REG).with_cmd_index(self.cmd_index());
        let cmd_resp = cmd.with(Cmd::RESPONSE_EXPECT);
        let cmd_crc = cmd_resp.with(Cmd::CHECK_RESPONSE_CRC);
        match self {
            CommandKind::GoIdleState => cmd.with(Cmd::SEND_INITIALIZATION),
            CommandKind::SendRelativeAddr | CommandKind::SelectCard | CommandKind::SendIfCond
            | CommandKind::AppCmd | CommandKind::SendStatus => cmd_crc,
            CommandKind::AllSendCid | CommandKind::SendCsd => cmd_crc.with(Cmd::RESPONSE_LENGTH),
            CommandKind::SdSendOpCond => cmd_resp,
            CommandKind::ReadSingleBlock | CommandKind::SendScr => cmd_crc.with(Cmd::DATA_EXPECTED),
            CommandKind::ReadMultipleBlocks => cmd_crc.with(Cmd::DATA_EXPECTED).with(
                Cmd::SEND_AUTO_STOP,
            ),
            CommandKind::WriteSingleBlock => cmd_crc.with(Cmd::DATA_EXPECTED).with(Cmd::READ_WRITE),
            CommandKind::WriteMultipleBlocks => cmd_crc.with(Cmd::DATA_EXPECTED).with(
                Cmd::READ_WRITE,
            ).with(Cmd::SEND_AUTO_STOP),
            CommandKind::ResetClock => Cmd::start().with(Cmd::UPDATE_CLOCK),
        }
    }

    /// The card answers with an R1 or R1b card status.
    #[verifier::allow_in_spec]
    pub fn has_r1_response(self) -> bool
        returns
            (match self {
                CommandKind::SelectCard => true,
                CommandKind::SendStatus => true,
                CommandKind::ReadSingleBlock => true,
                CommandKind::ReadMultipleBlocks => true,
                CommandKind::WriteSingleBlock => true,
                CommandKind::WriteMultipleBlocks => true,
                CommandKind::SendScr => true,
                CommandKind::AppCmd => true,
                _ => false,
            }),
    {
        match self {
            CommandKind::SelectCard
            | CommandKind::SendStatus
            | CommandKind::ReadSingleBlock
            | CommandKind::ReadMultipleBlocks
            | CommandKind::WriteSingleBlock
            | CommandKind::WriteMultipleBlocks
            | CommandKind::SendScr
            | CommandKind::AppCmd => true,
            _ => false,
        }
    }

    /// The response must confirm that an application command follows.
    #[verifier::allow_in_spec]
    pub fn requires_app_cmd_accepted(self) -> bool
        returns
            self == CommandKind::AppCmd,
    {
        match self {
            CommandKind::AppCmd => true,
            _ => false,
        }
    }
}

/// The words that the bits of each command add up to.
proof fn lemma_words()
    by (bit_vector)
    ensures
        (((0x8000_0000u32 | 0x2000_0000) & !0x3fu32) | 0u32) | 0x8000 == 0xa000_8000u32,
        ((((((0x8000_0000u32 | 0x2000_0000) & !0x3fu32) | 2u32) | 0x40) | 0x100) | 0x80)
            == 0xa000_01c2u32,
        ((((0x8000_0000u32 | 0x2000_0000) & !0x3fu32) | 3u32) | 0x40) | 0x100 == 0xa000_0143u32,
        ((((0x8000_0000u32 | 0x2000_0000) & !0x3fu32) | 7u32) | 0x40) | 0x100 == 0xa000_0147u32,
        ((((0x8000_0000u32 | 0x2000_0000) & !0x3fu32) | 8u32) | 0x40) | 0x100 == 0xa000_0148u32,
        ((((((0x8000_0000u32 | 0x2000_0000) & !0x3fu32) | 9u32) | 0x40) | 0x100) | 0x80)
            == 0xa000_01c9u32,
        ((((0x8000_0000u32 | 0x2000_0000) & !0x3fu32) | 13u32) | 0x40) | 0x100 == 0xa000_014du32,
        ((((((0x8000_0000u32 | 0x2000_0000) & !0x3fu32) | 17u32) | 0x40) | 0x100) | 0x200)
            == 0xa000_0351u32,
        (((((((0x8000_0000u32 | 0x2000_0000) & !0x3fu32) | 18u32) | 0x40) | 0x100) | 0x200)
            | 0x1000) == 0xa000_1352u32,
        (((((((0x8000_0000u32 | 0x2000_0000) & !0x3fu32) | 24u32) | 0x40) | 0x100) | 0x200)
            | 0x400) == 0xa000_0758u32,
        ((((((((0x8000_0000u32 | 0x2000_0000) & !0x3fu32) | 25u32) | 0x40) | 0x100) | 0x200)
            | 0x400) | 0x1000) == 0xa000_1759u32,
        (((0x8000_0000u32 | 0x2000_0000) & !0x3fu32) | 41u32) | 0x40 == 0xa000_0069u32,
        ((((((0x8000_0000u32 | 0x2000_0000) & !0x3fu32) | 51u32) | 0x40) | 0x100) | 0x200)
            == 0xa000_0373u32,
        ((((0x8000_0000u32 | 0x2000_0000) & !0x3fu32) | 55u32) | 0x40) | 0x100 == 0xa000_0177u32,
        0x8000_0000u32 | 0x0020_0000 == 0x8020_0000u32,
{
}

impl<'a> Command<'a> {
    /// The kind of the command.
    pub open spec fn kind(&self) -> CommandKind {
        match self {
            Command::GoIdleState => CommandKind::GoIdleState,
            Command::AllSendCid => CommandKind::AllSendCid,
            Command::SendRelativeAddr => CommandKind::SendRelativeAddr,
            Command::SelectCard(_) => CommandKind::SelectCard,
            Command::SendIfCond(_) => CommandKind::SendIfCond,
            Command::SendCsd(_) => CommandKind::SendCsd,
            Command::SendStatus(_) => CommandKind::SendStatus,
            Command::ReadSingleBlock(_, _) => CommandKind::ReadSingleBlock,
            Command::ReadMultipleBlocks(_, _) => CommandKind::ReadMultipleBlocks,
            Command::WriteSingleBlock(_, _) => CommandKind::WriteSingleBlock,
            Command::WriteMultipleBlocks(_, _) => CommandKind::WriteMultipleBlocks,
            Command::SdSendOpCond(_) => CommandKind::SdSendOpCond,
            Command::SendScr(_) => CommandKind::SendScr,
            Command::AppCmd(_) => CommandKind::AppCmd,
            Command::ResetClock => CommandKind::ResetClock,
        }
    }

    /// The argument of the command.
    pub open spec fn arg(&self) -> u32 {
        match self {
            Command::SelectCard(arg) => *arg,
            Command::SendIfCond(arg) => *arg,
            Command::SendCsd(arg) => *arg,
            Command::SendStatus(arg) => *arg,
            Command::ReadSingleBlock(block, _) => *block,
            Command::ReadMultipleBlocks(block, _) => *block,
            Command::WriteSingleBlock(block, _) => *block,
            Command::WriteMultipleBlocks(block, _) => *block,
            Command::SdSendOpCond(arg) => *arg,
            Command::AppCmd(arg) => *arg,
            _ => 0,
        }
    }

    /// The data phase of the command.
    pub open spec fn data_phase(&self) -> DataPhase {
        match self {
            Command::ReadSingleBlock(_, buf) => DataPhase::Read(buf@.len() as usize),
            Command::ReadMultipleBlocks(_, buf) => DataPhase::Read(buf@.len() as usize),
            Command::WriteSingleBlock(_, buf) => DataPhase::Write(buf@.len() as usize),
            Command::WriteMultipleBlocks(_, buf) => DataPhase::Write(buf@.len() as usize),
            Command::SendScr(buf) => DataPhase::Read(buf@.len() as usize),
            _ => DataPhase::Nothing,
        }
    }

    /// What the submission of the command depends on.
    pub open spec fn submission(&self) -> Request {
        Request { kind: self.kind(), arg: self.arg(), data: self.data_phase() }
    }

    /// Number of the command.
    pub fn cmd_index(&self) -> (index: u8)
        ensures
            index == self.kind().cmd_index(),
    {
        self.request().kind.cmd_index()
    }

    /// Collects what the submission of the command depends on.
    pub fn request(&self) -> (request: Request)
        ensures
            request == self.submission(),
    {
        let (kind, arg, data) = match self {
            Command::GoIdleState => (CommandKind::GoIdleState, 0u32, DataPhase::Nothing),
            Command::AllSendCid => (CommandKind::AllSendCid, 0u32, DataPhase::Nothing),
            Command::SendRelativeAddr => (CommandKind::SendRelativeAddr, 0u32, DataPhase::Nothing),
            Command::SelectCard(arg) => (CommandKind::SelectCard, *arg, DataPhase::Nothing),
            Command::SendIfCond(arg) => (CommandKind::SendIfCond, *arg, DataPhase::Nothing),
            Command::SendCsd(arg) => (CommandKind::SendCsd, *arg, DataPhase::Nothing),
            Command::SendStatus(arg) => (CommandKind::SendStatus, *arg, DataPhase::Nothing),
            Command::ReadSingleBlock(block, buf) => (
                CommandKind::ReadSingleBlock,
                *block,
                DataPhase::Read(buf.len()),
            ),
            Command::ReadMultipleBlocks(block, buf) => (
                CommandKind::ReadMultipleBlocks,
                *block,
                DataPhase::Read(buf.len()),
            ),
            Command::WriteSingleBlock(block, buf) => (
                CommandKind::WriteSingleBlock,
                *block,
                DataPhase::Write(buf.len()),
            ),
            Command::WriteMultipleBlocks(block, buf) => (
                CommandKind::WriteMultipleBlocks,
                *block,
                DataPhase::Write(buf.len()),
            ),
            Command::SdSendOpCond(arg) => (CommandKind::SdSendOpCond, *arg, DataPhase::Nothing),
            Command::SendScr(buf) => (CommandKind::SendScr, 0u32, DataPhase::Read(buf.len())),
            Command::AppCmd(arg) => (CommandKind::AppCmd, *arg, DataPhase::Nothing),
            Command::ResetClock => (CommandKind::ResetClock, 0u32, DataPhase::Nothing),
        };
        Request { kind, arg, data }
    }

    /// The card answers with an R1 or R1b card status.
    pub fn has_r1_response(&self) -> (r1: bool)
        ensures
            r1 == self.kind().has_r1_response(),
    {
        self.request().kind.has_r1_response()
    }

    /// The response must confirm that an application command follows.
    pub fn requires_app_cmd_accepted(&self) -> (required: bool)
        ensures
            required == (self.kind() == CommandKind::AppCmd),
    {
        self.request().kind.requires_app_cmd_accepted()
    }

    /// Builds the command word, the argument and the data transfer.
    pub fn build(self) -> (built: (Cmd, u32, Option<DataXfer<'a>>))
        ensures
            built.0 == self.kind().word(),
            built.1 == self.arg(),
            self.data_phase() is Nothing <==> built.2 is None,
            self matches Command::ReadSingleBlock(_, buf) ==> (built.2 matches Some(
                DataXfer::Read(out),
            ) && out@ == buf@ && final(out)@ == final(buf)@),
            self matches Command::ReadMultipleBlocks(_, buf) ==> (built.2 matches Some(
                DataXfer::Read(out),
            ) && out@ == buf@ && final(out)@ == final(buf)@),
            self matches Command::SendScr(buf) ==> (built.2 matches Some(DataXfer::Read(out))
                && out@ == buf@ && final(out)@ == final(buf)@),
            self matches Command::WriteSingleBlock(_, buf) ==> (built.2 matches Some(
                DataXfer::Write(data),
            ) && data@ == buf@),
            self matches Command::WriteMultipleBlocks(_, buf) ==> (built.2 matches Some(
                DataXfer::Write(data),
            ) && data@ == buf@),
    {
        let request = self.request();
        let cmd = request.kind.build_word();
        let xfer = match self {
            Command::ReadSingleBlock(_, buf) => Some(DataXfer::Read(buf)),
            Command::ReadMultipleBlocks(_, buf) => Some(DataXfer::Read(buf)),
            Command::SendScr(buf) => Some(DataXfer::Read(buf)),
            Command::WriteSingleBlock(_, buf) => Some(DataXfer::Write(buf)),
            Command::WriteMultipleBlocks(_, buf) => Some(DataXfer::Write(buf)),
            _ => None,
        };
        (cmd, request.arg, xfer)
    }
}

/// What the bits of a command word say about the command: its number, whether
/// a response, a long response, a CRC to be checked, a data phase, a write or an
/// automatic stop is expected, whether the initialization sequence precedes it,
/// whether it only updates the clock registers instead of passing through the hold
/// register to the card, and that the controller is asked to start.
pub proof fn law_word_describes_command(kind: CommandKind)
    ensures
        kind.word().start_cmd(),
        kind.word().cmd_index() == kind.cmd_index(),
        kind.word().response_expect() <==> kind != CommandKind::GoIdleState && kind
            != CommandKind::ResetClock,
        kind.word().data_expected() <==> kind == CommandKind::ReadSingleBlock || kind
            == CommandKind::ReadMultipleBlocks || kind == CommandKind::WriteSingleBlock || kind
            == CommandKind::WriteMultipleBlocks || kind == CommandKind::SendScr,
        kind.word().read_write() <==> kind == CommandKind::WriteSingleBlock || kind
            == CommandKind::WriteMultipleBlocks,
        kind.word().send_auto_stop() <==> kind == CommandKind::ReadMultipleBlocks || kind
            == CommandKind::WriteMultipleBlocks,
        kind.word().has(Cmd::RESPONSE_LENGTH) <==> kind == CommandKind::AllSendCid || kind
            == CommandKind::SendCsd,
        kind.word().has(Cmd::CHECK_RESPONSE_CRC) <==> kind.word().response_expect() && kind
            != CommandKind::SdSendOpCond,
        kind.word().has(Cmd::SEND_INITIALIZATION) <==> kind == CommandKind::GoIdleState,
        kind.word().has(Cmd::UPDATE_CLOCK) <==> kind == CommandKind::ResetClock,
        kind.word().has(Cmd::USE_HOLD_REG) <==> kind != CommandKind::ResetClock,
{
    lemma_word_bits();
}

proof fn lemma_word_bits()
    by (bit_vector)
    ensures
        forall|w: u32|
            #![auto]
            (w == 0xa000_8000 || w == 0xa000_01c2 || w == 0xa000_0143 || w == 0xa000_0147 || w
                == 0xa000_0148 || w == 0xa000_01c9 || w == 0xa000_014d || w == 0xa000_0351 || w
                == 0xa000_1352 || w == 0xa000_0758 || w == 0xa000_1759 || w == 0xa000_0069 || w
                == 0xa000_0373 || w == 0xa000_0177 || w == 0x8020_0000) ==> {
                &&& w & 0x8000_0000 != 0
                &&& (w & 0x40 != 0) == (w != 0xa000_8000 && w != 0x8020_0000)
                &&& (w & 0x200 != 0) == (w == 0xa000_0351 || w == 0xa000_1352 || w == 0xa000_0758
                    || w == 0xa000_1759 || w == 0xa000_0373)
                &&& (w & 0x400 != 0) == (w == 0xa000_0758 || w == 0xa000_1759)
                &&& (w & 0x1000 != 0) == (w == 0xa000_1352 || w == 0xa000_1759)
                &&& (w & 0x80 != 0) == (w == 0xa000_01c2 || w == 0xa000_01c9)
                &&& (w & 0x100 != 0) == (w != 0xa000_8000 && w != 0xa000_0069 && w != 0x8020_0000)
                &&& (w & 0x8000 != 0) == (w == 0xa000_8000)
                &&& (w & 0x0020_0000 != 0) == (w == 0x8020_0000)
                &&& (w & 0x2000_0000 != 0) == (w != 0x8020_0000)
            },
        0xa000_8000u32 & 0x3f == 0,
        0xa000_01c2u32 & 0x3f == 2,
        0xa000_0143u32 & 0x3f == 3,
        0xa000_0147u32 & 0x3f == 7,
        0xa000_0148u32 & 0x3f == 8,
        0xa000_01c9u32 & 0x3f == 9,
        0xa000_014du32 & 0x3f == 13,
        0xa000_0351u32 & 0x3f == 17,
        0xa000_1352u32 & 0x3f == 18,
        0xa000_0758u32 & 0x3f == 24,
        0xa000_1759u32 & 0x3f == 25,
        0xa000_0069u32 & 0x3f == 41,
        0xa000_0373u32 & 0x3f == 51,
        0xa000_0177u32 & 0x3f == 55,
        0x8020_0000u32 & 0x3f == 0,
{
}

/// The command word announces a data phase exactly if the command carries a
/// buffer.
pub proof fn law_data_expected_iff_buffer(command: Command<'_>)
    ensures
        command.kind().word().data_expected() <==> !(command.data_phase() is Nothing),
{
    law_word_describes_command(command.kind());
}

} // verus!
