//! The card clock.

use vstd::prelude::*;

use crate::cmd::{CommandKind, DataPhase, Request};
use crate::io::{Machine, Op, Reply, Step};
use crate::regs::{ClkDiv, ClkEna, Cmd, Reg, Status};
use crate::send::{poll, SendCmd, SECOND};

verus! {

/// Clock of the card interface in Hz. With divider `n` the card gets this
/// clock divided by `2 * n`.
pub const VISIONFIVE2_SDIO_CIU_CLOCK_HZ: u32 = 49_500_000;

/// Divider during card identification.
pub const IDENTIFICATION_CLOCK_DIVIDER: u8 = 100;

/// Divider for Default Speed.
pub const DEFAULT_SPEED_CLOCK_DIVIDER: u8 = 1;

/// Card clock in Hz that a divider gives.
pub fn card_clock_hz(divider: u8) -> (hz: u32)
    requires
        divider > 0,
    ensures
        hz == 49_500_000int / (2 * divider as int),
{
    VISIONFIVE2_SDIO_CIU_CLOCK_HZ / (2 * divider as u32)
}

/// Submission of the pseudo-command that latches the clock registers.
#[verifier::allow_in_spec]
pub fn latch() -> SendCmd
    returns
        SendCmd::new(
            Request { kind: CommandKind::ResetClock, arg: 0, data: DataPhase::Nothing },
            None,
        ),
{
    SendCmd::new(
        Request { kind: CommandKind::ResetClock, arg: 0, data: DataPhase::Nothing },
        None,
    )
}

/// Where the programming of the clock stands.
#[derive(Clone, Copy, Debug, PartialEq, Eq)]
pub enum ProgramPhase {
    /// Disabling the clock.
    Disable,
    /// Latching that.
    LatchDisabled(SendCmd),
    /// Setting the divider.
    Divider,
    /// Latching that.
    LatchDivider(SendCmd),
    /// Enabling the clock.
    Enable,
    /// Latching that.
    LatchEnabled(SendCmd),
    /// Reading the divider back.
    CheckDivider,
    /// Reading the enable bit back.
    CheckEnable {
        /// The divider was retained.
        divider_kept: bool,
    },
}

/// Sets the clock divider while the clock is disabled, then reads the registers
/// back. Ends with whether everything took effect.
#[derive(Clone, Copy, Debug, PartialEq, Eq)]
pub struct ProgramClock {
    /// The divider.
    pub divider: u8,
    /// Where the programming stands.
    pub phase: ProgramPhase,
}

impl ProgramClock {
    /// Begins to program a divider.
    #[verifier::allow_in_spec]
    pub fn new(divider: u8) -> ProgramClock
        returns
            (ProgramClock { divider, phase: ProgramPhase::Disable }),
    {
        ProgramClock { divider, phase: ProgramPhase::Disable }
    }

    /// The same programming at another point.
    #[verifier::allow_in_spec]
    pub fn at(self, phase: ProgramPhase) -> Step<ProgramClock, bool>
        returns
            Step::<ProgramClock, bool>::Next(ProgramClock { phase, ..self }),
    {
        Step::Next(ProgramClock { phase, ..self })
    }
}

impl Machine for ProgramClock {
    type Act = Op;

    type Event = Reply;

    type Out = bool;

    open spec fn op(self) -> Op {
        match self.phase {
            ProgramPhase::Disable => Op::Write(Reg::ClkEna, 0),
            ProgramPhase::LatchDisabled(send) => send.op(),
            ProgramPhase::Divider => Op::Write(Reg::ClkDiv, self.divider as u32),
            ProgramPhase::LatchDivider(send) => send.op(),
            ProgramPhase::Enable => Op::Write(Reg::ClkEna, ClkEna::CARD0),
            ProgramPhase::LatchEnabled(send) => send.op(),
            ProgramPhase::CheckDivider => Op::Read(Reg::ClkDiv),
            ProgramPhase::CheckEnable { .. } => Op::Read(Reg::ClkEna),
        }
    }

    fn request(&self) -> (op: Op) {
        match self.phase {
            ProgramPhase::Disable => Op::Write(Reg::ClkEna, 0),
            ProgramPhase::LatchDisabled(send) => send.request(),
            ProgramPhase::Divider => Op::Write(Reg::ClkDiv, self.divider as u32),
            ProgramPhase::LatchDivider(send) => send.request(),
            ProgramPhase::Enable => Op::Write(Reg::ClkEna, ClkEna::CARD0),
            ProgramPhase::LatchEnabled(send) => send.request(),
            ProgramPhase::CheckDivider => Op::Read(Reg::ClkDiv),
            ProgramPhase::CheckEnable { .. } => Op::Read(Reg::ClkEna),
        }
    }

    open spec fn next(self, reply: Reply) -> Step<Self, bool> {
        match self.phase {
            ProgramPhase::Disable => self.at(ProgramPhase::LatchDisabled(latch())),
            ProgramPhase::LatchDisabled(send) => match send.next(reply) {
                Step::Next(send) => self.at(ProgramPhase::LatchDisabled(send)),
                Step::Done(Ok(_)) => self.at(ProgramPhase::Divider),
                Step::Done(Err(_)) => Step::Done(false),
            },
            ProgramPhase::Divider => self.at(ProgramPhase::LatchDivider(latch())),
            ProgramPhase::LatchDivider(send) => match send.next(reply) {
                Step::Next(send) => self.at(ProgramPhase::LatchDivider(send)),
                Step::Done(Ok(_)) => self.at(ProgramPhase::Enable),
                Step::Done(Err(_)) => Step::Done(false),
            },
            ProgramPhase::Enable => self.at(ProgramPhase::LatchEnabled(latch())),
            ProgramPhase::LatchEnabled(send) => match send.next(reply) {
                Step::Next(send) => self.at(ProgramPhase::LatchEnabled(send)),
                Step::Done(Ok(_)) => self.at(ProgramPhase::CheckDivider),
                Step::Done(Err(_)) => Step::Done(false),
            },
            ProgramPhase::CheckDivider => self.at(
                ProgramPhase::CheckEnable {
                    divider_kept: ClkDiv(reply.word()).clk_divider0() == self.divider as u32,
                },
            ),
            ProgramPhase::CheckEnable { divider_kept } => Step::Done(
                divider_kept && ClkEna(reply.word()).card0_enabled(),
            ),
        }
    }

    fn step(self, reply: Reply) -> (step: Step<Self, bool>) {
        match self.phase {
            ProgramPhase::Disable => self.at(ProgramPhase::LatchDisabled(latch())),
            ProgramPhase::LatchDisabled(send) => match send.step(reply) {
                Step::Next(send) => self.at(ProgramPhase::LatchDisabled(send)),
                Step::Done(Ok(_)) => self.at(ProgramPhase::Divider),
                Step::Done(Err(_)) => Step::Done(false),
            },
            ProgramPhase::Divider => self.at(ProgramPhase::LatchDivider(latch())),
            ProgramPhase::LatchDivider(send) => match send.step(reply) {
                Step::Next(send) => self.at(ProgramPhase::LatchDivider(send)),
                Step::Done(Ok(_)) => self.at(ProgramPhase::Enable),
                Step::Done(Err(_)) => Step::Done(false),
            },
            ProgramPhase::Enable => self.at(ProgramPhase::LatchEnabled(latch())),
            ProgramPhase::LatchEnabled(send) => match send.step(reply) {
                Step::Next(send) => self.at(ProgramPhase::LatchEnabled(send)),
                Step::Done(Ok(_)) => self.at(ProgramPhase::CheckDivider),
                Step::Done(Err(_)) => Step::Done(false),
            },
            ProgramPhase::CheckDivider => self.at(
                ProgramPhase::CheckEnable {
                    divider_kept: ClkDiv(reply.word()).clk_divider0() == self.divider as u32,
                },
            ),
            ProgramPhase::CheckEnable { divider_kept } => Step::Done(
                divider_kept && ClkEna(reply.word()).card0_enabled(),
            ),
        }
    }
}

/// Where the switch of the clock stands.
#[derive(Clone, Copy, Debug, PartialEq, Eq)]
pub enum SwitchPhase {
    /// Taking the time at which the wait for idleness begins.
    Clock,
    /// Looking at the command register.
    Command {
        /// The deadline.
        deadline: u64,
        /// Not the first look.
        again: bool,
    },
    /// Looking at the data path.
    Data {
        /// The deadline.
        deadline: u64,
    },
    /// Something is busy; has the deadline passed?
    Deadline {
        /// The deadline.
        deadline: u64,
    },
    /// Reading the divider in use.
    Previous,
    /// Programming the new divider.
    Program {
        /// The programming.
        program: ProgramClock,
        /// The divider in use before.
        previous: u8,
    },
    /// Going back to the divider in use before.
    Rollback(ProgramClock),
}

/// Switches the card clock once controller and card are idle. If that fails, the
/// previous divider is programmed again. Ends with whether the switch succeeded.
#[derive(Clone, Copy, Debug, PartialEq, Eq)]
pub struct SwitchClock {
    /// The new divider.
    pub divider: u8,
    /// Where the switch stands.
    pub phase: SwitchPhase,
}

impl SwitchClock {
    /// Begins to switch to a divider.
    #[verifier::allow_in_spec]
    pub fn new(divider: u8) -> SwitchClock
        returns
            (SwitchClock { divider, phase: SwitchPhase::Clock }),
    {
        SwitchClock { divider, phase: SwitchPhase::Clock }
    }

    /// The same switch at another point.
    #[verifier::allow_in_spec]
    pub fn at(self, phase: SwitchPhase) -> Step<SwitchClock, bool>
        returns
            Step::<SwitchClock, bool>::Next(SwitchClock { phase, ..self }),
    {
        Step::Next(SwitchClock { phase, ..self })
    }
}

impl Machine for SwitchClock {
    type Act = Op;

    type Event = Reply;

    type Out = bool;

    open spec fn op(self) -> Op {
        match self.phase {
            SwitchPhase::Clock => Op::Now,
            SwitchPhase::Command { again, .. } => poll(again, Reg::Cmd),
            SwitchPhase::Data { .. } => Op::Read(Reg::Status),
            SwitchPhase::Deadline { .. } => Op::Now,
            SwitchPhase::Previous => Op::Read(Reg::ClkDiv),
            SwitchPhase::Program { program, .. } => program.op(),
            SwitchPhase::Rollback(program) => program.op(),
        }
    }

    fn request(&self) -> (op: Op) {
        match self.phase {
            SwitchPhase::Clock => Op::Now,
            SwitchPhase::Command { again, .. } => poll(again, Reg::Cmd),
            SwitchPhase::Data { .. } => Op::Read(Reg::Status),
            SwitchPhase::Deadline { .. } => Op::Now,
            SwitchPhase::Previous => Op::Read(Reg::ClkDiv),
            SwitchPhase::Program { program, .. } => program.request(),
            SwitchPhase::Rollback(program) => program.request(),
        }
    }

    open spec fn next(self, reply: Reply) -> Step<Self, bool> {
        match self.phase {
            SwitchPhase::Clock => self.at(
                SwitchPhase::Command {
                    deadline: reply.time().saturating_add(SECOND),
                    again: false,
                },
            ),
            SwitchPhase::Command { deadline, .. } => if Cmd(reply.word()).start_cmd() {
                self.at(SwitchPhase::Deadline { deadline })
            } else {
                self.at(SwitchPhase::Data { deadline })
            },
            SwitchPhase::Data { deadline } => if Status(reply.word()).can_send_data() {
                self.at(SwitchPhase::Previous)
            } else {
                self.at(SwitchPhase::Deadline { deadline })
            },
            SwitchPhase::Deadline { deadline } => if reply.time() >= deadline {
                Step::Done(false)
            } else {
                self.at(SwitchPhase::Command { deadline, again: true })
            },
            SwitchPhase::Previous => self.at(
                SwitchPhase::Program {
                    program: ProgramClock::new(self.divider),
                    previous: ClkDiv(reply.word()).clk_divider0() as u8,
                },
            ),
            SwitchPhase::Program { program, previous } => match program.next(reply) {
                Step::Next(program) => self.at(SwitchPhase::Program { program, previous }),
                Step::Done(true) => Step::Done(true),
                Step::Done(false) => self.at(SwitchPhase::Rollback(ProgramClock::new(previous))),
            },
            SwitchPhase::Rollback(program) => match program.next(reply) {
                Step::Next(program) => self.at(SwitchPhase::Rollback(program)),
                Step::Done(_) => Step::Done(false),
            },
        }
    }

    fn step(self, reply: Reply) -> (step: Step<Self, bool>) {
        match self.phase {
            SwitchPhase::Clock => self.at(
                SwitchPhase::Command {
                    deadline: reply.time().saturating_add(SECOND),
                    again: false,
                },
            ),
            SwitchPhase::Command { deadline, .. } => if Cmd(reply.word()).start_cmd() {
                self.at(SwitchPhase::Deadline { deadline })
            } else {
                self.at(SwitchPhase::Data { deadline })
            },
            SwitchPhase::Data { deadline } => if Status(reply.word()).can_send_data() {
                self.at(SwitchPhase::Previous)
            } else {
                self.at(SwitchPhase::Deadline { deadline })
            },
            SwitchPhase::Deadline { deadline } => if reply.time() >= deadline {
                Step::Done(false)
            } else {
                self.at(SwitchPhase::Command { deadline, again: true })
            },
            SwitchPhase::Previous => self.at(
                SwitchPhase::Program {
                    program: ProgramClock::new(self.divider),
                    previous: ClkDiv(reply.word()).clk_divider0() as u8,
                },
            ),
            SwitchPhase::Program { program, previous } => match program.step(reply) {
                Step::Next(program) => self.at(SwitchPhase::Program { program, previous }),
                Step::Done(true) => Step::Done(true),
                Step::Done(false) => self.at(SwitchPhase::Rollback(ProgramClock::new(previous))),
            },
            SwitchPhase::Rollback(program) => match program.step(reply) {
                Step::Next(program) => self.at(SwitchPhase::Rollback(program)),
                Step::Done(_) => Step::Done(false),
            },
        }
    }
}

/// Invariant of the law below: the divider is written only while the clock is
/// off, and success means that the registers read back as programmed.
pub open spec fn program_invariant(
    divider: u8,
    trace: Seq<(Op, Reply)>,
    at: Step<ProgramClock, bool>,
) -> bool {
    let off = crate::trace::last_written(trace, Reg::ClkEna) == Some(0u32);
    let set = crate::trace::last_written(trace, Reg::ClkDiv) == Some(divider as u32);
    let on = crate::trace::last_written(trace, Reg::ClkEna) == Some(1u32);
    match at {
        Step::Next(m) => {
            &&& m.divider == divider
            &&& match m.phase {
                ProgramPhase::Disable => true,
                ProgramPhase::LatchDisabled(_) => off,
                ProgramPhase::Divider => off,
                ProgramPhase::LatchDivider(_) => off && set,
                ProgramPhase::Enable => off && set,
                ProgramPhase::LatchEnabled(_) => on && set,
                ProgramPhase::CheckDivider => on && set,
                ProgramPhase::CheckEnable { divider_kept } => {
                    &&& on && set
                    &&& trace.len() > 0
                    &&& crate::trace::op_back(trace, 0) == Op::Read(Reg::ClkDiv)
                    &&& divider_kept == (ClkDiv(
                        crate::trace::reply_back(trace, 0).word(),
                    ).clk_divider0() == divider as u32)
                },
            }
        },
        Step::Done(true) => {
            &&& on && set
            &&& trace.len() > 1
            &&& crate::trace::op_back(trace, 1) == Op::Read(Reg::ClkDiv)
            &&& ClkDiv(crate::trace::reply_back(trace, 1).word()).clk_divider0() == divider as u32
            &&& crate::trace::op_back(trace, 0) == Op::Read(Reg::ClkEna)
            &&& ClkEna(crate::trace::reply_back(trace, 0).word()).card0_enabled()
        },
        Step::Done(false) => true,
    }
}

/// Each step of the programming keeps what holds of it.
pub proof fn lemma_program_step(divider: u8, trace: Seq<(Op, Reply)>, m: ProgramClock, reply: Reply)
    requires
        program_invariant(divider, trace, Step::Next(m)),
    ensures
        program_invariant(divider, trace.push((m.op(), reply)), m.next(reply)),
{
    crate::trace::lemma_accounts_push(trace, m.op(), reply);
}

/// The clock divider is only changed while the card clock is off. Success means
/// that the new divider was read back and the clock was found enabled.
pub proof fn law_divider_changes_with_clock_off(divider: u8, replies: Seq<Reply>)
    ensures
        ({
            let done = crate::io::run(Step::Next(ProgramClock::new(divider)), replies);
            &&& done.at matches Step::Next(m) ==> (m.op() matches Op::Write(Reg::ClkDiv, word)
                ==> word == divider && crate::trace::last_written(done.trace, Reg::ClkEna)
                == Some(0u32))
            &&& done.at == Step::<ProgramClock, bool>::Done(true) ==> {
                &&& done.trace.len() > 1
                &&& crate::trace::op_back(done.trace, 1) == Op::Read(Reg::ClkDiv)
                &&& ClkDiv(crate::trace::reply_back(done.trace, 1).word()).clk_divider0()
                    == divider as u32
                &&& crate::trace::op_back(done.trace, 0) == Op::Read(Reg::ClkEna)
                &&& ClkEna(crate::trace::reply_back(done.trace, 0).word()).card0_enabled()
            }
        }),
{
    let start = Step::<ProgramClock, bool>::Next(ProgramClock::new(divider));
    let inv = |trace: Seq<(Op, Reply)>, at: Step<ProgramClock, bool>|
        program_invariant(divider, trace, at);
    assert forall|trace: Seq<(Op, Reply)>, m: ProgramClock, reply: Reply|
        inv(trace, Step::Next(m)) implies #[trigger] inv(
        trace.push((m.op(), reply)),
        m.next(reply),
    ) by {
        lemma_program_step(divider, trace, m, reply);
    }
    crate::io::lemma_run_invariant(start, replies, inv);
}

/// The only command under way is the clock pseudo-command.
pub open spec fn programming(program: ProgramClock) -> bool {
    match program.phase {
        ProgramPhase::LatchDisabled(send) => send.request.kind == CommandKind::ResetClock,
        ProgramPhase::LatchDivider(send) => send.request.kind == CommandKind::ResetClock,
        ProgramPhase::LatchEnabled(send) => send.request.kind == CommandKind::ResetClock,
        _ => true,
    }
}

/// The only command under way is the clock pseudo-command.
pub open spec fn switching(switch: SwitchClock) -> bool {
    match switch.phase {
        SwitchPhase::Program { program, .. } => programming(program),
        SwitchPhase::Rollback(program) => programming(program),
        _ => true,
    }
}

/// A clock switch submits nothing but the clock pseudo-command.
pub proof fn lemma_switching(switch: SwitchClock, reply: Reply)
    requires
        switching(switch),
    ensures
        switch.op() matches Op::Write(Reg::Cmd, word) ==> word == CommandKind::ResetClock.word().0,
        switch.next(reply) matches Step::Next(m) ==> switching(m),
{
}

} // verus!
