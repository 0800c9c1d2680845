//! Submission of a command by polling.

use vstd::prelude::*;

use crate::cmd::{CommandKind, DataPhase, Request};
use crate::error::{validate_r1_response, SdMmcError, SdMmcResult};
use crate::io::{Machine, Op, Reply, Step};
use crate::regs::{Cmd, RIntSts, Reg, Status};
#[allow(unused_imports)]
use crate::trace::{looks, op_back, reply_back, submits};

verus! {

/// Nanoseconds of a second.
pub const SECOND: u64 = 1_000_000_000;

/// Polls that the command register gets before the controller counts as busy.
pub const CMD_MAX_WAIT: u64 = 1_000_000;

/// Entries that the FIFO may hold before a write pauses: eight below its limit.
pub const FIFO_WRITE_LIMIT: u32 = 120;

/// The first read of a register, or a later one of the same wait.
#[verifier::allow_in_spec]
pub fn poll(again: bool, reg: Reg) -> Op
    returns
        (if again {
            Op::Poll(reg)
        } else {
            Op::Read(reg)
        }),
{
    if again {
        Op::Poll(reg)
    } else {
        Op::Read(reg)
    }
}

/// The earlier of an optional deadline and a second one.
#[verifier::allow_in_spec]
pub fn earliest(deadline: Option<u64>, other: u64) -> u64
    returns
        (match deadline {
            Some(deadline) => if deadline < other {
                deadline
            } else {
                other
            },
            None => other,
        }),
{
    match deadline {
        Some(deadline) => if deadline < other {
            deadline
        } else {
            other
        },
        None => other,
    }
}

/// Where the submission of a command stands.
#[derive(Clone, Copy, Debug, PartialEq, Eq)]
pub enum SendPhase {
    /// Waiting for the controller to take commands.
    Idle {
        /// Polls that found it busy.
        count: u64,
    },
    /// The controller is busy; has the deadline passed?
    IdleClock {
        /// Polls that found it busy.
        count: u64,
        /// The deadline.
        deadline: u64,
    },
    /// Last look at the command register before the submission.
    IdleCheck,
    /// Waiting for the data path to become idle.
    DataIdle {
        /// Not the first look.
        again: bool,
    },
    /// Clearing what the preceding command left in the status.
    ClearStale,
    /// Writing the argument.
    WriteArg,
    /// Writing the command.
    WriteCmd,
    /// Waiting for the controller to take the command.
    Accept {
        /// Polls that found it waiting.
        count: u64,
    },
    /// The command is still waiting; has the deadline passed?
    AcceptClock {
        /// Polls that found it waiting.
        count: u64,
        /// The deadline.
        deadline: u64,
    },
    /// Last look at the command register after the submission.
    AcceptCheck,
    /// The controller did not take the command.
    NotAccepted,
    /// Taking the time at which the response phase begins.
    ResponseStart,
    /// Waiting for the response phase to end.
    ResponseWait {
        /// The deadline.
        deadline: u64,
        /// Not the first look.
        again: bool,
    },
    /// The response is outstanding; has the deadline passed?
    ResponseClock {
        /// The deadline.
        deadline: u64,
    },
    /// The response did not come in time.
    ResponseTimeout,
    /// Looking at the outcome of the response phase.
    ResponseStatus,
    /// The response phase failed; the status is cleared.
    ResponseError {
        /// The status that showed the failure.
        status: u32,
    },
    /// Taking the time at which the wait for the card begins.
    BusyStart,
    /// Waiting for the card to release its busy signal.
    Busy {
        /// The deadline.
        deadline: u64,
        /// Not the first look.
        again: bool,
    },
    /// The card is busy; has the deadline passed?
    BusyClock {
        /// The deadline.
        deadline: u64,
    },
    /// Looking at the status of the data phase.
    Data {
        /// Bytes moved.
        offset: usize,
        /// Not the first look.
        again: bool,
    },
    /// The FIFO wants service; looking at its level.
    FifoLevel {
        /// Bytes moved.
        offset: usize,
        /// The data phase was over at the last look.
        over: bool,
    },
    /// Moving eight bytes.
    Fifo {
        /// Bytes moved before.
        offset: usize,
        /// The data phase was over at the last look.
        over: bool,
    },
    /// Reading the response.
    Response,
    /// Clearing the final status.
    ClearFinal {
        /// The response.
        response: [u32; 4],
    },
}

/// Submission of one command: waits until the controller is idle, submits the
/// command, waits for the response and for the data, and judges the outcome.
#[derive(Clone, Copy, Debug, PartialEq, Eq)]
pub struct SendCmd {
    /// The command.
    pub request: Request,
    /// Time after which no wait goes on, where there is one.
    pub deadline: Option<u64>,
    /// The card did not release its busy signal in time.
    pub busy_timed_out: bool,
    /// Where the submission stands.
    pub phase: SendPhase,
}

impl SendCmd {
    /// Begins the submission of a command.
    #[verifier::allow_in_spec]
    pub fn new(request: Request, deadline: Option<u64>) -> SendCmd
        returns
            (SendCmd {
                request,
                deadline,
                busy_timed_out: false,
                phase: SendPhase::Idle { count: 0 },
            }),
    {
        SendCmd { request, deadline, busy_timed_out: false, phase: SendPhase::Idle { count: 0 } }
    }

    /// The same submission at another point.
    #[verifier::allow_in_spec]
    pub fn at(self, phase: SendPhase) -> Step<SendCmd, SdMmcResult<[u32; 4]>>
        returns
            Step::<SendCmd, SdMmcResult<[u32; 4]>>::Next(SendCmd { phase, ..self }),
    {
        Step::Next(SendCmd { phase, ..self })
    }

    /// The submission ends with an error.
    #[verifier::allow_in_spec]
    pub fn fail(self, error: SdMmcError) -> Step<SendCmd, SdMmcResult<[u32; 4]>>
        returns
            Step::<SendCmd, SdMmcResult<[u32; 4]>>::Done(Err(error)),
    {
        Step::Done(Err(error))
    }

    /// Point after the wait for the card's busy signal: the data phase, if there
    /// is one, else the response.
    #[verifier::allow_in_spec]
    pub fn data_or_response(self) -> SendPhase
        returns
            (match self.request.data {
                DataPhase::Nothing => SendPhase::Response,
                _ => SendPhase::Data { offset: 0, again: false },
            }),
    {
        match self.request.data {
            DataPhase::Nothing => SendPhase::Response,
            _ => SendPhase::Data { offset: 0, again: false },
        }
    }

    /// The FIFO wants service in the direction of the data phase.
    #[verifier::allow_in_spec]
    pub fn fifo_request(self, rintsts: RIntSts) -> bool
        returns
            (match self.request.data {
                DataPhase::Nothing => false,
                DataPhase::Read(_) => rintsts.receive_fifo_data_request(),
                DataPhase::Write(_) => rintsts.transmit_fifo_data_request(),
            }),
    {
        match self.request.data {
            DataPhase::Nothing => false,
            DataPhase::Read(_) => rintsts.receive_fifo_data_request(),
            DataPhase::Write(_) => rintsts.transmit_fifo_data_request(),
        }
    }

    /// Eight more bytes can be moved: the FIFO holds two words or has room, and
    /// the buffer is not exhausted.
    #[verifier::allow_in_spec]
    pub fn can_move(self, offset: usize, fifo_count: u32) -> bool
        returns
            (match self.request.data {
                DataPhase::Nothing => false,
                DataPhase::Read(len) => fifo_count >= 2 && len >= 8 && offset <= len - 8,
                DataPhase::Write(len) => fifo_count < FIFO_WRITE_LIMIT && len >= 8 && offset <= len
                    - 8,
            }),
    {
        match self.request.data {
            DataPhase::Nothing => false,
            DataPhase::Read(len) => fifo_count >= 2 && len >= 8 && offset <= len - 8,
            DataPhase::Write(len) => fifo_count < FIFO_WRITE_LIMIT && len >= 8 && offset <= len - 8,
        }
    }

    /// Judgement on a command whose phases are all over.
    #[verifier::allow_in_spec]
    pub fn judge(self, rintsts: RIntSts, response: [u32; 4]) -> SdMmcResult<[u32; 4]>
        returns
            (if self.busy_timed_out {
                Err::<[u32; 4], SdMmcError>(SdMmcError::CardBusyTimeout)
            } else if rintsts.error() {
                if rintsts.data_read_timeout() {
                    Err(SdMmcError::DataTimeout)
                } else {
                    Err(SdMmcError::Hardware)
                }
            } else if self.request.kind.has_r1_response() {
                match validate_r1_response(
                    response[0],
                    self.request.kind.requires_app_cmd_accepted(),
                ) {
                    Ok(_) => Ok(response),
                    Err(error) => Err(error),
                }
            } else {
                Ok(response)
            }),
    {
        if self.busy_timed_out {
            Err(SdMmcError::CardBusyTimeout)
        } else if rintsts.error() {
            if rintsts.data_read_timeout() {
                Err(SdMmcError::DataTimeout)
            } else {
                Err(SdMmcError::Hardware)
            }
        } else if self.request.kind.has_r1_response() {
            match validate_r1_response(
                response[0],
                self.request.kind.requires_app_cmd_accepted(),
            ) {
                Ok(_) => Ok(response),
                Err(error) => Err(error),
            }
        } else {
            Ok(response)
        }
    }
}

impl Machine for SendCmd {
    type Act = Op;

    type Event = Reply;

    type Out = SdMmcResult<[u32; 4]>;

    open spec fn op(self) -> Op {
        match self.phase {
            SendPhase::Idle { count } => poll(count > 0, Reg::Cmd),
            SendPhase::IdleClock { .. } => Op::Now,
            SendPhase::IdleCheck => Op::Read(Reg::Cmd),
            SendPhase::DataIdle { again } => poll(again, Reg::Status),
            SendPhase::ClearStale => Op::Acknowledge(Reg::RIntSts),
            SendPhase::WriteArg => Op::Write(Reg::CmdArg, self.request.arg),
            SendPhase::WriteCmd => Op::Write(Reg::Cmd, self.request.kind.build_word().0),
            SendPhase::Accept { count } => poll(count > 0, Reg::Cmd),
            SendPhase::AcceptClock { .. } => Op::Now,
            SendPhase::AcceptCheck => Op::Read(Reg::Cmd),
            SendPhase::NotAccepted => Op::Acknowledge(Reg::RIntSts),
            SendPhase::ResponseStart => Op::Now,
            SendPhase::ResponseWait { again, .. } => poll(again, Reg::RIntSts),
            SendPhase::ResponseClock { .. } => Op::Now,
            SendPhase::ResponseTimeout => Op::Acknowledge(Reg::RIntSts),
            SendPhase::ResponseStatus => Op::Read(Reg::RIntSts),
            SendPhase::ResponseError { status } => Op::Write(Reg::RIntSts, status),
            SendPhase::BusyStart => Op::Now,
            SendPhase::Busy { again, .. } => poll(again, Reg::Status),
            SendPhase::BusyClock { .. } => Op::Now,
            SendPhase::Data { again, .. } => poll(again, Reg::RIntSts),
            SendPhase::FifoLevel { .. } => Op::Read(Reg::Status),
            SendPhase::Fifo { offset, .. } => match self.request.data {
                DataPhase::Write(_) => Op::FifoWrite(offset),
                _ => Op::FifoRead(offset),
            },
            SendPhase::Response => Op::Response,
            SendPhase::ClearFinal { .. } => Op::Acknowledge(Reg::RIntSts),
        }
    }

    fn request(&self) -> (op: Op) {
        match self.phase {
            SendPhase::Idle { count } => poll(count > 0, Reg::Cmd),
            SendPhase::IdleClock { .. } => Op::Now,
            SendPhase::IdleCheck => Op::Read(Reg::Cmd),
            SendPhase::DataIdle { again } => poll(again, Reg::Status),
            SendPhase::ClearStale => Op::Acknowledge(Reg::RIntSts),
            SendPhase::WriteArg => Op::Write(Reg::CmdArg, self.request.arg),
            SendPhase::WriteCmd => Op::Write(Reg::Cmd, self.request.kind.build_word().0),
            SendPhase::Accept { count } => poll(count > 0, Reg::Cmd),
            SendPhase::AcceptClock { .. } => Op::Now,
            SendPhase::AcceptCheck => Op::Read(Reg::Cmd),
            SendPhase::NotAccepted => Op::Acknowledge(Reg::RIntSts),
            SendPhase::ResponseStart => Op::Now,
            SendPhase::ResponseWait { again, .. } => poll(again, Reg::RIntSts),
            SendPhase::ResponseClock { .. } => Op::Now,
            SendPhase::ResponseTimeout => Op::Acknowledge(Reg::RIntSts),
            SendPhase::ResponseStatus => Op::Read(Reg::RIntSts),
            SendPhase::ResponseError { status } => Op::Write(Reg::RIntSts, status),
            SendPhase::BusyStart => Op::Now,
            SendPhase::Busy { again, .. } => poll(again, Reg::Status),
            SendPhase::BusyClock { .. } => Op::Now,
            SendPhase::Data { again, .. } => poll(again, Reg::RIntSts),
            SendPhase::FifoLevel { .. } => Op::Read(Reg::Status),
            SendPhase::Fifo { offset, .. } => match self.request.data {
                DataPhase::Write(_) => Op::FifoWrite(offset),
                _ => Op::FifoRead(offset),
            },
            SendPhase::Response => Op::Response,
            SendPhase::ClearFinal { .. } => Op::Acknowledge(Reg::RIntSts),
        }
    }

    open spec fn next(self, reply: Reply) -> Step<Self, SdMmcResult<[u32; 4]>> {
        match self.phase {
            SendPhase::Idle { count } => if !Cmd(reply.word()).start_cmd() || count
                >= CMD_MAX_WAIT {
                self.at(SendPhase::IdleCheck)
            } else {
                match self.deadline {
                    Some(deadline) => self.at(SendPhase::IdleClock { count, deadline }),
                    None => self.at(SendPhase::Idle { count: count.saturating_add(1) }),
                }
            },
            SendPhase::IdleClock { count, deadline } => if reply.time() >= deadline {
                self.at(SendPhase::IdleCheck)
            } else {
                self.at(SendPhase::Idle { count: count.saturating_add(1) })
            },
            SendPhase::IdleCheck => if Cmd(reply.word()).start_cmd() {
                self.fail(SdMmcError::CommandBusy)
            } else if self.request.kind.build_word().data_expected() {
                self.at(SendPhase::DataIdle { again: false })
            } else {
                self.at(SendPhase::ClearStale)
            },
            SendPhase::DataIdle { .. } => if Status(reply.word()).can_send_data() {
                self.at(SendPhase::ClearStale)
            } else {
                self.at(SendPhase::DataIdle { again: true })
            },
            SendPhase::ClearStale => self.at(SendPhase::WriteArg),
            SendPhase::WriteArg => self.at(SendPhase::WriteCmd),
            SendPhase::WriteCmd => self.at(SendPhase::Accept { count: 0 }),
            SendPhase::Accept { count } => if !Cmd(reply.word()).start_cmd() || count
                >= CMD_MAX_WAIT {
                self.at(SendPhase::AcceptCheck)
            } else {
                match self.deadline {
                    Some(deadline) => self.at(SendPhase::AcceptClock { count, deadline }),
                    None => self.at(SendPhase::Accept { count: count.saturating_add(1) }),
                }
            },
            SendPhase::AcceptClock { count, deadline } => if reply.time() >= deadline {
                self.at(SendPhase::AcceptCheck)
            } else {
                self.at(SendPhase::Accept { count: count.saturating_add(1) })
            },
            SendPhase::AcceptCheck => if Cmd(reply.word()).start_cmd() {
                self.at(SendPhase::NotAccepted)
            } else {
                match self.request.kind {
                    CommandKind::ResetClock => self.at(SendPhase::ResponseStatus),
                    _ => self.at(SendPhase::ResponseStart),
                }
            },
            SendPhase::NotAccepted => self.fail(SdMmcError::CommandStartTimeout),
            SendPhase::ResponseStart => self.at(
                SendPhase::ResponseWait {
                    deadline: earliest(self.deadline, reply.time().saturating_add(SECOND)),
                    again: false,
                },
            ),
            SendPhase::ResponseWait { deadline, .. } => if RIntSts(
                reply.word(),
            ).command_finished() {
                self.at(SendPhase::ResponseStatus)
            } else {
                self.at(SendPhase::ResponseClock { deadline })
            },
            SendPhase::ResponseClock { deadline } => if reply.time() >= deadline {
                self.at(SendPhase::ResponseTimeout)
            } else {
                self.at(SendPhase::ResponseWait { deadline, again: true })
            },
            SendPhase::ResponseTimeout => self.fail(SdMmcError::CommandTimeout),
            SendPhase::ResponseStatus => if RIntSts(reply.word()).error() {
                self.at(SendPhase::ResponseError { status: reply.word() })
            } else {
                match self.request.kind {
                    CommandKind::SelectCard => self.at(SendPhase::BusyStart),
                    _ => self.at(self.data_or_response()),
                }
            },
            SendPhase::ResponseError { .. } => self.fail(SdMmcError::Hardware),
            SendPhase::BusyStart => self.at(
                SendPhase::Busy {
                    deadline: earliest(self.deadline, reply.time().saturating_add(SECOND)),
                    again: false,
                },
            ),
            SendPhase::Busy { deadline, .. } => if Status(reply.word()).can_send_data() {
                self.at(self.data_or_response())
            } else {
                self.at(SendPhase::BusyClock { deadline })
            },
            SendPhase::BusyClock { deadline } => if reply.time() >= deadline {
                SendCmd { busy_timed_out: true, ..self }.at(self.data_or_response())
            } else {
                self.at(SendPhase::Busy { deadline, again: true })
            },
            SendPhase::Data { offset, .. } => {
                let rintsts = RIntSts(reply.word());
                let over = rintsts.data_transfer_over() || rintsts.error();
                if self.fifo_request(rintsts) {
                    self.at(SendPhase::FifoLevel { offset, over })
                } else if over {
                    self.at(SendPhase::Response)
                } else {
                    self.at(SendPhase::Data { offset, again: true })
                }
            },
            SendPhase::FifoLevel { offset, over } => if self.can_move(
                offset,
                Status(reply.word()).fifo_count(),
            ) {
                self.at(SendPhase::Fifo { offset, over })
            } else if over {
                self.at(SendPhase::Response)
            } else {
                self.at(SendPhase::Data { offset, again: true })
            },
            SendPhase::Fifo { offset, over } => self.at(
                SendPhase::FifoLevel { offset: offset.saturating_add(8), over },
            ),
            SendPhase::Response => self.at(SendPhase::ClearFinal { response: reply.response() }),
            SendPhase::ClearFinal { response } => Step::Done(
                self.judge(RIntSts(reply.word()), response),
            ),
        }
    }

    fn step(self, reply: Reply) -> (step: Step<Self, SdMmcResult<[u32; 4]>>) {
        match self.phase {
            SendPhase::Idle { count } => if !Cmd(reply.word()).start_cmd() || count
                >= CMD_MAX_WAIT {
                self.at(SendPhase::IdleCheck)
            } else {
                match self.deadline {
                    Some(deadline) => self.at(SendPhase::IdleClock { count, deadline }),
                    None => self.at(SendPhase::Idle { count: count.saturating_add(1) }),
                }
            },
            SendPhase::IdleClock { count, deadline } => if reply.time() >= deadline {
                self.at(SendPhase::IdleCheck)
            } else {
                self.at(SendPhase::Idle { count: count.saturating_add(1) })
            },
            SendPhase::IdleCheck => if Cmd(reply.word()).start_cmd() {
                self.fail(SdMmcError::CommandBusy)
            } else if self.request.kind.build_word().data_expected() {
                self.at(SendPhase::DataIdle { again: false })
            } else {
                self.at(SendPhase::ClearStale)
            },
            SendPhase::DataIdle { .. } => if Status(reply.word()).can_send_data() {
                self.at(SendPhase::ClearStale)
            } else {
                self.at(SendPhase::DataIdle { again: true })
            },
            SendPhase::ClearStale => self.at(SendPhase::WriteArg),
            SendPhase::WriteArg => self.at(SendPhase::WriteCmd),
            SendPhase::WriteCmd => self.at(SendPhase::Accept { count: 0 }),
            SendPhase::Accept { count } => if !Cmd(reply.word()).start_cmd() || count
                >= CMD_MAX_WAIT {
                self.at(SendPhase::AcceptCheck)
            } else {
                match self.deadline {
                    Some(deadline) => self.at(SendPhase::AcceptClock { count, deadline }),
                    None => self.at(SendPhase::Accept { count: count.saturating_add(1) }),
                }
            },
            SendPhase::AcceptClock { count, deadline } => if reply.time() >= deadline {
                self.at(SendPhase::AcceptCheck)
            } else {
                self.at(SendPhase::Accept { count: count.saturating_add(1) })
            },
            SendPhase::AcceptCheck => if Cmd(reply.word()).start_cmd() {
                self.at(SendPhase::NotAccepted)
            } else {
                match self.request.kind {
                    CommandKind::ResetClock => self.at(SendPhase::ResponseStatus),
                    _ => self.at(SendPhase::ResponseStart),
                }
            },
            SendPhase::NotAccepted => self.fail(SdMmcError::CommandStartTimeout),
            SendPhase::ResponseStart => self.at(
                SendPhase::ResponseWait {
                    deadline: earliest(self.deadline, reply.time().saturating_add(SECOND)),
                    again: false,
                },
            ),
            SendPhase::ResponseWait { deadline, .. } => if RIntSts(
                reply.word(),
            ).command_finished() {
                self.at(SendPhase::ResponseStatus)
            } else {
                self.at(SendPhase::ResponseClock { deadline })
            },
            SendPhase::ResponseClock { deadline } => if reply.time() >= deadline {
                self.at(SendPhase::ResponseTimeout)
            } else {
                self.at(SendPhase::ResponseWait { deadline, again: true })
            },
            SendPhase::ResponseTimeout => self.fail(SdMmcError::CommandTimeout),
            SendPhase::ResponseStatus => if RIntSts(reply.word()).error() {
                self.at(SendPhase::ResponseError { status: reply.word() })
            } else {
                match self.request.kind {
                    CommandKind::SelectCard => self.at(SendPhase::BusyStart),
                    _ => self.at(self.data_or_response()),
                }
            },
            SendPhase::ResponseError { .. } => self.fail(SdMmcError::Hardware),
            SendPhase::BusyStart => self.at(
                SendPhase::Busy {
                    deadline: earliest(self.deadline, reply.time().saturating_add(SECOND)),
                    again: false,
                },
            ),
            SendPhase::Busy { deadline, .. } => if Status(reply.word()).can_send_data() {
                self.at(self.data_or_response())
            } else {
                self.at(SendPhase::BusyClock { deadline })
            },
            SendPhase::BusyClock { deadline } => if reply.time() >= deadline {
                SendCmd { busy_timed_out: true, ..self }.at(self.data_or_response())
            } else {
                self.at(SendPhase::Busy { deadline, again: true })
            },
            SendPhase::Data { offset, .. } => {
                let rintsts = RIntSts(reply.word());
                let over = rintsts.data_transfer_over() || rintsts.error();
                if self.fifo_request(rintsts) {
                    self.at(SendPhase::FifoLevel { offset, over })
                } else if over {
                    self.at(SendPhase::Response)
                } else {
                    self.at(SendPhase::Data { offset, again: true })
                }
            },
            SendPhase::FifoLevel { offset, over } => if self.can_move(
                offset,
                Status(reply.word()).fifo_count(),
            ) {
                self.at(SendPhase::Fifo { offset, over })
            } else if over {
                self.at(SendPhase::Response)
            } else {
                self.at(SendPhase::Data { offset, again: true })
            },
            SendPhase::Fifo { offset, over } => self.at(
                SendPhase::FifoLevel { offset: offset.saturating_add(8), over },
            ),
            SendPhase::Response => self.at(SendPhase::ClearFinal { response: reply.response() }),
            SendPhase::ClearFinal { response } => Step::Done(
                self.judge(RIntSts(reply.word()), response),
            ),
        }
    }
}

/// The operation at `k` submits the command, directly after its argument was
/// written and the status of earlier commands was cleared.
pub open spec fn submission_at(trace: Seq<(Op, Reply)>, k: int, request: Request) -> bool {
    &&& 2 <= k < trace.len()
    &&& trace[k - 2].0 == Op::Acknowledge(Reg::RIntSts)
    &&& trace[k - 1].0 == Op::Write(Reg::CmdArg, request.arg)
    &&& trace[k].0 == Op::Write(Reg::Cmd, request.kind.word().0)
}

/// No command was submitted.
pub open spec fn not_submitted(trace: Seq<(Op, Reply)>) -> bool {
    forall|i: int| 0 <= i < trace.len() ==> !submits((#[trigger] trace[i]).0)
}

/// The command was submitted once, in order, and no other command was.
pub open spec fn submitted_once(trace: Seq<(Op, Reply)>, request: Request) -> bool {
    exists|k: int| #[trigger]
        submission_at(trace, k, request) && forall|i: int|
            0 <= i < trace.len() && i != k ==> !submits((#[trigger] trace[i]).0)
}

/// Bytes that an operation moves.
pub open spec fn moves(op: Op) -> int {
    match op {
        Op::FifoRead(_) => 8,
        Op::FifoWrite(_) => 8,
        _ => 0,
    }
}

/// Bytes that the FIFO operations of a trace have moved.
pub open spec fn moved(trace: Seq<(Op, Reply)>) -> int
    decreases trace.len(),
{
    if trace.len() == 0 {
        0
    } else {
        moved(trace.drop_last()) + moves(trace.last().0)
    }
}

/// The operation belongs to the submission of `request`, after `offset` bytes
/// were moved: it reads the command and status registers, acknowledges
/// interrupts, writes this command and its argument, or moves the next eight
/// bytes of the buffer in the direction of the command.
pub open spec fn allowed(op: Op, request: Request, offset: int) -> bool {
    match op {
        Op::Read(reg) => reg == Reg::Cmd || reg == Reg::Status || reg == Reg::RIntSts,
        Op::Poll(reg) => reg == Reg::Cmd || reg == Reg::Status || reg == Reg::RIntSts,
        Op::Acknowledge(reg) => reg == Reg::RIntSts,
        Op::Write(reg, word) => {
            ||| reg == Reg::RIntSts
            ||| reg == Reg::CmdArg && word == request.arg
            ||| reg == Reg::Cmd && word == request.kind.word().0
        },
        Op::FifoRead(at) => request.data matches DataPhase::Read(len) && at == offset && at + 8
            <= len,
        Op::FifoWrite(at) => request.data matches DataPhase::Write(len) && at == offset && at + 8
            <= len,
        Op::Now => true,
        Op::Response => true,
        _ => false,
    }
}

/// A look at the status found the card or the data path busy.
pub open spec fn busy_at(trace: Seq<(Op, Reply)>, i: int) -> bool {
    &&& 0 <= i < trace.len()
    &&& trace[i].0 == Op::Read(Reg::Status) || trace[i].0 == Op::Poll(Reg::Status)
    &&& !Status(trace[i].1.word()).can_send_data()
}

/// Some look at the status found the card or the data path busy.
pub open spec fn busy_seen(trace: Seq<(Op, Reply)>) -> bool {
    exists|i: int| #[trigger] busy_at(trace, i)
}

/// What the end of a trace shows when the submission has this outcome.
pub open spec fn justified(
    trace: Seq<(Op, Reply)>,
    request: Request,
    outcome: SdMmcResult<[u32; 4]>,
) -> bool {
    match outcome {
        Ok(response) => {
            &&& trace.len() >= 2
            &&& op_back(trace, 0) == Op::Acknowledge(Reg::RIntSts)
            &&& !RIntSts(reply_back(trace, 0).word()).error()
            &&& op_back(trace, 1) == Op::Response
            &&& response == reply_back(trace, 1).response()
            &&& request.kind.has_r1_response() ==> crate::error::r1_verdict(
                response[0],
                request.kind.requires_app_cmd_accepted(),
            ) is Ok
        },
        Err(SdMmcError::CommandBusy) => {
            &&& trace.len() >= 1
            &&& op_back(trace, 0) == Op::Read(Reg::Cmd)
            &&& Cmd(reply_back(trace, 0).word()).start_cmd()
        },
        Err(SdMmcError::CommandStartTimeout) => {
            &&& trace.len() >= 2
            &&& op_back(trace, 0) == Op::Acknowledge(Reg::RIntSts)
            &&& op_back(trace, 1) == Op::Read(Reg::Cmd)
            &&& Cmd(reply_back(trace, 1).word()).start_cmd()
        },
        Err(SdMmcError::CommandTimeout) => {
            &&& trace.len() >= 3
            &&& op_back(trace, 0) == Op::Acknowledge(Reg::RIntSts)
            &&& op_back(trace, 1) == Op::Now
            &&& op_back(trace, 2) == Op::Read(Reg::RIntSts) || op_back(trace, 2) == Op::Poll(
                Reg::RIntSts,
            )
            &&& !RIntSts(reply_back(trace, 2).word()).command_finished()
        },
        Err(SdMmcError::DataTimeout) => {
            &&& trace.len() >= 2
            &&& op_back(trace, 1) == Op::Response
            &&& op_back(trace, 0) == Op::Acknowledge(Reg::RIntSts)
            &&& RIntSts(reply_back(trace, 0).word()).error()
            &&& RIntSts(reply_back(trace, 0).word()).data_read_timeout()
        },
        Err(SdMmcError::Hardware) => {
            ||| {
                &&& trace.len() >= 2
                &&& op_back(trace, 1) == Op::Response
                &&& op_back(trace, 0) == Op::Acknowledge(Reg::RIntSts)
                &&& RIntSts(reply_back(trace, 0).word()).error()
                &&& !RIntSts(reply_back(trace, 0).word()).data_read_timeout()
            }
            ||| {
                &&& trace.len() >= 2
                &&& op_back(trace, 1) == Op::Read(Reg::RIntSts)
                &&& RIntSts(reply_back(trace, 1).word()).error()
                &&& op_back(trace, 0) == Op::Write(Reg::RIntSts, reply_back(trace, 1).word())
                &&& request.kind != CommandKind::ResetClock ==> trace.len() >= 3 && looks(
                    op_back(trace, 2),
                    Reg::RIntSts,
                )
            }
        },
        Err(SdMmcError::CardBusyTimeout) => request.kind == CommandKind::SelectCard && busy_seen(
            trace,
        ),
        Err(error) => {
            &&& trace.len() >= 2
            &&& request.kind.has_r1_response()
            &&& op_back(trace, 1) == Op::Response
            &&& crate::error::r1_verdict(
                reply_back(trace, 1).response()[0],
                request.kind.requires_app_cmd_accepted(),
            ) == Err::<(), SdMmcError>(error)
        },
    }
}

impl SendPhase {
    /// The command has not been submitted yet.
    pub open spec fn before_submission(self) -> bool {
        match self {
            SendPhase::Idle { .. } => true,
            SendPhase::IdleClock { .. } => true,
            SendPhase::IdleCheck => true,
            SendPhase::DataIdle { .. } => true,
            SendPhase::ClearStale => true,
            SendPhase::WriteArg => true,
            SendPhase::WriteCmd => true,
            _ => false,
        }
    }
}

/// The submission has counted the bytes that were moved, and moves no more than its
/// buffer holds.
pub open spec fn counts(
    request: Request,
    moved: int,
    at: Step<SendCmd, SdMmcResult<[u32; 4]>>,
) -> bool {
    at matches Step::Next(m) ==> {
        &&& m.request == request
        &&& match m.phase {
            SendPhase::Data { offset, .. } => offset == moved,
            SendPhase::FifoLevel { offset, .. } => offset == moved,
            SendPhase::Fifo { offset, .. } => {
                &&& offset == moved
                &&& match request.data {
                    DataPhase::Nothing => false,
                    DataPhase::Read(len) => offset + 8 <= len,
                    DataPhase::Write(len) => offset + 8 <= len,
                }
            },
            SendPhase::Response => true,
            SendPhase::ClearFinal { .. } => true,
            _ => moved == 0,
        }
    }
}

proof fn lemma_counts(request: Request, moved: int, m: SendCmd, reply: Reply)
    requires
        counts(request, moved, Step::Next(m)),
    ensures
        allowed(m.op(), request, moved),
        counts(request, moved + moves(m.op()), m.next(reply)),
{
}

/// Every operation so far belongs to the submission, and the bytes counted are
/// the bytes moved.
pub open spec fn keeps_to_command(
    request: Request,
    trace: Seq<(Op, Reply)>,
    at: Step<SendCmd, SdMmcResult<[u32; 4]>>,
) -> bool {
    &&& forall|i: int|
        0 <= i < trace.len() ==> allowed((#[trigger] trace[i]).0, request, moved(trace.take(i)))
    &&& counts(request, moved(trace), at)
}

proof fn lemma_keeps_to_command(
    request: Request,
    trace: Seq<(Op, Reply)>,
    m: SendCmd,
    reply: Reply,
)
    requires
        keeps_to_command(request, trace, Step::Next(m)),
    ensures
        keeps_to_command(request, trace.push((m.op(), reply)), m.next(reply)),
{
    lemma_counts(request, moved(trace), m, reply);
    lemma_one_more_allowed(request, trace, m.op(), reply);
}

proof fn lemma_one_more_allowed(request: Request, trace: Seq<(Op, Reply)>, op: Op, reply: Reply)
    requires
        forall|i: int|
            0 <= i < trace.len() ==> allowed(
                (#[trigger] trace[i]).0,
                request,
                moved(trace.take(i)),
            ),
        allowed(op, request, moved(trace)),
    ensures
        ({
            let after = trace.push((op, reply));
            &&& moved(after) == moved(trace) + moves(op)
            &&& forall|i: int|
                0 <= i < after.len() ==> allowed(
                    (#[trigger] after[i]).0,
                    request,
                    moved(after.take(i)),
                )
        }),
{
    let after = trace.push((op, reply));
    assert(after.drop_last() =~= trace);
    assert forall|i: int| 0 <= i < after.len() implies allowed(
        (#[trigger] after[i]).0,
        request,
        moved(after.take(i)),
    ) by {
        if i < trace.len() {
            assert(after[i] == trace[i]);
            assert(after.take(i) =~= trace.take(i));
        } else {
            assert(after.take(i) =~= trace);
        }
    }
}

/// Whatever the hardware replies, a submission performs only operations that
/// belong to its command, and it moves the buffer eight bytes at a time, in
/// order and within its bounds.
pub proof fn law_send_keeps_to_its_command(
    request: Request,
    deadline: Option<u64>,
    replies: Seq<Reply>,
)
    ensures
        ({
            let trace = crate::io::run(
                Step::Next(SendCmd::new(request, deadline)),
                replies,
            ).trace;
            forall|i: int|
                0 <= i < trace.len() ==> allowed(
                    (#[trigger] trace[i]).0,
                    request,
                    moved(trace.take(i)),
                )
        }),
{
    let start = Step::<SendCmd, SdMmcResult<[u32; 4]>>::Next(SendCmd::new(request, deadline));
    let inv = |trace: Seq<(Op, Reply)>, at: Step<SendCmd, SdMmcResult<[u32; 4]>>|
        keeps_to_command(request, trace, at);
    assert forall|trace: Seq<(Op, Reply)>, m: SendCmd, reply: Reply|
        inv(trace, Step::Next(m)) implies #[trigger] inv(
        trace.push((m.op(), reply)),
        m.next(reply),
    ) by {
        lemma_keeps_to_command(request, trace, m, reply);
    }
    crate::io::lemma_run_invariant(start, replies, inv);
}

/// The command was submitted once if the submission has got past that point,
/// and not at all before.
pub open spec fn submission_discipline(
    request: Request,
    trace: Seq<(Op, Reply)>,
    at: Step<SendCmd, SdMmcResult<[u32; 4]>>,
) -> bool {
    match at {
        Step::Done(outcome) => if outcome == Err::<[u32; 4], SdMmcError>(SdMmcError::CommandBusy) {
            not_submitted(trace)
        } else {
            submitted_once(trace, request)
        },
        Step::Next(m) => {
            &&& m.request == request
            &&& if m.phase.before_submission() {
                not_submitted(trace)
            } else {
                submitted_once(trace, request)
            }
            &&& m.phase is WriteArg ==> trace.len() >= 1 && op_back(trace, 0) == Op::Acknowledge(
                Reg::RIntSts,
            )
            &&& m.phase is WriteCmd ==> {
                &&& trace.len() >= 2
                &&& op_back(trace, 0) == Op::Write(Reg::CmdArg, request.arg)
                &&& op_back(trace, 1) == Op::Acknowledge(Reg::RIntSts)
            }
        },
    }
}

proof fn lemma_submission_discipline(
    request: Request,
    trace: Seq<(Op, Reply)>,
    m: SendCmd,
    reply: Reply,
)
    requires
        submission_discipline(request, trace, Step::Next(m)),
    ensures
        submission_discipline(request, trace.push((m.op(), reply)), m.next(reply)),
{
    let after = trace.push((m.op(), reply));
    if m.phase is WriteCmd {
        assert(submission_at(after, trace.len() as int, request));
        assert(submitted_once(after, request));
    } else if m.phase.before_submission() {
        assert(!submits(m.op()));
        assert(not_submitted(after));
    } else {
        assert(!submits(m.op()));
        let k = choose|k: int| #[trigger]
            submission_at(trace, k, request) && forall|i: int|
                0 <= i < trace.len() && i != k ==> !submits((#[trigger] trace[i]).0);
        assert(submission_at(after, k, request));
        assert(submitted_once(after, request));
    }
}

/// Whatever the hardware replies, a submission that ends with `CommandBusy` has
/// submitted nothing. One that ends otherwise has submitted its command once,
/// directly after clearing the old status and writing the argument, and nothing
/// else.
pub proof fn law_send_submits_once(request: Request, deadline: Option<u64>, replies: Seq<Reply>)
    ensures
        ({
            let done = crate::io::run(Step::Next(SendCmd::new(request, deadline)), replies);
            done.at matches Step::Done(outcome) ==> if outcome == Err::<[u32; 4], SdMmcError>(
                SdMmcError::CommandBusy,
            ) {
                not_submitted(done.trace)
            } else {
                submitted_once(done.trace, request)
            }
        }),
{
    let start = Step::<SendCmd, SdMmcResult<[u32; 4]>>::Next(SendCmd::new(request, deadline));
    let inv = |trace: Seq<(Op, Reply)>, at: Step<SendCmd, SdMmcResult<[u32; 4]>>|
        submission_discipline(request, trace, at);
    assert forall|trace: Seq<(Op, Reply)>, m: SendCmd, reply: Reply|
        inv(trace, Step::Next(m)) implies #[trigger] inv(
        trace.push((m.op(), reply)),
        m.next(reply),
    ) by {
        lemma_submission_discipline(request, trace, m, reply);
    }
    crate::io::lemma_run_invariant(start, replies, inv);
}

/// The outcome, or the point that the submission has reached, is the one that
/// the last replies show.
pub open spec fn outcome_shown(
    request: Request,
    trace: Seq<(Op, Reply)>,
    at: Step<SendCmd, SdMmcResult<[u32; 4]>>,
) -> bool {
    let n = trace.len() as int;
    match at {
        Step::Done(outcome) => justified(trace, request, outcome),
        Step::Next(m) => {
            &&& m.request == request
            &&& m.busy_timed_out ==> request.kind == CommandKind::SelectCard && busy_seen(trace)
            &&& match m.phase {
                SendPhase::NotAccepted => {
                    &&& n >= 1
                    &&& op_back(trace, 0) == Op::Read(Reg::Cmd)
                    &&& Cmd(reply_back(trace, 0).word()).start_cmd()
                },
                SendPhase::ResponseClock { .. } => {
                    &&& n >= 1
                    &&& op_back(trace, 0) == Op::Read(Reg::RIntSts) || op_back(trace, 0)
                        == Op::Poll(Reg::RIntSts)
                    &&& !RIntSts(reply_back(trace, 0).word()).command_finished()
                },
                SendPhase::ResponseTimeout => {
                    &&& n >= 2
                    &&& op_back(trace, 0) == Op::Now
                    &&& op_back(trace, 1) == Op::Read(Reg::RIntSts) || op_back(trace, 1)
                        == Op::Poll(Reg::RIntSts)
                    &&& !RIntSts(reply_back(trace, 1).word()).command_finished()
                },
                SendPhase::ResponseStatus => request.kind != CommandKind::ResetClock ==> n >= 1
                    && looks(op_back(trace, 0), Reg::RIntSts),
                SendPhase::ResponseError { status } => {
                    &&& request.kind != CommandKind::ResetClock ==> n >= 2 && looks(
                        op_back(trace, 1),
                        Reg::RIntSts,
                    )
                    &&& n >= 1
                    &&& op_back(trace, 0) == Op::Read(Reg::RIntSts)
                    &&& RIntSts(status).error()
                    &&& status == reply_back(trace, 0).word()
                },
                SendPhase::BusyStart => request.kind == CommandKind::SelectCard,
                SendPhase::Busy { .. } => request.kind == CommandKind::SelectCard,
                SendPhase::BusyClock { .. } => request.kind == CommandKind::SelectCard && busy_seen(
                    trace,
                ),
                SendPhase::ClearFinal { response } => {
                    &&& n >= 1
                    &&& op_back(trace, 0) == Op::Response
                    &&& response == reply_back(trace, 0).response()
                },
                _ => true,
            }
        },
    }
}

/// Each step of a submission keeps that its outcome is shown.
pub proof fn lemma_outcome_shown(
    request: Request,
    trace: Seq<(Op, Reply)>,
    m: SendCmd,
    reply: Reply,
)
    requires
        outcome_shown(request, trace, Step::Next(m)),
    ensures
        outcome_shown(request, trace.push((m.op(), reply)), m.next(reply)),
{
    if busy_seen(trace) {
        let i = choose|i: int| #[trigger] busy_at(trace, i);
        assert(busy_at(trace.push((m.op(), reply)), i));
    }
    if m.phase is Busy && !Status(reply.word()).can_send_data() {
        assert(busy_at(trace.push((m.op(), reply)), trace.len() as int));
    }
    let after = trace.push((m.op(), reply));
    assert(reply_back(after, 0) == reply && op_back(after, 0) == m.op());
    if trace.len() > 0 {
        assert(reply_back(after, 1) == reply_back(trace, 0) && op_back(after, 1) == op_back(
            trace,
            0,
        ));
    }
    if trace.len() > 1 {
        assert(reply_back(after, 2) == reply_back(trace, 1) && op_back(after, 2) == op_back(
            trace,
            1,
        ));
    }
}

/// The outcome of a submission is the one that the last replies of the hardware
/// show: success only with a response that passes its checks and a status
/// without errors, and each error only for its own reason.
pub proof fn law_send_outcome_is_justified(
    request: Request,
    deadline: Option<u64>,
    replies: Seq<Reply>,
)
    ensures
        ({
            let done = crate::io::run(Step::Next(SendCmd::new(request, deadline)), replies);
            done.at matches Step::Done(outcome) ==> justified(done.trace, request, outcome)
        }),
{
    let start = Step::<SendCmd, SdMmcResult<[u32; 4]>>::Next(SendCmd::new(request, deadline));
    let inv = |trace: Seq<(Op, Reply)>, at: Step<SendCmd, SdMmcResult<[u32; 4]>>|
        outcome_shown(request, trace, at);
    assert forall|trace: Seq<(Op, Reply)>, m: SendCmd, reply: Reply|
        inv(trace, Step::Next(m)) implies #[trigger] inv(
        trace.push((m.op(), reply)),
        m.next(reply),
    ) by {
        lemma_outcome_shown(request, trace, m, reply);
    }
    crate::io::lemma_run_invariant(start, replies, inv);
}

} // verus!
