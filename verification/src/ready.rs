//! Waiting for the card after a write.
//!
//! After its data has arrived, a card programs its memory and is busy
//! meanwhile. The polling wait watches the controller's busy signals. The
//! asynchronous wait asks the card for its status and lets other tasks run in
//! between.

use vstd::arithmetic::power2::{lemma2_to64, lemma_pow2_unfold, pow2};
use vstd::prelude::*;

use crate::cmd::{CommandKind, DataPhase, Request};
use crate::error::{SdMmcError, SdMmcResult};
use crate::init::rca_arg;
use crate::io::{Machine, Op, Reply, Step};
use crate::regs::{Reg, Status};
use crate::send::{poll, SendCmd};
#[allow(unused_imports)]
use crate::send::SendPhase;
use crate::status::{R1CardStatus, R1CurrentState};

verus! {

/// Nanoseconds that the card may stay busy after a write.
pub const WRITE_BUSY_TIMEOUT: u64 = 5_000_000_000;

/// Where the polling wait stands.
#[derive(Clone, Copy, Debug, PartialEq, Eq, Structural)]
pub enum PollReadyPhase {
    /// Taking the time at which the wait begins.
    Clock,
    /// Looking at the busy signals.
    Busy {
        /// The deadline.
        deadline: u64,
        /// Not the first look.
        again: bool,
    },
    /// The card is busy; has the deadline passed?
    Deadline {
        /// The deadline.
        deadline: u64,
    },
}

/// Polls until the card is ready after a write.
#[derive(Clone, Copy, Debug, PartialEq, Eq, Structural)]
pub struct PollReady {
    /// Looks at the busy signals begun.
    pub attempts: usize,
    /// Where the wait stands.
    pub phase: PollReadyPhase,
}

impl PollReady {
    /// Begins the wait.
    #[verifier::allow_in_spec]
    pub fn new() -> PollReady
        returns
            (PollReady { attempts: 0, phase: PollReadyPhase::Clock }),
    {
        PollReady { attempts: 0, phase: PollReadyPhase::Clock }
    }

    /// The same wait at another point.
    #[verifier::allow_in_spec]
    pub fn at(self, phase: PollReadyPhase) -> Step<PollReady, SdMmcResult>
        returns
            Step::<PollReady, SdMmcResult>::Next(PollReady { phase, ..self }),
    {
        Step::Next(PollReady { phase, ..self })
    }

    /// Begins a look at the busy signals.
    #[verifier::allow_in_spec]
    pub fn look(self, deadline: u64, again: bool) -> Step<PollReady, SdMmcResult>
        returns
            (PollReady { attempts: self.attempts.saturating_add(1), ..self }).at(
                PollReadyPhase::Busy { deadline, again },
            ),
    {
        PollReady { attempts: self.attempts.saturating_add(1), ..self }.at(
            PollReadyPhase::Busy { deadline, again },
        )
    }
}

impl Machine for PollReady {
    type Act = Op;

    type Event = Reply;

    type Out = SdMmcResult;

    open spec fn op(self) -> Op {
        match self.phase {
            PollReadyPhase::Clock => Op::Now,
            PollReadyPhase::Busy { again, .. } => poll(again, Reg::Status),
            PollReadyPhase::Deadline { .. } => Op::Now,
        }
    }

    fn request(&self) -> (op: Op) {
        match self.phase {
            PollReadyPhase::Clock => Op::Now,
            PollReadyPhase::Busy { again, .. } => poll(again, Reg::Status),
            PollReadyPhase::Deadline { .. } => Op::Now,
        }
    }

    open spec fn next(self, reply: Reply) -> Step<Self, SdMmcResult> {
        match self.phase {
            PollReadyPhase::Clock => self.look(
                reply.time().saturating_add(WRITE_BUSY_TIMEOUT),
                false,
            ),
            PollReadyPhase::Busy { deadline, .. } => if Status(reply.word()).can_send_data() {
                Step::Done(Ok(()))
            } else {
                self.at(PollReadyPhase::Deadline { deadline })
            },
            PollReadyPhase::Deadline { deadline } => if reply.time() >= deadline {
                Step::Done(Err(SdMmcError::CardBusyTimeout))
            } else {
                self.look(deadline, true)
            },
        }
    }

    fn step(self, reply: Reply) -> (step: Step<Self, SdMmcResult>) {
        match self.phase {
            PollReadyPhase::Clock => self.look(
                reply.time().saturating_add(WRITE_BUSY_TIMEOUT),
                false,
            ),
            PollReadyPhase::Busy { deadline, .. } => if Status(reply.word()).can_send_data() {
                Step::Done(Ok(()))
            } else {
                self.at(PollReadyPhase::Deadline { deadline })
            },
            PollReadyPhase::Deadline { deadline } => if reply.time() >= deadline {
                Step::Done(Err(SdMmcError::CardBusyTimeout))
            } else {
                self.look(deadline, true)
            },
        }
    }
}

/// The number is a power of two.
pub open spec fn power_of_two(number: usize) -> bool {
    exists|n: nat| number == #[trigger] pow2(n)
}

/// Tells whether an asynchronous wait for the card is reported when it ends well:
/// the first eight are, and then those whose number is a power of two.
pub fn reports_wait(sequence: usize) -> (reported: bool)
    ensures
        reported == (sequence <= 8 || power_of_two(sequence)),
{
    if sequence <= 8 {
        return true;
    }
    let mut rest: usize = sequence;
    while rest % 2 == 0
        invariant
            rest > 0,
            power_of_two(rest) == power_of_two(sequence),
        decreases rest,
    {
        let ghost whole = rest;
        rest = rest / 2;
        proof {
            if power_of_two(whole) {
                let n = choose|n: nat| whole == #[trigger] pow2(n);
                if n > 0 {
                    lemma_pow2_unfold(n);
                    assert(rest == pow2((n - 1) as nat));
                } else {
                    lemma2_to64();
                }
            }
            if power_of_two(rest) {
                let n = choose|n: nat| rest == #[trigger] pow2(n);
                lemma_pow2_unfold(n + 1);
                assert(whole == pow2(n + 1));
            }
        }
    }
    proof {
        if rest == 1 {
            lemma2_to64();
            assert(rest == pow2(0));
        } else if power_of_two(rest) {
            let n = choose|n: nat| rest == #[trigger] pow2(n);
            if n == 0 {
                lemma2_to64();
            } else {
                lemma_pow2_unfold(n);
            }
        }
    }
    rest == 1
}

/// The card has finished programming: its status reports no error, the transfer
/// state and readiness for data, and the controller sees no busy signal.
pub open spec fn programmed(card_status: u32, controller: Status) -> bool {
    let status = R1CardStatus::of(card_status);
    &&& !status.failed()
    &&& crate::status::bit_set(card_status, 8)
    &&& status.state() == R1CurrentState::Transfer
    &&& controller.can_send_data()
}

/// Tells whether the card has finished programming.
#[verifier::when_used_as_spec(programmed)]
pub fn is_programmed(card_status: u32, controller: Status) -> (ready: bool)
    ensures
        ready == programmed(card_status, controller),
{
    let status = R1CardStatus::from_raw(card_status);
    let in_transfer_state = match status.current_state() {
        R1CurrentState::Transfer => true,
        _ => false,
    };
    !status.has_error() && status.ready_for_data() && in_transfer_state
        && controller.can_send_data()
}

/// Where the asynchronous wait stands.
#[derive(Clone, Copy, Debug, PartialEq, Eq)]
pub enum AskReadyPhase {
    /// Taking the time at which the wait begins.
    Clock,
    /// The card was not ready; has the deadline passed?
    Deadline {
        /// The deadline.
        deadline: u64,
    },
    /// Asking the card for its status.
    Ask {
        /// The command.
        send: SendCmd,
        /// The deadline.
        deadline: u64,
    },
    /// Looking at the busy signals.
    Busy {
        /// The card's status.
        card_status: u32,
        /// The deadline.
        deadline: u64,
    },
    /// The card is not ready; is there time to let other tasks run?
    YieldClock {
        /// The deadline.
        deadline: u64,
    },
    /// Letting other tasks run.
    Yield {
        /// The deadline.
        deadline: u64,
    },
}

/// Asks the card for its status until it is ready after a write.
#[derive(Clone, Copy, Debug, PartialEq, Eq)]
pub struct AskReady {
    /// Relative card address.
    pub rca: u16,
    /// Inquiries begun.
    pub attempts: usize,
    /// Where the wait stands.
    pub phase: AskReadyPhase,
}

impl AskReady {
    /// Begins the wait.
    #[verifier::allow_in_spec]
    pub fn new(rca: u16) -> AskReady
        returns
            (AskReady { rca, attempts: 0, phase: AskReadyPhase::Clock }),
    {
        AskReady { rca, attempts: 0, phase: AskReadyPhase::Clock }
    }

    /// The same wait at another point.
    #[verifier::allow_in_spec]
    pub fn at(self, phase: AskReadyPhase) -> Step<AskReady, SdMmcResult>
        returns
            Step::<AskReady, SdMmcResult>::Next(AskReady { phase, ..self }),
    {
        Step::Next(AskReady { phase, ..self })
    }

    /// Begins an inquiry. The deadline of the wait limits the command as well.
    #[verifier::allow_in_spec]
    pub fn ask(self, deadline: u64) -> Step<AskReady, SdMmcResult>
        returns
            (AskReady { attempts: self.attempts.saturating_add(1), ..self }).at(
                AskReadyPhase::Ask {
                    send: SendCmd::new(
                        Request {
                            kind: CommandKind::SendStatus,
                            arg: rca_arg(self.rca),
                            data: DataPhase::Nothing,
                        },
                        Some(deadline),
                    ),
                    deadline,
                },
            ),
    {
        AskReady { attempts: self.attempts.saturating_add(1), ..self }.at(
            AskReadyPhase::Ask {
                send: SendCmd::new(
                    Request {
                        kind: CommandKind::SendStatus,
                        arg: rca_arg(self.rca),
                        data: DataPhase::Nothing,
                    },
                    Some(deadline),
                ),
                deadline,
            },
        )
    }

    /// The wait is suspended: other tasks run. No command is under way here, but
    /// the card may still be programming.
    #[verifier::allow_in_spec]
    pub fn suspended(self) -> bool
        returns
            (match self.phase {
                AskReadyPhase::Yield { .. } => true,
                _ => false,
            }),
    {
        match self.phase {
            AskReadyPhase::Yield { .. } => true,
            _ => false,
        }
    }
}

impl Machine for AskReady {
    type Act = Op;

    type Event = Reply;

    type Out = SdMmcResult;

    open spec fn op(self) -> Op {
        match self.phase {
            AskReadyPhase::Clock => Op::Now,
            AskReadyPhase::Deadline { .. } => Op::Now,
            AskReadyPhase::Ask { send, .. } => send.op(),
            AskReadyPhase::Busy { .. } => Op::Read(Reg::Status),
            AskReadyPhase::YieldClock { .. } => Op::Now,
            AskReadyPhase::Yield { .. } => Op::Yield,
        }
    }

    fn request(&self) -> (op: Op) {
        match self.phase {
            AskReadyPhase::Clock => Op::Now,
            AskReadyPhase::Deadline { .. } => Op::Now,
            AskReadyPhase::Ask { send, .. } => send.request(),
            AskReadyPhase::Busy { .. } => Op::Read(Reg::Status),
            AskReadyPhase::YieldClock { .. } => Op::Now,
            AskReadyPhase::Yield { .. } => Op::Yield,
        }
    }

    open spec fn next(self, reply: Reply) -> Step<Self, SdMmcResult> {
        match self.phase {
            AskReadyPhase::Clock => self.ask(reply.time().saturating_add(WRITE_BUSY_TIMEOUT)),
            AskReadyPhase::Deadline { deadline } => if reply.time() >= deadline {
                Step::Done(Err(SdMmcError::CardBusyTimeout))
            } else {
                self.ask(deadline)
            },
            AskReadyPhase::Ask { send, deadline } => match send.next(reply) {
                Step::Next(send) => self.at(AskReadyPhase::Ask { send, deadline }),
                Step::Done(Ok(response)) => self.at(
                    AskReadyPhase::Busy { card_status: response[0], deadline },
                ),
                Step::Done(Err(error)) => Step::Done(Err(error)),
            },
            AskReadyPhase::Busy { card_status, deadline } => if is_programmed(
                card_status,
                Status(reply.word()),
            ) {
                Step::Done(Ok(()))
            } else {
                self.at(AskReadyPhase::YieldClock { deadline })
            },
            AskReadyPhase::YieldClock { deadline } => if reply.time() < deadline {
                self.at(AskReadyPhase::Yield { deadline })
            } else {
                self.at(AskReadyPhase::Deadline { deadline })
            },
            AskReadyPhase::Yield { deadline } => self.at(AskReadyPhase::Deadline { deadline }),
        }
    }

    fn step(self, reply: Reply) -> (step: Step<Self, SdMmcResult>) {
        match self.phase {
            AskReadyPhase::Clock => self.ask(reply.time().saturating_add(WRITE_BUSY_TIMEOUT)),
            AskReadyPhase::Deadline { deadline } => if reply.time() >= deadline {
                Step::Done(Err(SdMmcError::CardBusyTimeout))
            } else {
                self.ask(deadline)
            },
            AskReadyPhase::Ask { send, deadline } => match send.step(reply) {
                Step::Next(send) => self.at(AskReadyPhase::Ask { send, deadline }),
                Step::Done(Ok(response)) => self.at(
                    AskReadyPhase::Busy { card_status: response[0], deadline },
                ),
                Step::Done(Err(error)) => Step::Done(Err(error)),
            },
            AskReadyPhase::Busy { card_status, deadline } => if is_programmed(
                card_status,
                Status(reply.word()),
            ) {
                Step::Done(Ok(()))
            } else {
                self.at(AskReadyPhase::YieldClock { deadline })
            },
            AskReadyPhase::YieldClock { deadline } => if reply.time() < deadline {
                self.at(AskReadyPhase::Yield { deadline })
            } else {
                self.at(AskReadyPhase::Deadline { deadline })
            },
            AskReadyPhase::Yield { deadline } => self.at(AskReadyPhase::Deadline { deadline }),
        }
    }
}

/// The trace ends with a look at the busy signals, directly after a card status
/// was received, and the two show that the card has finished programming.
pub open spec fn ready_seen(trace: Seq<(Op, Reply)>) -> bool {
    &&& trace.len() >= 3
    &&& crate::trace::op_back(trace, 2) == Op::Response
    &&& crate::trace::op_back(trace, 0) == Op::Read(Reg::Status)
    &&& programmed(
        crate::trace::reply_back(trace, 2).response()[0],
        Status(crate::trace::reply_back(trace, 0).word()),
    )
}

/// What holds at every point of the asynchronous wait.
pub open spec fn ask_invariant(
    rca: u16,
    trace: Seq<(Op, Reply)>,
    at: Step<AskReady, SdMmcResult>,
) -> bool {
    match at {
        Step::Next(m) => {
            &&& m.rca == rca
            &&& match m.phase {
                AskReadyPhase::Ask { send, .. } => {
                    &&& send.request.kind == CommandKind::SendStatus
                    &&& send.request.arg == rca_arg(rca)
                    &&& send.request.data is Nothing
                    &&& send.phase matches SendPhase::ClearFinal { response } ==> {
                        &&& trace.len() >= 1
                        &&& crate::trace::op_back(trace, 0) == Op::Response
                        &&& response == crate::trace::reply_back(trace, 0).response()
                    }
                },
                AskReadyPhase::Busy { card_status, .. } => {
                    &&& trace.len() >= 2
                    &&& crate::trace::op_back(trace, 1) == Op::Response
                    &&& card_status == crate::trace::reply_back(trace, 1).response()[0]
                },
                _ => true,
            }
        },
        Step::Done(result) => {
            result is Ok ==> ready_seen(trace)
        },
    }
}

/// Each step of the asynchronous wait keeps what holds of it.
pub proof fn lemma_ask_step(rca: u16, trace: Seq<(Op, Reply)>, m: AskReady, reply: Reply)
    requires
        ask_invariant(rca, trace, Step::Next(m)),
    ensures
        ask_invariant(rca, trace.push((m.op(), reply)), m.next(reply)),
        m.op() matches Op::Write(Reg::Cmd, word) ==> word == CommandKind::SendStatus.word().0,
        m.op() matches Op::Write(Reg::CmdArg, word) ==> word == rca_arg(rca),
{
    let after = trace.push((m.op(), reply));
    assert(crate::trace::op_back(after, 0) == m.op());
    assert(crate::trace::reply_back(after, 0) == reply);
    if trace.len() >= 1 {
        assert(crate::trace::op_back(after, 1) == crate::trace::op_back(trace, 0));
        assert(crate::trace::reply_back(after, 1) == crate::trace::reply_back(trace, 0));
    }
    if trace.len() >= 2 {
        assert(crate::trace::op_back(after, 2) == crate::trace::op_back(trace, 1));
        assert(crate::trace::reply_back(after, 2) == crate::trace::reply_back(trace, 1));
    }
}

/// While it waits for the card, the asynchronous write sends no command but
/// CMD13 to the selected card, and it succeeds only when the card reports that it
/// is ready in the transfer state and the controller's busy signals are released.
pub proof fn law_ask_ready_only_inquires(rca: u16, replies: Seq<Reply>)
    ensures
        ({
            let done = crate::io::run(Step::Next(AskReady::new(rca)), replies);
            match done.at {
                Step::Next(m) => {
                    &&& m.op() matches Op::Write(Reg::Cmd, word) ==> word
                        == CommandKind::SendStatus.word().0
                    &&& m.op() matches Op::Write(Reg::CmdArg, word) ==> word == rca_arg(rca)
                },
                Step::Done(result) => result is Ok ==> ready_seen(done.trace),
            }
        }),
{
    let start = Step::<AskReady, SdMmcResult>::Next(AskReady::new(rca));
    let inv = |trace: Seq<(Op, Reply)>, at: Step<AskReady, SdMmcResult>|
        ask_invariant(rca, trace, at);
    assert forall|trace: Seq<(Op, Reply)>, m: AskReady, reply: Reply|
        inv(trace, Step::Next(m)) implies #[trigger] inv(
        trace.push((m.op(), reply)),
        m.next(reply),
    ) by {
        lemma_ask_step(rca, trace, m, reply);
    }
    crate::io::lemma_run_invariant(start, replies, inv);
    let done = crate::io::run(start, replies);
    if let Step::Next(m) = done.at {
        lemma_ask_step(rca, done.trace, m, Reply::Done);
    }
}

} // verus!
