//! A command is submitted and answered in its time: what must have been seen before each
//! step, and how long each wait lasts.

use vstd::prelude::*;

use crate::cmd::{CommandKind, DataPhase, Request};
use crate::error::{SdMmcError, SdMmcResult};
use crate::io::{run, Machine, Op, Reply, Step};
use crate::regs::Reg;
use crate::send::{SendCmd, SendPhase};
use crate::trace::looks;

verus! {

/// Looks at the command register in a row; clock readings between them do not matter.
pub open spec fn command_looks(trace: Seq<(Op, Reply)>) -> int
    decreases trace.len(),
{
    if trace.len() == 0 {
        0
    } else if looks(trace.last().0, Reg::Cmd) {
        command_looks(trace.drop_last()) + 1
    } else if trace.last().0 is Now {
        command_looks(trace.drop_last())
    } else {
        0
    }
}

/// When the wait for a response or for the card began that is under way. It goes on as
/// long as looks and clock readings follow each other; a second look in a row ends it.
pub open spec fn waiting_since(trace: Seq<(Op, Reply)>) -> Option<u64>
    decreases trace.len(),
{
    if trace.len() == 0 {
        None
    } else {
        let before = trace.drop_last();
        if trace.last().0 is Now {
            match waiting_since(before) {
                Some(began) => Some(began),
                None => Some(trace.last().1.time()),
            }
        } else if looks(trace.last().0, Reg::RIntSts) || looks(trace.last().0, Reg::Status) {
            if before.len() > 0 && before.last().0 is Now {
                waiting_since(before)
            } else {
                None
            }
        } else {
            None
        }
    }
}

/// The time is over: a second, or until the deadline if that comes first.
pub open spec fn time_is_over(deadline: Option<u64>, began: u64, now: u64) -> bool {
    ||| deadline matches Some(limit) && now >= limit
    ||| now >= began + 1_000_000_000
    ||| now == u64::MAX
}

/// The last operation looked at the register and the bits were like that.
pub open spec fn saw(trace: Seq<(Op, Reply)>, reg: Reg, bits: u32, set: bool) -> bool {
    &&& trace.len() > 0
    &&& looks(trace.last().0, reg)
    &&& set == (trace.last().1.word() & bits != 0)
}

/// Words that the FIFO holds.
pub open spec fn fifo_words(status: u32) -> u32 {
    (status >> 17u32) & 0x1fff
}

/// What must have happened right before an operation of a submission.
/// A command is written only to an idle controller, after its argument and after the old
/// status was cleared, and one with data only if the data lines are free. Whoever waits
/// for the command register looks a million times more at most and stops at the deadline;
/// whoever waits for a response or a card stops after a second or at the deadline. Words
/// are moved only as the FIFO allows. The response is read when the command is over, the
/// card no longer busy and the data moved, or when the time for that is over.
pub open spec fn in_its_time(
    request: Request,
    deadline: Option<u64>,
    trace: Seq<(Op, Reply)>,
    op: Op,
) -> bool {
    let n = trace.len() as int;
    let before = trace.drop_last();
    match op {
        Op::Write(Reg::Cmd, word) => {
            &&& word == request.kind.build_word().0
            &&& n >= 3
            &&& trace[n - 1].0 == Op::Write(Reg::CmdArg, request.arg)
            &&& trace[n - 2].0 == Op::Acknowledge(Reg::RIntSts)
            &&& if word & 0x200 != 0 {
                saw(trace.take(n - 2), Reg::Status, 0x600, false)
            } else {
                saw(trace.take(n - 2), Reg::Cmd, 0x8000_0000, false)
            }
        },
        Op::Poll(Reg::Cmd) => {
            &&& command_looks(trace) <= 1_000_000
            &&& match deadline {
                None => saw(trace, Reg::Cmd, 0x8000_0000, true),
                Some(limit) => n >= 2 && trace[n - 1].0 is Now && trace[n - 1].1.time() < limit
                    && saw(before, Reg::Cmd, 0x8000_0000, true),
            }
        },
        Op::Read(Reg::Cmd) => {
            ||| n == 0
            ||| trace[n - 1].0 is Write
            ||| saw(trace, Reg::Cmd, 0x8000_0000, false)
            ||| saw(trace, Reg::Cmd, 0x8000_0000, true) && command_looks(trace) == 1_000_001
            ||| trace[n - 1].0 is Now && (deadline matches Some(limit) && trace[n - 1].1.time()
                >= limit)
        },
        Op::Poll(Reg::RIntSts) => {
            &&& n >= 1
            &&& trace[n - 1].0 is Now ==> saw(before, Reg::RIntSts, 0xbfc6, false) && (
            waiting_since(trace) matches Some(began) && !time_is_over(
                deadline,
                began,
                trace[n - 1].1.time(),
            ))
            &&& !(trace[n - 1].0 is Now) ==> request.data !is Nothing
        },
        Op::Poll(Reg::Status) => {
            &&& n >= 1
            &&& trace[n - 1].0 is Now ==> saw(before, Reg::Status, 0x600, true) && (
            waiting_since(trace) matches Some(began) && !time_is_over(
                deadline,
                began,
                trace[n - 1].1.time(),
            ))
            &&& !(trace[n - 1].0 is Now) ==> saw(trace, Reg::Status, 0x600, true)
        },
        Op::FifoRead(_) => {
            &&& request.data is Read
            &&& n >= 1 && trace[n - 1].0 == Op::Read(Reg::Status)
            &&& fifo_words(trace[n - 1].1.word()) >= 2
        },
        Op::FifoWrite(_) => {
            &&& request.data is Write
            &&& n >= 1 && trace[n - 1].0 == Op::Read(Reg::Status)
            &&& fifo_words(trace[n - 1].1.word()) < 120
        },
        Op::Response => match request.data {
            DataPhase::Nothing => if request.kind == CommandKind::SelectCard {
                ||| saw(trace, Reg::Status, 0x600, false)
                ||| n >= 2 && trace[n - 1].0 is Now && saw(before, Reg::Status, 0x600, true) && (
                waiting_since(trace) matches Some(began) && time_is_over(
                    deadline,
                    began,
                    trace[n - 1].1.time(),
                ))
            } else {
                saw(trace, Reg::RIntSts, 0xbfc2, false)
            },
            _ => n >= 1 && (saw(trace, Reg::RIntSts, 0xbfca, true) || trace[n - 1].0 == Op::Read(
                Reg::Status,
            )),
        },
        _ => true,
    }
}

/// The time that is left when a wait begins.
spec fn limit_of(deadline: Option<u64>, began: u64) -> u64 {
    crate::send::earliest(deadline, began.saturating_add(1_000_000_000))
}

/// Where a submission stands, by its trace.
spec fn sending(
    request: Request,
    deadline: Option<u64>,
    trace: Seq<(Op, Reply)>,
    at: Step<SendCmd, SdMmcResult<[u32; 4]>>,
) -> bool {
    let n = trace.len() as int;
    let before = trace.drop_last();
    let data = request.kind.build_word().data_expected();
    match at {
        Step::Done(outcome) => outcome == Err::<[u32; 4], _>(SdMmcError::CommandTimeout) ==> {
            &&& n >= 2
            &&& trace[n - 2].0 is Now
            &&& waiting_since(before) matches Some(began) && time_is_over(
                deadline,
                began,
                trace[n - 2].1.time(),
            )
        } || request.kind.has_r1_response(),
        Step::Next(m) => m.request == request && m.deadline == deadline && match m.phase {
            SendPhase::Idle { count } => {
                &&& count <= 1_000_000 && command_looks(trace) == count
                &&& count == 0 ==> n == 0
                &&& count > 0 ==> again_fair(deadline, trace)
            },
            SendPhase::IdleClock { count, deadline: limit } => {
                &&& count < 1_000_000 && command_looks(trace) == count + 1
                &&& deadline == Some(limit) && saw(trace, Reg::Cmd, 0x8000_0000, true)
            },
            SendPhase::IdleCheck => check_fair(deadline, trace),
            SendPhase::DataIdle { again } => {
                &&& data
                &&& again ==> saw(trace, Reg::Status, 0x600, true)
            },
            SendPhase::ClearStale => free_to_go(data, trace),
            SendPhase::WriteArg => {
                &&& n >= 1 && trace[n - 1].0 == Op::Acknowledge(Reg::RIntSts)
                &&& free_to_go(data, before)
            },
            SendPhase::WriteCmd => {
                &&& n >= 2 && trace[n - 1].0 == Op::Write(Reg::CmdArg, request.arg)
                &&& trace[n - 2].0 == Op::Acknowledge(Reg::RIntSts)
                &&& free_to_go(data, before.drop_last())
            },
            SendPhase::Accept { count } => {
                &&& count <= 1_000_000 && command_looks(trace) == count
                &&& count == 0 ==> n >= 1 && trace[n - 1].0 is Write
                &&& count > 0 ==> again_fair(deadline, trace)
            },
            SendPhase::AcceptClock { count, deadline: limit } => {
                &&& count < 1_000_000 && command_looks(trace) == count + 1
                &&& deadline == Some(limit) && saw(trace, Reg::Cmd, 0x8000_0000, true)
            },
            SendPhase::AcceptCheck => check_fair(deadline, trace),
            SendPhase::ResponseStart => n >= 1 && looks(trace[n - 1].0, Reg::Cmd) && waiting_since(
                trace,
            ) is None,
            SendPhase::ResponseWait { deadline: limit, again } => {
                &&& n >= 1 && trace[n - 1].0 is Now
                &&& waiting_since(trace) matches Some(began) && limit == limit_of(deadline, began)
                &&& again ==> trace[n - 1].1.time() < limit && saw(
                    before,
                    Reg::RIntSts,
                    0xbfc6,
                    false,
                )
            },
            SendPhase::ResponseClock { deadline: limit } => {
                &&& saw(trace, Reg::RIntSts, 0xbfc6, false)
                &&& waiting_since(trace) matches Some(began) && limit == limit_of(deadline, began)
            },
            SendPhase::ResponseTimeout => {
                &&& n >= 1 && trace[n - 1].0 is Now
                &&& waiting_since(trace) matches Some(began) && time_is_over(
                    deadline,
                    began,
                    trace[n - 1].1.time(),
                )
            },
            SendPhase::ResponseStatus => n >= 1 && !(trace[n - 1].0 is Now),
            SendPhase::BusyStart => n >= 1 && looks(trace[n - 1].0, Reg::RIntSts) && waiting_since(
                trace,
            ) is None && request.kind == CommandKind::SelectCard,
            SendPhase::Busy { deadline: limit, again } => {
                &&& request.kind == CommandKind::SelectCard
                &&& n >= 1 && trace[n - 1].0 is Now
                &&& waiting_since(trace) matches Some(began) && limit == limit_of(deadline, began)
                &&& again ==> trace[n - 1].1.time() < limit && saw(before, Reg::Status, 0x600, true)
            },
            SendPhase::BusyClock { deadline: limit } => {
                &&& request.kind == CommandKind::SelectCard
                &&& saw(trace, Reg::Status, 0x600, true)
                &&& waiting_since(trace) matches Some(began) && limit == limit_of(deadline, began)
            },
            SendPhase::Data { again, .. } => {
                &&& request.data !is Nothing
                &&& again ==> n >= 1 && !(trace[n - 1].0 is Now)
            },
            SendPhase::FifoLevel { .. } => request.data !is Nothing,
            SendPhase::Fifo { .. } => {
                &&& n >= 1 && trace[n - 1].0 == Op::Read(Reg::Status)
                &&& match request.data {
                    DataPhase::Nothing => false,
                    DataPhase::Read(_) => fifo_words(trace[n - 1].1.word()) >= 2,
                    DataPhase::Write(_) => fifo_words(trace[n - 1].1.word()) < 120,
                }
            },
            SendPhase::Response => in_its_time(request, deadline, trace, Op::Response),
            _ => true,
        },
    }
}

/// One more look at the command register is due.
spec fn again_fair(deadline: Option<u64>, trace: Seq<(Op, Reply)>) -> bool {
    let n = trace.len() as int;
    match deadline {
        None => saw(trace, Reg::Cmd, 0x8000_0000, true),
        Some(limit) => n >= 2 && trace[n - 1].0 is Now && trace[n - 1].1.time() < limit && saw(
            trace.drop_last(),
            Reg::Cmd,
            0x8000_0000,
            true,
        ),
    }
}

/// The last look at the command register is due.
spec fn check_fair(deadline: Option<u64>, trace: Seq<(Op, Reply)>) -> bool {
    let n = trace.len() as int;
    &&& n >= 1
    &&& {
        ||| saw(trace, Reg::Cmd, 0x8000_0000, false)
        ||| saw(trace, Reg::Cmd, 0x8000_0000, true) && command_looks(trace) == 1_000_001
        ||| trace[n - 1].0 is Now && (deadline matches Some(limit) && trace[n - 1].1.time()
            >= limit)
    }
}

/// Nothing stands in the way of the command.
spec fn free_to_go(data: bool, trace: Seq<(Op, Reply)>) -> bool {
    if data {
        saw(trace, Reg::Status, 0x600, false)
    } else {
        saw(trace, Reg::Cmd, 0x8000_0000, false)
    }
}

/// The checks of single bits are those of the words.
proof fn lemma_seen_bits(word: u32)
    ensures
        (word & 0x400 == 0 && word & 0x200 == 0) == (word & 0x600 == 0),
        (word & 0xbfc2 != 0 || word & 0x4 != 0) == (word & 0xbfc6 != 0),
        (word & 0xbfc2 != 0 || word & 0x8 != 0) == (word & 0xbfca != 0),
{
    assert({
        &&& (word & 0x400 == 0 && word & 0x200 == 0) == (word & 0x600 == 0)
        &&& (word & 0xbfc2 != 0 || word & 0x4 != 0) == (word & 0xbfc6 != 0)
        &&& (word & 0xbfc2 != 0 || word & 0x8 != 0) == (word & 0xbfca != 0)
    }) by (bit_vector);
}

/// What must have happened before the next operation did.
proof fn lemma_in_its_time(
    request: Request,
    deadline: Option<u64>,
    trace: Seq<(Op, Reply)>,
    m: SendCmd,
)
    requires
        sending(request, deadline, trace, Step::Next(m)),
    ensures
        in_its_time(request, deadline, trace, m.op()),
{
    let n = trace.len() as int;
    if m.phase is WriteCmd {
        assert(trace.take(n - 2) =~= trace.drop_last().drop_last());
    }
}

/// The submission comes before its command is written.
spec fn is_early(phase: SendPhase) -> bool {
    match phase {
        SendPhase::Idle { .. } => true,
        SendPhase::IdleClock { .. } => true,
        SendPhase::IdleCheck => true,
        SendPhase::DataIdle { .. } => true,
        SendPhase::ClearStale => true,
        SendPhase::WriteArg => true,
        _ => false,
    }
}

/// The submission waits for the command to be taken.
spec fn is_accepting(phase: SendPhase) -> bool {
    match phase {
        SendPhase::WriteCmd => true,
        SendPhase::Accept { .. } => true,
        SendPhase::AcceptClock { .. } => true,
        SendPhase::AcceptCheck => true,
        SendPhase::NotAccepted => true,
        _ => false,
    }
}

/// The submission waits for a response or for the card.
spec fn is_waiting(phase: SendPhase) -> bool {
    match phase {
        SendPhase::ResponseStart => true,
        SendPhase::ResponseWait { .. } => true,
        SendPhase::ResponseClock { .. } => true,
        SendPhase::ResponseTimeout => true,
        SendPhase::BusyStart => true,
        SendPhase::Busy { .. } => true,
        SendPhase::BusyClock { .. } => true,
        _ => false,
    }
}

proof fn lemma_early(
    request: Request,
    deadline: Option<u64>,
    trace: Seq<(Op, Reply)>,
    m: SendCmd,
    reply: Reply,
)
    requires
        is_early(m.phase),
        sending(request, deadline, trace, Step::Next(m)),
    ensures
        sending(request, deadline, trace.push((m.op(), reply)), m.next(reply)),
{
    let after = trace.push((m.op(), reply));
    assert(after.drop_last() =~= trace);
    lemma_seen_bits(reply.word());
}

proof fn lemma_accepting(
    request: Request,
    deadline: Option<u64>,
    trace: Seq<(Op, Reply)>,
    m: SendCmd,
    reply: Reply,
)
    requires
        is_accepting(m.phase),
        sending(request, deadline, trace, Step::Next(m)),
    ensures
        sending(request, deadline, trace.push((m.op(), reply)), m.next(reply)),
{
    let after = trace.push((m.op(), reply));
    assert(after.drop_last() =~= trace);
    lemma_seen_bits(reply.word());
}

proof fn lemma_waiting(
    request: Request,
    deadline: Option<u64>,
    trace: Seq<(Op, Reply)>,
    m: SendCmd,
    reply: Reply,
)
    requires
        is_waiting(m.phase),
        sending(request, deadline, trace, Step::Next(m)),
    ensures
        sending(request, deadline, trace.push((m.op(), reply)), m.next(reply)),
{
    let after = trace.push((m.op(), reply));
    assert(after.drop_last() =~= trace);
    lemma_seen_bits(reply.word());
}

proof fn lemma_late(
    request: Request,
    deadline: Option<u64>,
    trace: Seq<(Op, Reply)>,
    m: SendCmd,
    reply: Reply,
)
    requires
        !is_early(m.phase),
        !is_accepting(m.phase),
        !is_waiting(m.phase),
        sending(request, deadline, trace, Step::Next(m)),
    ensures
        sending(request, deadline, trace.push((m.op(), reply)), m.next(reply)),
{
    let after = trace.push((m.op(), reply));
    assert(after.drop_last() =~= trace);
    lemma_seen_bits(reply.word());
}

/// A submission does everything in its time, and gives a response up only when the time
/// for it is over.
pub proof fn law_send_acts_in_time(request: Request, deadline: Option<u64>, replies: Seq<Reply>)
    ensures
        ({
            let done = run(Step::Next(SendCmd::new(request, deadline)), replies);
            let n = done.trace.len() as int;
            match done.at {
                Step::Next(m) => in_its_time(request, deadline, done.trace, m.op()),
                Step::Done(outcome) => outcome == Err::<[u32; 4], _>(SdMmcError::CommandTimeout)
                    && !request.kind.has_r1_response() ==> n >= 2 && done.trace[n - 2].0 is Now && (
                waiting_since(done.trace.drop_last()) matches Some(began) && time_is_over(
                    deadline,
                    began,
                    done.trace[n - 2].1.time(),
                )),
            }
        }),
{
    let start = Step::<SendCmd, SdMmcResult<[u32; 4]>>::Next(SendCmd::new(request, deadline));
    let inv = |trace: Seq<(Op, Reply)>, at: Step<SendCmd, SdMmcResult<[u32; 4]>>|
        sending(request, deadline, trace, at);
    assert forall|trace: Seq<(Op, Reply)>, m: SendCmd, reply: Reply|
        inv(trace, Step::Next(m)) implies #[trigger] inv(
        trace.push((m.op(), reply)),
        m.next(reply),
    ) by {
        if is_early(m.phase) {
            lemma_early(request, deadline, trace, m, reply);
        } else if is_accepting(m.phase) {
            lemma_accepting(request, deadline, trace, m, reply);
        } else if is_waiting(m.phase) {
            lemma_waiting(request, deadline, trace, m, reply);
        } else {
            lemma_late(request, deadline, trace, m, reply);
        }
    }
    crate::io::lemma_run_invariant(start, replies, inv);
    let done = run(start, replies);
    if let Step::Next(m) = done.at {
        lemma_in_its_time(request, deadline, done.trace, m);
    }
}

} // verus!
