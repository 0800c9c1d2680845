//! Nobody gives up too soon: a wait times out only after the time that it allows.

use vstd::prelude::*;

use crate::blocks::{BlockEnd, BlockPhase, BlockRequest, Direction};
use crate::cmd::Request;
use crate::enable::IdmacState;
use crate::error::SdMmcError;
use crate::io::{run, Machine, Op, Reply, Step};
use crate::ready::{
    ask_invariant, lemma_ask_step, AskReady, AskReadyPhase, PollReadyPhase, WRITE_BUSY_TIMEOUT,
};
use crate::regs::Reg;
use crate::send::{lemma_outcome_shown, outcome_shown};
use crate::transfer::{
    FinishPhase, FinishTransfer, IdmacTransfer, Prepare, PreparePhase, ResetPhase, StartPhase,
    StartTransfer, TransferEnd, TransferPhase, WaitMode, WaitPhase, WaitTransfer,
    IDMAC_COMMAND_TIMEOUT, IDMAC_DATA_WATCHDOG_TIMEOUT, PRE_SUBMIT_IDLE_SPIN_TIMEOUT,
    RESET_TIMEOUT, START_CMD_SPIN_TIMEOUT,
};

verus! {

/// Between two looks at the clock at least `allowed` nanoseconds passed.
pub open spec fn spans(trace: Seq<(Op, Reply)>, from: int, to: int, allowed: u64) -> bool {
    &&& 0 <= from < to < trace.len()
    &&& trace[from].0 == Op::Now
    &&& trace[to].0 == Op::Now
    &&& trace[to].1.time() >= trace[from].1.time().saturating_add(allowed)
}

/// Someone waited for at least `allowed` nanoseconds.
pub open spec fn waited(trace: Seq<(Op, Reply)>, allowed: u64) -> bool {
    exists|from: int, to: int| #[trigger] spans(trace, from, to, allowed)
}

/// Someone slept until `allowed` nanoseconds were over.
pub open spec fn slept(trace: Seq<(Op, Reply)>, allowed: u64) -> bool {
    exists|i: int|
        {
            &&& 0 <= i < trace.len()
            &&& (#[trigger] trace[i]).0 matches Op::Await { timeout, .. }
            &&& timeout == allowed
            &&& trace[i].1.flag()
        }
}

/// An error that stands for a wait is reported only after the time that the wait
/// allows.
pub open spec fn patient(trace: Seq<(Op, Reply)>, error: SdMmcError) -> bool {
    match error {
        SdMmcError::CommandBusy | SdMmcError::DataBusy => waited(trace, 100_000),
        SdMmcError::CommandStartTimeout => waited(trace, 100_000_000),
        SdMmcError::CommandTimeout => waited(trace, 2_000_000_000) || slept(trace, 2_000_000_000),
        SdMmcError::DataTimeout => waited(trace, 5_000_000_000) || slept(trace, 5_000_000_000),
        SdMmcError::RecoveryFailed => waited(trace, 100_000_000),
        SdMmcError::CardBusyTimeout => waited(trace, 5_000_000_000),
        _ => true,
    }
}

/// The deadline was set at a look at the clock, `allowed` nanoseconds ahead.
spec fn set_at(trace: Seq<(Op, Reply)>, i: int, deadline: u64, allowed: u64) -> bool {
    &&& 0 <= i < trace.len()
    &&& trace[i].0 == Op::Now
    &&& deadline == trace[i].1.time().saturating_add(allowed)
}

spec fn ahead(trace: Seq<(Op, Reply)>, deadline: u64, allowed: u64) -> bool {
    exists|i: int| #[trigger] set_at(trace, i, deadline, allowed)
}

/// What was waited for or set stays so; a look at the clock sets a deadline, and one
/// that finds it passed shows that someone waited.
proof fn lemma_time_goes_on(trace: Seq<(Op, Reply)>, op: Op, reply: Reply)
    ensures
        ({
            let after = trace.push((op, reply));
            &&& forall|allowed: u64| #[trigger]
                waited(trace, allowed) ==> waited(after, allowed)
            &&& forall|allowed: u64| #[trigger] slept(trace, allowed) ==> slept(after, allowed)
            &&& forall|deadline: u64, allowed: u64| #[trigger]
                ahead(trace, deadline, allowed) ==> ahead(after, deadline, allowed)
            &&& op == Op::Now ==> forall|allowed: u64| #[trigger]
                ahead(after, reply.time().saturating_add(allowed), allowed)
            &&& op == Op::Now ==> forall|deadline: u64, allowed: u64| #[trigger]
                ahead(trace, deadline, allowed) && reply.time() >= deadline ==> waited(
                    after,
                    allowed,
                )
            &&& forall|error: SdMmcError| patient(trace, error) ==> #[trigger] patient(after, error)
        }),
{
    let after = trace.push((op, reply));
    let now = trace.len() as int;
    assert forall|allowed: u64| #[trigger] waited(trace, allowed) implies waited(
        after,
        allowed,
    ) by {
        let (from, to) = choose|from: int, to: int| #[trigger] spans(trace, from, to, allowed);
        assert(spans(after, from, to, allowed));
    }
    assert forall|allowed: u64| #[trigger] slept(trace, allowed) implies slept(after, allowed) by {
        let i = choose|i: int|
            {
                &&& 0 <= i < trace.len()
                &&& (#[trigger] trace[i]).0 matches Op::Await { timeout, .. }
                &&& timeout == allowed
                &&& trace[i].1.flag()
            };
        assert(after[i] == trace[i]);
    }
    assert forall|deadline: u64, allowed: u64| #[trigger]
        ahead(trace, deadline, allowed) implies ahead(after, deadline, allowed) by {
        let i = choose|i: int| #[trigger] set_at(trace, i, deadline, allowed);
        assert(set_at(after, i, deadline, allowed));
    }
    if op == Op::Now {
        assert forall|allowed: u64| #[trigger]
            ahead(after, reply.time().saturating_add(allowed), allowed) by {
            assert(set_at(after, now, reply.time().saturating_add(allowed), allowed));
        }
        assert forall|deadline: u64, allowed: u64| #[trigger]
            ahead(trace, deadline, allowed) && reply.time() >= deadline implies waited(
            after,
            allowed,
        ) by {
            let i = choose|i: int| #[trigger] set_at(trace, i, deadline, allowed);
            assert(spans(after, i, now, allowed));
        }
    }
}

spec fn prepare_patience(trace: Seq<(Op, Reply)>, p: Prepare) -> bool {
    match p.phase {
        PreparePhase::IdleCommand { deadline, .. } => ahead(
            trace,
            deadline,
            PRE_SUBMIT_IDLE_SPIN_TIMEOUT,
        ),
        PreparePhase::IdleData { deadline, .. } => ahead(
            trace,
            deadline,
            PRE_SUBMIT_IDLE_SPIN_TIMEOUT,
        ),
        PreparePhase::IdleDeadline { deadline, .. } => ahead(
            trace,
            deadline,
            PRE_SUBMIT_IDLE_SPIN_TIMEOUT,
        ),
        _ => true,
    }
}

spec fn start_patience(trace: Seq<(Op, Reply)>, s: StartTransfer) -> bool {
    match s.phase {
        StartPhase::Accept { deadline, .. } => ahead(trace, deadline, START_CMD_SPIN_TIMEOUT),
        StartPhase::AcceptDeadline { deadline } => ahead(trace, deadline, START_CMD_SPIN_TIMEOUT),
        _ => true,
    }
}

spec fn wait_patience(trace: Seq<(Op, Reply)>, w: WaitTransfer) -> bool {
    match w.phase {
        WaitPhase::Command { deadline } => ahead(trace, deadline, IDMAC_COMMAND_TIMEOUT),
        WaitPhase::CommandDeadline { deadline } => ahead(trace, deadline, IDMAC_COMMAND_TIMEOUT),
        WaitPhase::Data { deadline } => ahead(trace, deadline, IDMAC_DATA_WATCHDOG_TIMEOUT),
        WaitPhase::DataDeadline { deadline } => ahead(
            trace,
            deadline,
            IDMAC_DATA_WATCHDOG_TIMEOUT,
        ),
        WaitPhase::DataStatus { timed_out } => timed_out ==> slept(
            trace,
            IDMAC_DATA_WATCHDOG_TIMEOUT,
        ),
        _ => true,
    }
}

spec fn finish_patience(trace: Seq<(Op, Reply)>, f: FinishTransfer) -> bool {
    &&& f.stuck ==> waited(trace, RESET_TIMEOUT)
    &&& f.phase matches FinishPhase::Reset(reset) ==> match reset.phase {
        ResetPhase::EngineBit { deadline, .. } => ahead(trace, deadline, RESET_TIMEOUT),
        ResetPhase::InterfaceBit { deadline, .. } => ahead(trace, deadline, RESET_TIMEOUT),
        ResetPhase::Deadline { deadline } => ahead(trace, deadline, RESET_TIMEOUT),
        _ => true,
    }
}

/// A transfer has waited as long as it must for whatever it is about to report.
spec fn transfer_patience(trace: Seq<(Op, Reply)>, at: Step<IdmacTransfer, TransferEnd>) -> bool {
    match at {
        Step::Done(end) => end.result matches Err(error) ==> patient(trace, error),
        Step::Next(t) => match t.phase {
            TransferPhase::Prepare(p) => prepare_patience(trace, p),
            TransferPhase::Start(s) => start_patience(trace, s),
            TransferPhase::Wait(w) => wait_patience(trace, w),
            TransferPhase::Validate(_) => true,
            TransferPhase::Response(_) => true,
            TransferPhase::Finish { finish, result } => {
                &&& finish_patience(trace, finish)
                &&& result matches Err(error) ==> patient(trace, error)
            },
        },
    }
}

proof fn lemma_transfer_patience(trace: Seq<(Op, Reply)>, t: IdmacTransfer, reply: Reply)
    requires
        transfer_patience(trace, Step::Next(t)),
    ensures
        transfer_patience(trace.push((t.op(), reply)), t.next(reply)),
{
    let after = trace.push((t.op(), reply));
    let now = trace.len() as int;
    lemma_time_goes_on(trace, t.op(), reply);
    if let TransferPhase::Wait(w) = t.phase {
        if (w.phase is CommandAwait || w.phase is DataAwait) && reply.flag() {
            assert(after[now].1.flag());
        }
    }
}

/// A transfer reports that it ran out of time only after it waited that long: for
/// controller and card to become idle, for its command to be taken, for the
/// response, for the data, or for the engine to stop.
pub proof fn law_transfer_is_patient(
    mode: WaitMode,
    faulted: bool,
    request: Request,
    buffer: u32,
    replies: Seq<Reply>,
)
    ensures
        ({
            let done = run(IdmacTransfer::start(mode, faulted, request, buffer), replies);
            done.at matches Step::Done(end) ==> (end.result matches Err(error) ==> patient(
                done.trace,
                error,
            ))
        }),
{
    let start = IdmacTransfer::start(mode, faulted, request, buffer);
    let inv = |trace: Seq<(Op, Reply)>, at: Step<IdmacTransfer, TransferEnd>|
        transfer_patience(trace, at);
    assert forall|trace: Seq<(Op, Reply)>, t: IdmacTransfer, reply: Reply|
        inv(trace, Step::Next(t)) implies #[trigger] inv(
        trace.push((t.op(), reply)),
        t.next(reply),
    ) by {
        lemma_transfer_patience(trace, t, reply);
    }
    crate::io::lemma_run_invariant(start, replies, inv);
}

/// The operation is a look of one who waits.
pub open spec fn is_look(op: Op) -> bool {
    match op {
        Op::Read(reg) => reg == Reg::Cmd || reg == Reg::Status || reg == Reg::BMod || reg
            == Reg::Ctrl,
        Op::Poll(_) => true,
        Op::Observe(_) => true,
        _ => false,
    }
}

/// How long a wait of a transfer lasts, by what came before it: for controller and card to
/// become idle, first of all; for a command to be taken, or the engine to stop, after a
/// fence; for the response, once the transfer was announced; for the data, once the
/// response was seen.
pub open spec fn allowance(before: Seq<(Op, Reply)>) -> int {
    if before.len() == 0 {
        100_000
    } else {
        match before.last().0 {
            Op::Fence => 100_000_000,
            Op::Report(_) => 2_000_000_000,
            _ => 5_000_000_000,
        }
    }
}

/// When the wait that is under way began, and how long it lasts. It goes on as long as
/// looks and clock readings follow each other; a second look in a row ends it.
pub open spec fn under_wait(trace: Seq<(Op, Reply)>) -> Option<(u64, int)>
    decreases trace.len(),
{
    if trace.len() == 0 {
        None
    } else {
        let before = trace.drop_last();
        match trace.last().0 {
            Op::Now => match under_wait(before) {
                Some(wait) => Some(wait),
                None => Some((trace.last().1.time(), allowance(before))),
            },
            Op::Observe(_) => if before.len() > 0 && before.last().0 is Observe {
                None
            } else {
                under_wait(before)
            },
            _ => if is_look(trace.last().0) {
                under_wait(before)
            } else {
                None
            },
        }
    }
}

/// The wait that is under way began so long before its deadline, which has not passed.
spec fn wait_open(trace: Seq<(Op, Reply)>, deadline: u64, allowed: u64) -> bool {
    &&& under_wait(trace) matches Some((began, limit))
    &&& limit == allowed && deadline == began.saturating_add(allowed)
    &&& trace.len() > 0 && trace.last().0 is Now ==> trace.last().1.time() < began + allowed
}

spec fn reset_haste(trace: Seq<(Op, Reply)>, phase: ResetPhase) -> bool {
    match phase {
        ResetPhase::Clock => trace.len() > 0 && trace.last().0 is Fence,
        ResetPhase::EngineBit { deadline, .. } => wait_open(trace, deadline, 100_000_000),
        ResetPhase::InterfaceBit { deadline, .. } => wait_open(trace, deadline, 100_000_000),
        ResetPhase::Deadline { deadline } => wait_open(trace, deadline, 100_000_000),
        _ => true,
    }
}

/// The waits of a transfer are open as long as they are under way.
spec fn transfer_haste(trace: Seq<(Op, Reply)>, t: IdmacTransfer) -> bool {
    match t.phase {
        TransferPhase::Prepare(p) => match p.phase {
            PreparePhase::IdleClock => trace.len() == 0,
            PreparePhase::IdleCommand { deadline, .. } => wait_open(trace, deadline, 100_000),
            PreparePhase::IdleData { deadline, .. } => wait_open(trace, deadline, 100_000),
            PreparePhase::IdleDeadline { deadline, .. } => wait_open(trace, deadline, 100_000),
            _ => true,
        },
        TransferPhase::Start(s) => match s.phase {
            StartPhase::AcceptClock => trace.len() > 0 && trace.last().0 is Fence,
            StartPhase::Accept { deadline, .. } => wait_open(trace, deadline, 100_000_000),
            StartPhase::AcceptDeadline { deadline } => wait_open(trace, deadline, 100_000_000),
            _ => true,
        },
        TransferPhase::Wait(w) => match w.phase {
            WaitPhase::CommandClock => trace.len() > 0 && trace.last().0 is Report,
            WaitPhase::Command { deadline } => wait_open(trace, deadline, 2_000_000_000)
                && trace.last().0 is Now,
            WaitPhase::CommandDeadline { deadline } => wait_open(trace, deadline, 2_000_000_000)
                && trace.last().0 is Observe,
            WaitPhase::CommandStatus => trace.len() > 0 && (trace.last().0 is Observe
                || trace.last().0 is Report || trace.last().0 is Await) && (
            trace.last().0 is Observe || under_wait(trace) is None),
            WaitPhase::DataClock => trace.len() > 0 && trace.last().0 is Observe && under_wait(
                trace,
            ) is None,
            WaitPhase::Data { deadline } => wait_open(trace, deadline, 5_000_000_000)
                && trace.last().0 is Now,
            WaitPhase::DataDeadline { deadline } => wait_open(trace, deadline, 5_000_000_000)
                && trace.last().0 is Observe,
            _ => true,
        },
        TransferPhase::Finish { finish, .. } => finish.phase matches FinishPhase::Reset(reset)
            ==> reset_haste(trace, reset.phase),
        _ => true,
    }
}

proof fn lemma_transfer_haste(trace: Seq<(Op, Reply)>, t: IdmacTransfer, reply: Reply)
    requires
        transfer_haste(trace, t),
    ensures
        t.next(reply) matches Step::Next(later) ==> transfer_haste(
            trace.push((t.op(), reply)),
            later,
        ),
{
    assert(trace.push((t.op(), reply)).drop_last() =~= trace);
}

/// A transfer gives up as soon as its time is over: it looks again only if the clock, read
/// just before, has not reached the end of the wait.
pub proof fn law_transfer_gives_up_in_time(
    mode: WaitMode,
    faulted: bool,
    request: Request,
    buffer: u32,
    replies: Seq<Reply>,
)
    ensures
        ({
            let done = run(IdmacTransfer::start(mode, faulted, request, buffer), replies);
            done.at matches Step::Next(t) ==> is_look(t.op()) && done.trace.len() > 0
                && done.trace.last().0 is Now ==> (under_wait(done.trace) matches Some(
                (began, limit),
            ) && done.trace.last().1.time() < began + limit)
        }),
{
    let start = IdmacTransfer::start(mode, faulted, request, buffer);
    let inv = |trace: Seq<(Op, Reply)>, at: Step<IdmacTransfer, TransferEnd>|
        at matches Step::Next(t) ==> transfer_haste(trace, t);
    assert forall|trace: Seq<(Op, Reply)>, t: IdmacTransfer, reply: Reply|
        inv(trace, Step::Next(t)) implies #[trigger] inv(
        trace.push((t.op(), reply)),
        t.next(reply),
    ) by {
        lemma_transfer_haste(trace, t, reply);
    }
    crate::io::lemma_run_invariant(start, replies, inv);
}

spec fn ask_patience(trace: Seq<(Op, Reply)>, ask: AskReady) -> bool {
    match ask.phase {
        AskReadyPhase::Clock => true,
        AskReadyPhase::Deadline { deadline } => ahead(trace, deadline, WRITE_BUSY_TIMEOUT),
        AskReadyPhase::Ask { send, deadline } => ahead(trace, deadline, WRITE_BUSY_TIMEOUT)
            && outcome_shown(send.request, trace, Step::Next(send)),
        AskReadyPhase::Busy { deadline, .. } => ahead(trace, deadline, WRITE_BUSY_TIMEOUT),
        AskReadyPhase::YieldClock { deadline } => ahead(trace, deadline, WRITE_BUSY_TIMEOUT),
        AskReadyPhase::Yield { deadline } => ahead(trace, deadline, WRITE_BUSY_TIMEOUT),
    }
}

/// The request never asks the card for its status.
pub open spec fn asks_nothing(direction: Direction, mode: WaitMode) -> bool {
    direction is Read || mode is Sync
}

/// A request has waited as long as it must for whatever it is about to report.
spec fn request_patience(
    trace: Seq<(Op, Reply)>,
    direction: Direction,
    mode: WaitMode,
    rca: u16,
    at: Step<BlockRequest, BlockEnd>,
) -> bool {
    match at {
        Step::Done(end) => end.result matches Err(error) ==> (asks_nothing(direction, mode)
            || error is CardBusyTimeout ==> patient(trace, error)),
        Step::Next(m) => {
            &&& m.direction == direction && m.mode == mode && m.rca == rca
            &&& match m.phase {
                BlockPhase::Transfer(t) => transfer_patience(trace, Step::Next(t)),
                BlockPhase::PollReady(poll) => match poll.phase {
                    PollReadyPhase::Clock => true,
                    PollReadyPhase::Busy { deadline, .. } => ahead(
                        trace,
                        deadline,
                        WRITE_BUSY_TIMEOUT,
                    ),
                    PollReadyPhase::Deadline { deadline } => ahead(
                        trace,
                        deadline,
                        WRITE_BUSY_TIMEOUT,
                    ),
                },
                BlockPhase::AskReady(ask) => {
                    &&& !asks_nothing(direction, mode)
                    &&& ask_invariant(rca, trace, Step::Next(ask))
                    &&& ask_patience(trace, ask)
                },
                _ => true,
            }
        },
    }
}

proof fn lemma_request_patience(
    trace: Seq<(Op, Reply)>,
    direction: Direction,
    mode: WaitMode,
    rca: u16,
    m: BlockRequest,
    reply: Reply,
)
    requires
        request_patience(trace, direction, mode, rca, Step::Next(m)),
    ensures
        request_patience(trace.push((m.op(), reply)), direction, mode, rca, m.next(reply)),
{
    let after = trace.push((m.op(), reply));
    lemma_time_goes_on(trace, m.op(), reply);
    match m.phase {
        BlockPhase::Transfer(t) => {
            lemma_transfer_patience(trace, t, reply);
        },
        BlockPhase::AskReady(ask) => {
            lemma_ask_step(rca, trace, ask, reply);
            if let AskReadyPhase::Ask { send, .. } = ask.phase {
                lemma_outcome_shown(send.request, trace, send, reply);
            }
        },
        _ => {},
    }
}

/// A request reports that the card stayed busy only after it waited that long for
/// the card. A request that does not ask the card for its status reports any other
/// wait that ran out of time only after that time, too.
pub proof fn law_request_is_patient(
    direction: Direction,
    mode: WaitMode,
    rca: u16,
    num_blocks: u64,
    state: IdmacState,
    block: u32,
    len: usize,
    replies: Seq<Reply>,
)
    ensures
        ({
            let done = run(
                BlockRequest::start(direction, mode, rca, num_blocks, state, block, len),
                replies,
            );
            done.at matches Step::Done(end) ==> (end.result matches Err(error) ==> (asks_nothing(
                direction,
                mode,
            ) || error is CardBusyTimeout ==> patient(done.trace, error)))
        }),
{
    let start = BlockRequest::start(direction, mode, rca, num_blocks, state, block, len);
    let inv = |trace: Seq<(Op, Reply)>, at: Step<BlockRequest, BlockEnd>|
        request_patience(trace, direction, mode, rca, at);
    assert forall|trace: Seq<(Op, Reply)>, m: BlockRequest, reply: Reply|
        inv(trace, Step::Next(m)) implies #[trigger] inv(
        trace.push((m.op(), reply)),
        m.next(reply),
    ) by {
        lemma_request_patience(trace, direction, mode, rca, m, reply);
    }
    crate::io::lemma_run_invariant(start, replies, inv);
}

} // verus!
