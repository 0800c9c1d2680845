//! Switching the clock and waiting for a card that writes: what must have been seen before,
//! how long that lasts, and what is done when it fails.

use vstd::prelude::*;

use crate::clock::{ProgramClock, ProgramPhase, SwitchClock, SwitchPhase};
use crate::cmd::CommandKind;
use crate::error::{SdMmcError, SdMmcResult};
use crate::identification_laws::{is_setting, settings};
use crate::init::{Card, Init, InitPhase};
use crate::io::{run, Machine, Op, Reply, Step};
use crate::ready::{AskReady, AskReadyPhase, PollReady, PollReadyPhase};
use crate::regs::Reg;
use crate::send::{SendCmd, SendPhase};
use crate::send_laws::saw;
use crate::trace::looks;
use crate::transfer::{ResetIdmac, ResetPhase};

verus! {

/// What a register held when it was read first.
pub open spec fn first_read(trace: Seq<(Op, Reply)>, reg: Reg) -> Option<u32>
    decreases trace.len(),
{
    if trace.len() == 0 {
        None
    } else if first_read(trace.drop_last(), reg) is Some {
        first_read(trace.drop_last(), reg)
    } else if trace.last().0 == Op::Read(reg) {
        Some(trace.last().1.word())
    } else {
        None
    }
}

/// How a divider is set: with the clock off, which is turned on again.
pub open spec fn clock_settings(divider: u32) -> Seq<Op> {
    seq![Op::Write(Reg::ClkEna, 0), Op::Write(Reg::ClkDiv, divider), Op::Write(Reg::ClkEna, 1)]
}

/// Settings that switch the clock: to a new divider and, if that does not go well, back to
/// the one that was read before.
pub open spec fn switch_settings(divider: u8, trace: Seq<(Op, Reply)>, failed: bool) -> bool {
    let all = settings(trace);
    let previous = (first_read(trace, Reg::ClkDiv)->0 & 0xff) as u32;
    if failed {
        exists|j: int|
            1 <= j <= 3 && j < all.len() <= j + 3 && #[trigger] all.take(j) == clock_settings(
                divider as u32,
            ).take(j) && all.skip(j) == clock_settings(previous).take(all.len() - j)
    } else {
        all == clock_settings(divider as u32)
    }
}

/// What must have happened right before an operation of a clock switch: the clock is left
/// alone until the controller has taken its last command and the data lines are free, and
/// its old divider is read first; that is waited for a second at most.
pub open spec fn switch_in_time(trace: Seq<(Op, Reply)>, op: Op) -> bool {
    let n = trace.len() as int;
    &&& is_setting(op) ==> first_read(trace, Reg::ClkDiv) is Some
    &&& op == Op::Read(Reg::ClkDiv) && first_read(trace, Reg::ClkDiv) is None ==> n >= 3 && saw(
        trace,
        Reg::Status,
        0x600,
        false,
    ) && saw(trace.drop_last(), Reg::Cmd, 0x8000_0000, false)
    &&& op == Op::Poll(Reg::Cmd) && settings(trace).len() == 0 ==> n >= 3 && trace[0].0 is Now
        && trace[n - 1].0 is Now && trace[n - 1].1.time() < trace[0].1.time() + 1_000_000_000
}

/// How far the programming of a divider has got.
spec fn programmed(program: ProgramClock) -> int {
    match program.phase {
        ProgramPhase::Disable => 0,
        ProgramPhase::LatchDisabled(_) => 1,
        ProgramPhase::Divider => 1,
        ProgramPhase::LatchDivider(_) => 2,
        ProgramPhase::Enable => 2,
        _ => 3,
    }
}

/// Where a clock switch stands, by its trace.
spec fn switching(divider: u8, trace: Seq<(Op, Reply)>, at: Step<SwitchClock, bool>) -> bool {
    let n = trace.len() as int;
    let all = settings(trace);
    let limit = trace[0].1.time() + 1_000_000_000;
    match at {
        Step::Done(true) => switch_settings(divider, trace, false),
        Step::Done(false) => {
            ||| all.len() == 0 && n >= 2 && trace[0].0 is Now && trace[n - 1].0 is Now && (
            trace[n - 1].1.time() >= limit || trace[n - 1].1.time() == u64::MAX)
            ||| switch_settings(divider, trace, true)
        },
        Step::Next(m) => m.divider == divider && match m.phase {
            SwitchPhase::Clock => n == 0,
            SwitchPhase::Command { deadline, again } => {
                &&& unswitched(trace, deadline)
                &&& trace[n - 1].0 is Now
                &&& again ==> n >= 3 && trace[n - 1].1.time() < limit
            },
            SwitchPhase::Data { deadline } => {
                &&& unswitched(trace, deadline) && n >= 2
                &&& saw(trace, Reg::Cmd, 0x8000_0000, false)
            },
            SwitchPhase::Deadline { deadline } => unswitched(trace, deadline) && n >= 2,
            SwitchPhase::Previous => {
                &&& all.len() == 0 && n >= 3
                &&& first_read(trace, Reg::ClkDiv) is None
                &&& saw(trace, Reg::Status, 0x600, false)
                &&& saw(trace.drop_last(), Reg::Cmd, 0x8000_0000, false)
            },
            SwitchPhase::Program { program, previous } => {
                &&& program.divider == divider
                &&& first_read(trace, Reg::ClkDiv) matches Some(word) && previous == word & 0xff
                &&& all == clock_settings(divider as u32).take(programmed(program))
            },
            SwitchPhase::Rollback(program) => {
                let j = all.len() - programmed(program);
                &&& first_read(trace, Reg::ClkDiv) matches Some(word) && program.divider == word
                    & 0xff
                &&& 1 <= j <= 3
                &&& all.take(j) == clock_settings(divider as u32).take(j)
                &&& all.skip(j) == clock_settings(program.divider as u32).take(
                    programmed(program),
                )
            },
        },
    }
}

/// Nothing was changed yet, and the deadline is a second after the first clock reading.
spec fn unswitched(trace: Seq<(Op, Reply)>, deadline: u64) -> bool {
    &&& trace.len() >= 1 && trace[0].0 is Now
    &&& deadline == trace[0].1.time().saturating_add(1_000_000_000)
    &&& settings(trace).len() == 0
    &&& first_read(trace, Reg::ClkDiv) is None
}

/// What one more operation makes of these accounts.
proof fn lemma_push(trace: Seq<(Op, Reply)>, op: Op, reply: Reply)
    ensures
        ({
            let after = trace.push((op, reply));
            &&& after.drop_last() == trace
            &&& after.last() == (op, reply)
            &&& settings(after) == (if is_setting(op) {
                settings(trace).push(op)
            } else {
                settings(trace)
            })
            &&& first_read(after, Reg::ClkDiv) == (match first_read(trace, Reg::ClkDiv) {
                Some(word) => Some(word),
                None => if op == Op::Read(Reg::ClkDiv) {
                    Some(reply.word())
                } else {
                    None
                },
            })
        }),
{
    assert(trace.push((op, reply)).drop_last() =~= trace);
}

/// The programming of a divider goes on with the next setting.
proof fn lemma_program_next(program: ProgramClock)
    ensures
        clock_settings(program.divider as u32).len() == 3,
        is_setting(program.op()) ==> clock_settings(program.divider as u32).take(
            programmed(program),
        ).push(program.op()) == clock_settings(program.divider as u32).take(
            programmed(program) + 1,
        ),
{
    let list = clock_settings(program.divider as u32);
    if is_setting(program.op()) {
        assert(list.take(programmed(program)).push(program.op()) =~= list.take(
            programmed(program) + 1,
        ));
    }
}

proof fn lemma_switching(divider: u8, trace: Seq<(Op, Reply)>, m: SwitchClock, reply: Reply)
    requires
        switching(divider, trace, Step::Next(m)),
    ensures
        switching(divider, trace.push((m.op(), reply)), m.next(reply)),
        switch_in_time(trace, m.op()),
{
    let after = trace.push((m.op(), reply));
    let word = reply.word();
    lemma_push(trace, m.op(), reply);
    assert((word & 0x400 == 0 && word & 0x200 == 0) == (word & 0x600 == 0) && word & 0xff <= 0xff)
        by (bit_vector);
    let list = clock_settings(divider as u32);
    assert(list.take(0) =~= Seq::empty() && list.take(3) =~= list);
    match m.phase {
        SwitchPhase::Previous => {
            assert(settings(after) =~= list.take(0));
        },
        SwitchPhase::Program { program, previous } => {
            lemma_program_next(program);
            let all = settings(after);
            let none = clock_settings(previous as u32).take(0);
            assert(all.take(all.len() as int) =~= all);
            assert(all.skip(all.len() as int) =~= none);
            assert(!(program.phase is Disable) ==> all.len() >= 1);
        },
        SwitchPhase::Rollback(program) => {
            lemma_program_next(program);
            let all = settings(trace);
            let j = all.len() - programmed(program);
            if is_setting(m.op()) {
                assert(all.push(m.op()).take(j) =~= all.take(j));
                assert(all.push(m.op()).skip(j) =~= all.skip(j).push(m.op()));
            }
            assert(settings(after).take(j) == list.take(j));
        },
        _ => {},
    }
}

/// A clock switch touches the clock only when nothing is under way, waits for that a
/// second at most, and goes back to the old divider if the new one does not take.
pub proof fn law_switch_goes_back_if_it_fails(divider: u8, replies: Seq<Reply>)
    ensures
        ({
            let done = run(Step::Next(SwitchClock::new(divider)), replies);
            let n = done.trace.len() as int;
            match done.at {
                Step::Next(m) => switch_in_time(done.trace, m.op()),
                Step::Done(true) => switch_settings(divider, done.trace, false),
                Step::Done(false) => {
                    ||| switch_settings(divider, done.trace, true)
                    ||| settings(done.trace).len() == 0 && n >= 2 && done.trace[0].0 is Now
                        && done.trace[n - 1].0 is Now && (done.trace[n - 1].1.time()
                        >= done.trace[0].1.time() + 1_000_000_000 || done.trace[n - 1].1.time()
                        == u64::MAX)
                },
            }
        }),
{
    let start = Step::<SwitchClock, bool>::Next(SwitchClock::new(divider));
    let inv = |trace: Seq<(Op, Reply)>, at: Step<SwitchClock, bool>| switching(divider, trace, at);
    assert forall|trace: Seq<(Op, Reply)>, m: SwitchClock, reply: Reply|
        inv(trace, Step::Next(m)) implies #[trigger] inv(
        trace.push((m.op(), reply)),
        m.next(reply),
    ) by {
        lemma_switching(divider, trace, m, reply);
    }
    crate::io::lemma_run_invariant(start, replies, inv);
    let done = run(start, replies);
    if let Step::Next(m) = done.at {
        lemma_switching(divider, done.trace, m, Reply::Done);
    }
}

/// Five seconds after the first clock reading of a wait.
pub open spec fn five_seconds_on(trace: Seq<(Op, Reply)>) -> int {
    if trace[0].1.time() + 5_000_000_000 <= u64::MAX {
        trace[0].1.time() + 5_000_000_000
    } else {
        u64::MAX as int
    }
}

/// Looks at the busy signals.
pub open spec fn busy_looks(trace: Seq<(Op, Reply)>) -> int
    decreases trace.len(),
{
    if trace.len() == 0 {
        0
    } else {
        busy_looks(trace.drop_last()) + (if looks(trace.last().0, Reg::Status) {
            1int
        } else {
            0
        })
    }
}

/// Where the wait for the busy signals stands, by its trace.
spec fn polling(trace: Seq<(Op, Reply)>, at: Step<PollReady, SdMmcResult>) -> bool {
    let n = trace.len() as int;
    &&& n >= 1 ==> trace[0].0 is Now
    &&& match at {
        Step::Done(Ok(_)) => saw(trace, Reg::Status, 0x600, false),
        Step::Done(Err(error)) => {
            &&& error == SdMmcError::CardBusyTimeout
            &&& n >= 3 && trace[n - 1].0 is Now && trace[n - 1].1.time() >= five_seconds_on(trace)
            &&& saw(trace.drop_last(), Reg::Status, 0x600, true)
        },
        Step::Next(m) => match m.phase {
            PollReadyPhase::Clock => n == 0 && m.attempts == 0,
            PollReadyPhase::Busy { deadline, again } => {
                &&& n >= 1 && trace[n - 1].0 is Now && deadline == five_seconds_on(trace)
                &&& again ==> n >= 3 && trace[n - 1].1.time() < deadline && saw(
                    trace.drop_last(),
                    Reg::Status,
                    0x600,
                    true,
                )
                &&& m.attempts < usize::MAX ==> m.attempts == busy_looks(trace) + 1
            },
            PollReadyPhase::Deadline { deadline } => {
                &&& n >= 2 && deadline == five_seconds_on(trace)
                &&& saw(trace, Reg::Status, 0x600, true)
                &&& m.attempts < usize::MAX ==> m.attempts == busy_looks(trace)
            },
        },
    }
}

proof fn lemma_polling(trace: Seq<(Op, Reply)>, m: PollReady, reply: Reply)
    requires
        polling(trace, Step::Next(m)),
    ensures
        polling(trace.push((m.op(), reply)), m.next(reply)),
{
    let word = reply.word();
    assert(trace.push((m.op(), reply)).drop_last() =~= trace);
    assert(trace.len() == 0 ==> busy_looks(trace) == 0);
    assert((word & 0x400 == 0 && word & 0x200 == 0) == (word & 0x600 == 0)) by (bit_vector);
}

/// The wait for the busy signals ends well as soon as they are seen released. It looks
/// again only while five seconds are not over, and reports that the card stayed busy only
/// after them and after a look that found it so. Its attempts are its looks.
pub proof fn law_busy_wait_takes_five_seconds(replies: Seq<Reply>)
    ensures
        ({
            let done = run(Step::Next(PollReady::new()), replies);
            let trace = done.trace;
            let n = trace.len() as int;
            &&& n >= 1 ==> trace[0].0 is Now
            &&& match done.at {
                Step::Done(Ok(_)) => saw(trace, Reg::Status, 0x600, false),
                Step::Done(Err(error)) => {
                    &&& error == SdMmcError::CardBusyTimeout
                    &&& trace[n - 1].0 is Now && trace[n - 1].1.time() >= five_seconds_on(trace)
                    &&& saw(trace.drop_last(), Reg::Status, 0x600, true)
                },
                Step::Next(m) => {
                    &&& m.op() == Op::Poll(Reg::Status) ==> trace[n - 1].0 is Now && trace[n
                        - 1].1.time() < five_seconds_on(trace)
                    &&& looks(m.op(), Reg::Status) && m.attempts < usize::MAX ==> m.attempts
                        == busy_looks(trace) + 1
                },
            }
        }),
{
    let start = Step::<PollReady, SdMmcResult>::Next(PollReady::new());
    let inv = |trace: Seq<(Op, Reply)>, at: Step<PollReady, SdMmcResult>| polling(trace, at);
    assert forall|trace: Seq<(Op, Reply)>, m: PollReady, reply: Reply|
        inv(trace, Step::Next(m)) implies #[trigger] inv(
        trace.push((m.op(), reply)),
        m.next(reply),
    ) by {
        lemma_polling(trace, m, reply);
    }
    crate::io::lemma_run_invariant(start, replies, inv);
}

/// The inquiry under way stops at the deadline.
spec fn inquiry_bounded(trace: Seq<(Op, Reply)>, send: SendCmd, limit: u64) -> bool {
    let n = trace.len() as int;
    let fresh = n >= 1 && trace[n - 1].0 is Now && trace[n - 1].1.time() < limit;
    &&& send.deadline == Some(limit)
    &&& match send.phase {
        SendPhase::Idle { count } => count > 0 ==> fresh,
        SendPhase::IdleClock { deadline, .. } => deadline == limit,
        SendPhase::Accept { count } => count > 0 ==> fresh,
        SendPhase::AcceptClock { deadline, .. } => deadline == limit,
        SendPhase::ResponseWait { deadline, again } => deadline <= limit && (again ==> fresh),
        SendPhase::ResponseClock { deadline } => deadline <= limit,
        _ => true,
    }
}

/// Where the wait for the card's word stands, by its trace.
spec fn asking(trace: Seq<(Op, Reply)>, at: Step<AskReady, SdMmcResult>) -> bool {
    let n = trace.len() as int;
    let limit = five_seconds_on(trace);
    &&& n >= 1 ==> trace[0].0 is Now
    &&& match at {
        Step::Done(_) => true,
        Step::Next(m) => match m.phase {
            AskReadyPhase::Clock => n == 0,
            AskReadyPhase::Deadline { deadline } => n >= 1 && deadline == limit,
            AskReadyPhase::Ask { send, deadline } => {
                &&& n >= 1 && deadline == limit
                &&& inquiry_bounded(trace, send, deadline)
                &&& send.phase == (SendPhase::Idle { count: 0 }) ==> n == 1 || (trace[n - 1].0
                    is Now && trace[n - 1].1.time() < limit)
                &&& send.request.kind == CommandKind::SendStatus
                &&& send.request.data is Nothing
                &&& !(send.phase is DataIdle || send.phase is BusyStart || send.phase is Busy
                    || send.phase is BusyClock || send.phase is Data || send.phase is FifoLevel
                    || send.phase is Fifo)
            },
            AskReadyPhase::Busy { deadline, .. } => n >= 1 && deadline == limit,
            AskReadyPhase::YieldClock { deadline } => n >= 1 && deadline == limit,
            AskReadyPhase::Yield { deadline } => {
                &&& n >= 1 && deadline == limit
                &&& trace[n - 1].0 is Now && trace[n - 1].1.time() < limit
            },
        },
    }
}

proof fn lemma_asking(trace: Seq<(Op, Reply)>, m: AskReady, reply: Reply)
    requires
        asking(trace, Step::Next(m)),
    ensures
        asking(trace.push((m.op(), reply)), m.next(reply)),
{
    crate::cmd::law_word_describes_command(CommandKind::SendStatus);
    assert(trace.push((m.op(), reply)).drop_last() =~= trace);
}

/// The wait for the card's word looks again, whether at the controller or for the card to
/// go on, only while five seconds are not over; it pauses only then, too.
pub proof fn law_inquiry_takes_five_seconds(rca: u16, replies: Seq<Reply>)
    ensures
        ({
            let done = run(Step::Next(AskReady::new(rca)), replies);
            let trace = done.trace;
            let n = trace.len() as int;
            &&& n >= 1 ==> trace[0].0 is Now
            &&& done.at matches Step::Next(m) ==> (m.op() is Poll || m.op() is Yield ==> n >= 1
                && trace[n - 1].0 is Now && trace[n - 1].1.time() < five_seconds_on(trace))
        }),
{
    let start = Step::<AskReady, SdMmcResult>::Next(AskReady::new(rca));
    let inv = |trace: Seq<(Op, Reply)>, at: Step<AskReady, SdMmcResult>| asking(trace, at);
    assert forall|trace: Seq<(Op, Reply)>, m: AskReady, reply: Reply|
        inv(trace, Step::Next(m)) implies #[trigger] inv(
        trace.push((m.op(), reply)),
        m.next(reply),
    ) by {
        lemma_asking(trace, m, reply);
    }
    crate::io::lemma_run_invariant(start, replies, inv);
}

/// When the card's power-up began to be waited for: the clock was read twice in a row.
pub open spec fn power_up_began(trace: Seq<(Op, Reply)>) -> Option<u64>
    decreases trace.len(),
{
    if trace.len() < 2 {
        None
    } else {
        let before = trace.drop_last();
        match power_up_began(before) {
            Some(began) => Some(began),
            None => if trace.last().0 is Now && before.last().0 is Now {
                Some(before.last().1.time())
            } else {
                None
            },
        }
    }
}

/// The clock was read right after a pause, or a second time in a row.
pub open spec fn power_up_timed(trace: Seq<(Op, Reply)>) -> bool {
    let n = trace.len() as int;
    n >= 2 && trace[n - 1].0 is Now && (trace[n - 2].0 is BusyWait || trace[n - 2].0 is Now)
}

/// Two seconds after a time.
pub open spec fn two_seconds_on(began: u64) -> int {
    if began + 2_000_000_000 <= u64::MAX {
        began + 2_000_000_000
    } else {
        u64::MAX as int
    }
}

/// The card is asked once more, if it is asked, before its time is over.
spec fn powering(trace: Seq<(Op, Reply)>, deadline: u64) -> bool {
    power_up_began(trace) matches Some(began) && deadline == two_seconds_on(began)
}

/// The card is not asked for its power-up yet.
spec fn before_power_up(phase: InitPhase) -> bool {
    match phase {
        InitPhase::ClearStale => true,
        InitPhase::ClockOff => true,
        InitPhase::LatchOff(_) => true,
        InitPhase::Divider => true,
        InitPhase::ClockOn => true,
        InitPhase::LatchOn(_) => true,
        InitPhase::ClockSettle => true,
        InitPhase::Power => true,
        InitPhase::PowerSettle => true,
        InitPhase::BusWidth => true,
        InitPhase::StopEngine => true,
        InitPhase::ResetInterface => true,
        InitPhase::GoIdle(_) => true,
        InitPhase::IfCond(_) => true,
        _ => false,
    }
}

/// The card is asked for its power-up.
spec fn at_power_up(phase: InitPhase) -> bool {
    match phase {
        InitPhase::OpCondStart => true,
        InitPhase::OpCondClock { .. } => true,
        InitPhase::OpCondApp { .. } => true,
        InitPhase::OpCond { .. } => true,
        InitPhase::OpCondPause { .. } => true,
        _ => false,
    }
}

/// Where identification stands, as far as the power-up of the card goes.
#[verifier::opaque]
spec fn power_up(trace: Seq<(Op, Reply)>, at: Step<Init, SdMmcResult<Card>>) -> bool {
    let n = trace.len() as int;
    let last_is_clock = n >= 1 && trace[n - 1].0 is Now;
    match at {
        Step::Done(Err(SdMmcError::InitializationFailed)) => power_up_timed(trace) ==> (
        power_up_began(trace) matches Some(began) && trace[n - 1].1.time() >= two_seconds_on(
            began,
        )),
        Step::Done(_) => true,
        Step::Next(m) => match m.phase {
            InitPhase::OpCondStart => {
                &&& power_up_began(trace) is None && !last_is_clock
                &&& n >= 1 && !(trace[n - 1].0 is BusyWait)
                &&& n >= 2 && !(trace[n - 2].0 is BusyWait)
            },
            InitPhase::OpCondClock { deadline } => {
                &&& n >= 2 && !(trace[n - 2].0 is BusyWait)
                &&& {
                    ||| power_up_began(trace) is None && last_is_clock && deadline
                        == two_seconds_on(trace[n - 1].1.time())
                    ||| powering(trace, deadline) && trace[n - 1].0 is BusyWait
                }
            },
            InitPhase::OpCondApp { send, deadline } => {
                &&& powering(trace, deadline)
                &&& send.request.kind == CommandKind::AppCmd && send.deadline is None
                &&& n >= 1 && !(trace[n - 1].0 is BusyWait)
                &&& n >= 2 && trace[n - 2].0 is BusyWait ==> last_is_clock
                &&& last_is_clock && (n >= 2 && trace[n - 2].0 is BusyWait) ==> trace[n
                    - 1].1.time() < deadline
                &&& send.phase == (SendPhase::Idle { count: 0 }) ==> last_is_clock && trace[n
                    - 1].1.time() < deadline
            },
            InitPhase::OpCond { send, deadline } => {
                &&& powering(trace, deadline)
                &&& n >= 1 && !(trace[n - 1].0 is BusyWait)
                &&& n >= 2 && !(trace[n - 2].0 is BusyWait)
            },
            InitPhase::OpCondPause { deadline } => {
                &&& powering(trace, deadline)
                &&& n >= 1 && !(trace[n - 1].0 is BusyWait)
                &&& n >= 2 && !(trace[n - 2].0 is BusyWait)
            },
            _ => if before_power_up(m.phase) {
                &&& power_up_began(trace) is None
                &&& m.op() is Now ==> !last_is_clock
                &&& n >= 1 ==> !(trace[n - 1].0 is BusyWait)
                &&& n >= 2 ==> !(trace[n - 2].0 is BusyWait)
                &&& !(m.phase is ClearStale) ==> n >= 1
                &&& m.phase is GoIdle || m.phase is IfCond ==> n >= 2
            } else {
                &&& n >= 1 && !(trace[n - 1].0 is BusyWait)
                &&& n >= 2 && !(trace[n - 2].0 is BusyWait)
                &&& m.phase matches InitPhase::Switch { switch, .. } ==> (switch.phase
                    is Deadline ==> !last_is_clock)
            },
        },
    }
}

/// A submission never reads the clock twice in a row, and never ends by doing so.
proof fn lemma_clock_once(send: SendCmd, reply: Reply)
    ensures
        !(send.op() is BusyWait),
        send.op() is Now ==> (send.next(reply) matches Step::Next(later) && !(later.op() is Now)),
        send.next(reply) matches Step::Next(later) ==> later.phase != (SendPhase::Idle {
            count: 0,
        }),
        send.phase == (SendPhase::Idle { count: 0 }) ==> send.next(reply) is Next,
        send.phase == (SendPhase::Idle { count: 0 }) && send.deadline is None ==> (send.next(
            reply,
        ) matches Step::Next(later) && !(later.op() is Now)),
{
}

/// Only the power-up of the card is paused for.
proof fn lemma_no_pause(m: Init)
    ensures
        m.op() matches Op::BusyWait(pause) ==> m.phase is OpCondPause && pause == 10_000_000,
{
}

proof fn lemma_first_settings(trace: Seq<(Op, Reply)>, m: Init, reply: Reply)
    requires
        before_power_up(m.phase),
        !(m.phase is LatchOff || m.phase is LatchOn || m.phase is GoIdle || m.phase is IfCond),
        power_up(trace, Step::Next(m)),
    ensures
        power_up(trace.push((m.op(), reply)), m.next(reply)),
{
    reveal(power_up);
    let after = trace.push((m.op(), reply));
    assert(after.drop_last() =~= trace);
}

proof fn lemma_first_latches(trace: Seq<(Op, Reply)>, m: Init, reply: Reply)
    requires
        before_power_up(m.phase),
        m.phase is LatchOff || m.phase is LatchOn,
        power_up(trace, Step::Next(m)),
    ensures
        power_up(trace.push((m.op(), reply)), m.next(reply)),
{
    reveal(power_up);
    let after = trace.push((m.op(), reply));
    assert(after.drop_last() =~= trace);
    match m.phase {
        InitPhase::LatchOff(send) => lemma_clock_once(send, reply),
        InitPhase::LatchOn(send) => lemma_clock_once(send, reply),
        _ => {},
    }
}

proof fn lemma_first_commands(trace: Seq<(Op, Reply)>, m: Init, reply: Reply)
    requires
        before_power_up(m.phase),
        m.phase is GoIdle || m.phase is IfCond,
        power_up(trace, Step::Next(m)),
    ensures
        power_up(trace.push((m.op(), reply)), m.next(reply)),
{
    reveal(power_up);
    let after = trace.push((m.op(), reply));
    assert(after.drop_last() =~= trace);
    match m.phase {
        InitPhase::GoIdle(send) => lemma_clock_once(send, reply),
        InitPhase::IfCond(send) => lemma_clock_once(send, reply),
        _ => {},
    }
}

proof fn lemma_power_up(trace: Seq<(Op, Reply)>, m: Init, reply: Reply)
    requires
        at_power_up(m.phase),
        power_up(trace, Step::Next(m)),
    ensures
        power_up(trace.push((m.op(), reply)), m.next(reply)),
{
    reveal(power_up);
    let after = trace.push((m.op(), reply));
    assert(after.drop_last() =~= trace);
    match m.phase {
        InitPhase::OpCondApp { send, .. } => lemma_clock_once(send, reply),
        InitPhase::OpCond { send, .. } => lemma_clock_once(send, reply),
        _ => {},
    }
}

proof fn lemma_after_power_up(trace: Seq<(Op, Reply)>, m: Init, reply: Reply)
    requires
        !before_power_up(m.phase),
        !at_power_up(m.phase),
        !(m.phase is Switch),
        power_up(trace, Step::Next(m)),
    ensures
        power_up(trace.push((m.op(), reply)), m.next(reply)),
{
    reveal(power_up);
    let after = trace.push((m.op(), reply));
    assert(after.drop_last() =~= trace);
    lemma_no_pause(m);
    match m.phase {
        InitPhase::AllSendCid(send) => lemma_clock_once(send, reply),
        InitPhase::RelativeAddr { send, .. } => lemma_clock_once(send, reply),
        InitPhase::SendCsd { send, .. } => lemma_clock_once(send, reply),
        InitPhase::Select { send, .. } => lemma_clock_once(send, reply),
        InitPhase::ScrApp { send, .. } => lemma_clock_once(send, reply),
        InitPhase::Scr { send, .. } => lemma_clock_once(send, reply),
        _ => {},
    }
}

/// A clock switch ends with a clock reading only when it has looked before.
proof fn lemma_switch_end(switch: SwitchClock, reply: Reply)
    ensures
        !(switch.op() is BusyWait),
        switch.next(reply) matches Step::Next(later) ==> (later.phase is Deadline ==> !(
        switch.op() is Now)),
        switch.next(reply) is Done && switch.op() is Now ==> switch.phase is Deadline,
{
    match switch.phase {
        SwitchPhase::Program { program, .. } => lemma_program_end(program, reply),
        SwitchPhase::Rollback(program) => lemma_program_end(program, reply),
        _ => {},
    }
}

/// The programming of a divider never ends with a clock reading.
proof fn lemma_program_end(program: ProgramClock, reply: Reply)
    ensures
        !(program.op() is BusyWait),
        program.op() is Now ==> program.next(reply) is Next,
{
    match program.phase {
        ProgramPhase::LatchDisabled(send) => lemma_clock_once(send, reply),
        ProgramPhase::LatchDivider(send) => lemma_clock_once(send, reply),
        ProgramPhase::LatchEnabled(send) => lemma_clock_once(send, reply),
        _ => {},
    }
}

proof fn lemma_final_switch(trace: Seq<(Op, Reply)>, m: Init, reply: Reply)
    requires
        m.phase is Switch,
        power_up(trace, Step::Next(m)),
    ensures
        power_up(trace.push((m.op(), reply)), m.next(reply)),
{
    reveal(power_up);
    let after = trace.push((m.op(), reply));
    assert(after.drop_last() =~= trace);
    if let InitPhase::Switch { switch, .. } = m.phase {
        lemma_switch_end(switch, reply);
    }
}

/// What the power-up of the card is waited for like.
proof fn lemma_paused(trace: Seq<(Op, Reply)>, m: Init)
    requires
        power_up(trace, Step::Next(m)),
    ensures
        ({
            let n = trace.len() as int;
            &&& n >= 1 && trace[n - 1].0 is BusyWait ==> m.op() is Now
            &&& n >= 2 && trace[n - 2].0 is BusyWait ==> trace[n - 1].0 is Now && (power_up_began(
                trace,
            ) matches Some(began) && trace[n - 1].1.time() < two_seconds_on(began))
        }),
{
    reveal(power_up);
}

/// The card is asked for its power-up every ten milliseconds, for two seconds at most: the
/// clock is read after each pause, and the card is asked again only if its time is not
/// over; that it is over is reported only then.
pub proof fn law_power_up_takes_two_seconds(replies: Seq<Reply>)
    ensures
        ({
            let done = run(Step::Next(Init::new()), replies);
            let trace = done.trace;
            let n = trace.len() as int;
            match done.at {
                Step::Next(m) => {
                    &&& m.op() matches Op::BusyWait(pause) ==> pause == 10_000_000
                    &&& n >= 1 && trace[n - 1].0 is BusyWait ==> m.op() is Now
                    &&& n >= 2 && trace[n - 2].0 is BusyWait ==> trace[n - 1].0 is Now && (
                    power_up_began(trace) matches Some(began) && trace[n - 1].1.time()
                        < two_seconds_on(began))
                },
                Step::Done(Err(SdMmcError::InitializationFailed)) => power_up_timed(trace) ==> (
                power_up_began(trace) matches Some(began) && trace[n - 1].1.time()
                    >= two_seconds_on(began)),
                _ => true,
            }
        }),
{
    let start = Step::<Init, SdMmcResult<Card>>::Next(Init::new());
    let inv = |trace: Seq<(Op, Reply)>, at: Step<Init, SdMmcResult<Card>>| power_up(trace, at);
    assert forall|trace: Seq<(Op, Reply)>, m: Init, reply: Reply|
        inv(trace, Step::Next(m)) implies #[trigger] inv(
        trace.push((m.op(), reply)),
        m.next(reply),
    ) by {
        if m.phase is LatchOff || m.phase is LatchOn {
            lemma_first_latches(trace, m, reply);
        } else if m.phase is GoIdle || m.phase is IfCond {
            lemma_first_commands(trace, m, reply);
        } else if before_power_up(m.phase) {
            lemma_first_settings(trace, m, reply);
        } else if at_power_up(m.phase) {
            lemma_power_up(trace, m, reply);
        } else if m.phase is Switch {
            lemma_final_switch(trace, m, reply);
        } else {
            lemma_after_power_up(trace, m, reply);
        }
    }
    assert(inv(Seq::empty(), start)) by {
        reveal(power_up);
    }
    crate::io::lemma_run_invariant(start, replies, inv);
    let done = run(start, replies);
    match done.at {
        Step::Next(m) => {
            lemma_no_pause(m);
            lemma_paused(done.trace, m);
        },
        Step::Done(_) => {
            reveal(power_up);
        },
    }
}

/// A tenth of a second after a time.
pub open spec fn tenth_on(began: u64) -> int {
    if began + 100_000_000 <= u64::MAX {
        began + 100_000_000
    } else {
        u64::MAX as int
    }
}

/// The reset bits of engine and interface were looked at one after the other, and both were
/// clear or not.
pub open spec fn reset_seen(trace: Seq<(Op, Reply)>, over: bool) -> bool {
    let n = trace.len() as int;
    &&& n >= 2
    &&& looks(trace[n - 2].0, Reg::BMod) && trace[n - 1].0 == Op::Read(Reg::Ctrl)
    &&& over == (trace[n - 2].1.word() & 0x1 == 0 && trace[n - 1].1.word() & 0x4 == 0)
}

/// How a reset is begun: the engine is disabled and reset, its interface is reset and cut
/// off, and after a fence the clock is read.
pub open spec fn reset_begun(trace: Seq<(Op, Reply)>) -> bool {
    &&& trace.len() >= 4
    &&& trace[0].0 == (Op::Update { reg: Reg::BMod, clear: 0x80, set: 0x1 })
    &&& trace[1].0 == (Op::Update { reg: Reg::Ctrl, clear: 0x0200_0000, set: 0x4 })
    &&& trace[2].0 is Fence
    &&& trace[3].0 is Now
}

/// Where a reset stands, by its trace.
spec fn resetting(trace: Seq<(Op, Reply)>, at: Step<ResetIdmac, bool>) -> bool {
    let n = trace.len() as int;
    let limit = tenth_on(trace[3].1.time());
    match at {
        Step::Done(true) => reset_begun(trace) && reset_seen(trace, true),
        Step::Done(false) => {
            &&& reset_begun(trace)
            &&& trace[n - 1].0 is Now && trace[n - 1].1.time() >= limit
            &&& reset_seen(trace.drop_last(), false)
        },
        Step::Next(m) => match m.phase {
            ResetPhase::Engine => n == 0,
            ResetPhase::Interface => {
                &&& n == 1
                &&& trace[0].0 == (Op::Update { reg: Reg::BMod, clear: 0x80, set: 0x1 })
            },
            ResetPhase::Fence => {
                &&& n == 2
                &&& trace[0].0 == (Op::Update { reg: Reg::BMod, clear: 0x80, set: 0x1 })
                &&& trace[1].0 == (Op::Update { reg: Reg::Ctrl, clear: 0x0200_0000, set: 0x4 })
            },
            ResetPhase::Clock => {
                &&& n == 3
                &&& trace[0].0 == (Op::Update { reg: Reg::BMod, clear: 0x80, set: 0x1 })
                &&& trace[1].0 == (Op::Update { reg: Reg::Ctrl, clear: 0x0200_0000, set: 0x4 })
                &&& trace[2].0 is Fence
            },
            ResetPhase::EngineBit { deadline, again } => {
                &&& reset_begun(trace) && deadline == limit
                &&& trace[n - 1].0 is Now && (again ==> trace[n - 1].1.time() < limit)
            },
            ResetPhase::InterfaceBit { deadline, engine_done } => {
                &&& reset_begun(trace) && deadline == limit
                &&& looks(trace[n - 1].0, Reg::BMod)
                &&& engine_done == (trace[n - 1].1.word() & 0x1 == 0)
            },
            ResetPhase::Deadline { deadline } => {
                &&& reset_begun(trace) && deadline == limit
                &&& reset_seen(trace, false)
            },
        },
    }
}

proof fn lemma_resetting(trace: Seq<(Op, Reply)>, m: ResetIdmac, reply: Reply)
    requires
        resetting(trace, Step::Next(m)),
    ensures
        resetting(trace.push((m.op(), reply)), m.next(reply)),
{
    assert(trace.push((m.op(), reply)).drop_last() =~= trace);
}

/// A reset is over when both reset bits are seen clear. It looks again only while a tenth of
/// a second is not over, and fails only after that and after a look that found one set.
pub proof fn law_reset_takes_a_tenth_of_a_second(replies: Seq<Reply>)
    ensures
        ({
            let done = run(Step::Next(ResetIdmac::new()), replies);
            let trace = done.trace;
            let n = trace.len() as int;
            let limit = tenth_on(trace[3].1.time());
            match done.at {
                Step::Done(true) => reset_begun(trace) && reset_seen(trace, true),
                Step::Done(false) => {
                    &&& reset_begun(trace)
                    &&& trace[n - 1].0 is Now && trace[n - 1].1.time() >= limit
                    &&& reset_seen(trace.drop_last(), false)
                },
                Step::Next(m) => m.op() is Poll ==> trace[n - 1].0 is Now && trace[n - 1].1.time()
                    < limit,
            }
        }),
{
    let start = Step::<ResetIdmac, bool>::Next(ResetIdmac::new());
    let inv = |trace: Seq<(Op, Reply)>, at: Step<ResetIdmac, bool>| resetting(trace, at);
    assert forall|trace: Seq<(Op, Reply)>, m: ResetIdmac, reply: Reply|
        inv(trace, Step::Next(m)) implies #[trigger] inv(
        trace.push((m.op(), reply)),
        m.next(reply),
    ) by {
        lemma_resetting(trace, m, reply);
    }
    crate::io::lemma_run_invariant(start, replies, inv);
}

/// The status of the controller was cleared last of all.
pub open spec fn status_cleared(trace: Seq<(Op, Reply)>) -> bool {
    trace.len() >= 1 && trace.last().0 == Op::Acknowledge(Reg::RIntSts)
}

/// Identification clears the status of the controller first of all, and again before it
/// switches the clock.
pub proof fn law_identification_clears_the_status(replies: Seq<Reply>)
    ensures
        ({
            let done = run(Step::Next(Init::new()), replies);
            &&& done.trace.len() >= 1 ==> done.trace[0].0 == Op::Acknowledge(Reg::RIntSts)
            &&& done.at matches Step::Next(m) ==> (m.phase matches InitPhase::Switch {
                switch,
                ..
            } ==> (switch.phase is Clock ==> status_cleared(done.trace)))
        }),
{
    let start = Step::<Init, SdMmcResult<Card>>::Next(Init::new());
    let inv = |trace: Seq<(Op, Reply)>, at: Step<Init, SdMmcResult<Card>>|
        {
            &&& trace.len() >= 1 ==> trace[0].0 == Op::Acknowledge(Reg::RIntSts)
            &&& at matches Step::Next(m) ==> {
                &&& trace.len() == 0 ==> m.phase is ClearStale
                &&& m.phase matches InitPhase::Switch { switch, .. } ==> (switch.phase is Clock
                    ==> status_cleared(trace))
            }
        };
    assert forall|trace: Seq<(Op, Reply)>, m: Init, reply: Reply|
        inv(trace, Step::Next(m)) implies #[trigger] inv(
        trace.push((m.op(), reply)),
        m.next(reply),
    ) by {
        let after = trace.push((m.op(), reply));
        if trace.len() > 0 {
            assert(after[0] == trace[0]);
        }
        assert(after.last() == (m.op(), reply));
        if let InitPhase::Switch { switch, .. } = m.phase {
            lemma_clock_is_first(switch, reply);
        }
    }
    crate::io::lemma_run_invariant(start, replies, inv);
}

/// A clock switch reads the clock first only once.
proof fn lemma_clock_is_first(switch: SwitchClock, reply: Reply)
    ensures
        switch.next(reply) matches Step::Next(later) ==> !(later.phase is Clock),
{
}

} // verus!
