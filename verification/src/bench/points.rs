//! Which points of a call a step of a request reaches, for the recorders of the
//! benchmarks.

use crate::bench::stage::{Stage, StageEvent};
use crate::bench::wake::WakeEvent;
use crate::bench::write_seen::WriteEvent;
use crate::blocks::{BlockEnd, BlockPhase, BlockRequest, Direction};
use crate::completion::IdmacStatus;
use crate::enable::IdmacState;
use crate::io::{lemma_run_invariant, run, Machine, Op, Reply, Step, Until};
use crate::ready::AskReadyPhase;
use crate::trace::submits;
use crate::transfer::{StartPhase, TransferPhase, WaitMode, WaitPhase};
use vstd::prelude::*;

verus! {

/// Where a request stands after a step; nothing at its end.
#[verifier::allow_in_spec]
pub fn phase_after(step: &Step<BlockRequest, BlockEnd>) -> Option<BlockPhase>
    returns
        (match step {
            Step::Next(request) => Some(request.phase),
            Step::Done(_) => None,
        }),
{
    match step {
        Step::Next(request) => Some(request.phase),
        Step::Done(_) => None,
    }
}

/// The request fails with a step.
#[verifier::allow_in_spec]
pub fn fails(step: &Step<BlockRequest, BlockEnd>) -> bool
    returns
        (match step {
            Step::Next(_) => false,
            Step::Done(end) => match end.result {
                Ok(_) => false,
                Err(_) => true,
            },
        }),
{
    match step {
        Step::Next(_) => false,
        Step::Done(end) => match end.result {
            Ok(_) => false,
            Err(_) => true,
        },
    }
}

/// Where the transfer of a request stands, if one is under way.
#[verifier::allow_in_spec]
pub fn transfer_phase(phase: Option<BlockPhase>) -> Option<TransferPhase>
    returns
        (match phase {
            Some(BlockPhase::Transfer(transfer)) => Some(transfer.phase),
            _ => None,
        }),
{
    match phase {
        Some(BlockPhase::Transfer(transfer)) => Some(transfer.phase),
        _ => None,
    }
}

/// The point that a step completes: the end of the preparation, the write of the
/// command, the end of the submission, of the command phase, of the data phase, of
/// the validation or of the cleanup.
pub open spec fn completed_stage(before: BlockPhase, after: Option<BlockPhase>) -> Option<Stage> {
    match transfer_phase(Some(before)) {
        Some(TransferPhase::Prepare(_)) => match transfer_phase(after) {
            Some(TransferPhase::Start(_)) => Some(Stage::PrepareEnd),
            _ => None,
        },
        Some(TransferPhase::Start(start)) => match start.phase {
            StartPhase::WriteCmd => Some(Stage::CmdWrite),
            _ => match transfer_phase(after) {
                Some(TransferPhase::Wait(_)) => Some(Stage::SubmitEnd),
                _ => None,
            },
        },
        Some(TransferPhase::Wait(wait)) => match transfer_phase(after) {
            Some(TransferPhase::Wait(_)) => match wait.phase {
                WaitPhase::CommandStatus => Some(Stage::CommandSeen),
                _ => None,
            },
            Some(TransferPhase::Validate(_)) => Some(Stage::TerminalSeen),
            _ => None,
        },
        Some(TransferPhase::Response(_)) => match transfer_phase(after) {
            Some(TransferPhase::Finish { .. }) => Some(Stage::ValidationEnd),
            _ => None,
        },
        Some(TransferPhase::Finish { .. }) => match transfer_phase(after) {
            None => Some(Stage::CleanupEnd),
            _ => None,
        },
        _ => None,
    }
}

/// Tells which point a step completes.
pub fn stage_completed(before: BlockPhase, after: Option<BlockPhase>) -> (stage: Option<Stage>)
    ensures
        stage == completed_stage(before, after),
{
    match transfer_phase(Some(before)) {
        Some(TransferPhase::Prepare(_)) => match transfer_phase(after) {
            Some(TransferPhase::Start(_)) => Some(Stage::PrepareEnd),
            _ => None,
        },
        Some(TransferPhase::Start(start)) => match start.phase {
            StartPhase::WriteCmd => Some(Stage::CmdWrite),
            _ => match transfer_phase(after) {
                Some(TransferPhase::Wait(_)) => Some(Stage::SubmitEnd),
                _ => None,
            },
        },
        Some(TransferPhase::Wait(wait)) => match transfer_phase(after) {
            Some(TransferPhase::Wait(_)) => match wait.phase {
                WaitPhase::CommandStatus => Some(Stage::CommandSeen),
                _ => None,
            },
            Some(TransferPhase::Validate(_)) => Some(Stage::TerminalSeen),
            _ => None,
        },
        Some(TransferPhase::Response(_)) => match transfer_phase(after) {
            Some(TransferPhase::Finish { .. }) => Some(Stage::ValidationEnd),
            _ => None,
        },
        Some(TransferPhase::Finish { .. }) => match transfer_phase(after) {
            None => Some(Stage::CleanupEnd),
            _ => None,
        },
        _ => None,
    }
}

/// The point that a step begins: the preparation, or the cleanup after a validation.
pub open spec fn begun_stage(before: BlockPhase, after: Option<BlockPhase>) -> Option<Stage> {
    match (transfer_phase(Some(before)), transfer_phase(after)) {
        (None, Some(TransferPhase::Prepare(_))) => Some(Stage::PrepareStart),
        (Some(TransferPhase::Response(_)), Some(TransferPhase::Finish { .. })) => Some(
            Stage::CleanupStart,
        ),
        _ => None,
    }
}

/// Tells which point a step begins.
pub fn stage_begun(before: BlockPhase, after: Option<BlockPhase>) -> (stage: Option<Stage>)
    ensures
        stage == begun_stage(before, after),
{
    match (transfer_phase(Some(before)), transfer_phase(after)) {
        (None, Some(TransferPhase::Prepare(_))) => Some(Stage::PrepareStart),
        (Some(TransferPhase::Response(_)), Some(TransferPhase::Finish { .. })) => Some(
            Stage::CleanupStart,
        ),
        _ => None,
    }
}

impl Stage {
    /// The event of reaching this point. A transfer has no generation before its
    /// command is submitted.
    #[verifier::allow_in_spec]
    pub fn event(self, generation: usize, now: u64) -> StageEvent
        returns
            (match self {
                Stage::PrepareStart | Stage::PrepareEnd => StageEvent::Reached { stage: self, now },
                _ => StageEvent::ReachedBy { stage: self, generation, now },
            }),
    {
        match self {
            Stage::PrepareStart | Stage::PrepareEnd => StageEvent::Reached { stage: self, now },
            _ => StageEvent::ReachedBy { stage: self, generation, now },
        }
    }
}

/// The event of a polled transfer whose data phase a step finds over.
pub open spec fn polled_end(
    before: BlockRequest,
    reply: Reply,
    after: Option<BlockPhase>,
    generation: usize,
    now: u64,
) -> Option<WriteEvent> {
    match (completed_stage(before.phase, after), before.mode, reply) {
        (Some(Stage::TerminalSeen), WaitMode::Sync, Reply::Status(status)) => Some(
            WriteEvent::SyncTerminal {
                generation,
                now,
                rintsts: status.rintsts.0,
                idsts: status.idsts.0,
            },
        ),
        _ => None,
    }
}

/// Tells the event of a polled transfer whose data phase a step finds over.
pub fn sync_terminal(
    before: BlockRequest,
    reply: Reply,
    after: Option<BlockPhase>,
    generation: usize,
    now: u64,
) -> (event: Option<WriteEvent>)
    ensures
        event == polled_end(before, reply, after, generation, now),
{
    match (stage_completed(before.phase, after), before.mode, reply) {
        (Some(Stage::TerminalSeen), WaitMode::Sync, Reply::Status(status)) => Some(
            WriteEvent::SyncTerminal {
                generation,
                now,
                rintsts: status.rintsts.0,
                idsts: status.idsts.0,
            },
        ),
        _ => None,
    }
}

/// The request waits for the card to program what was written.
#[verifier::allow_in_spec]
pub fn awaits_card(phase: BlockPhase) -> bool
    returns
        (match phase {
            BlockPhase::PollReady(_) | BlockPhase::AskReady(_) => true,
            _ => false,
        }),
{
    match phase {
        BlockPhase::PollReady(_) | BlockPhase::AskReady(_) => true,
        _ => false,
    }
}

/// The wait for the card that a step begins.
pub open spec fn begun_wait(before: BlockPhase, after: Option<BlockPhase>) -> Option<WaitMode> {
    if awaits_card(before) {
        None
    } else {
        match after {
            Some(BlockPhase::PollReady(_)) => Some(WaitMode::Sync),
            Some(BlockPhase::AskReady(_)) => Some(WaitMode::Async),
            _ => None,
        }
    }
}

/// Tells which wait for the card a step begins.
pub fn wait_begun(before: BlockPhase, after: Option<BlockPhase>) -> (mode: Option<WaitMode>)
    ensures
        mode == begun_wait(before, after),
{
    if awaits_card(before) {
        None
    } else {
        match after {
            Some(BlockPhase::PollReady(_)) => Some(WaitMode::Sync),
            Some(BlockPhase::AskReady(_)) => Some(WaitMode::Async),
            _ => None,
        }
    }
}

/// The event of a wait for the card that a step ends. It was successful unless the
/// request fails.
pub open spec fn ended_wait(
    before: BlockPhase,
    after: Option<BlockPhase>,
    failed: bool,
    started_ns: u64,
    now: u64,
) -> Option<WriteEvent> {
    let goes_on = match after {
        Some(phase) => awaits_card(phase),
        None => false,
    };
    if goes_on {
        None
    } else {
        match before {
            BlockPhase::PollReady(poll) => Some(
                WriteEvent::BusyEnd {
                    asynchronous: false,
                    started_ns,
                    now,
                    attempts: poll.attempts,
                    r1: 0,
                    success: !failed,
                },
            ),
            BlockPhase::AskReady(ask) => Some(
                WriteEvent::BusyEnd {
                    asynchronous: true,
                    started_ns,
                    now,
                    attempts: ask.attempts,
                    r1: match ask.phase {
                        AskReadyPhase::Busy { card_status, .. } => card_status,
                        _ => 0,
                    },
                    success: !failed,
                },
            ),
            _ => None,
        }
    }
}

/// Tells the event of a wait for the card that a step ends.
pub fn wait_ended(
    before: BlockPhase,
    after: Option<BlockPhase>,
    failed: bool,
    started_ns: u64,
    now: u64,
) -> (event: Option<WriteEvent>)
    ensures
        event == ended_wait(before, after, failed, started_ns, now),
{
    let goes_on = match after {
        Some(phase) => awaits_card(phase),
        None => false,
    };
    if goes_on {
        None
    } else {
        match before {
            BlockPhase::PollReady(poll) => Some(
                WriteEvent::BusyEnd {
                    asynchronous: false,
                    started_ns,
                    now,
                    attempts: poll.attempts,
                    r1: 0,
                    success: !failed,
                },
            ),
            BlockPhase::AskReady(ask) => Some(
                WriteEvent::BusyEnd {
                    asynchronous: true,
                    started_ns,
                    now,
                    attempts: ask.attempts,
                    r1: match ask.phase {
                        AskReadyPhase::Busy { card_status, .. } => card_status,
                        _ => 0,
                    },
                    success: !failed,
                },
            ),
            _ => None,
        }
    }
}

/// What a task that slept until an event of its transfer notes when it wakes up.
pub open spec fn resumption(
    until: Until,
    generation: usize,
    timed_out: bool,
    started: u64,
    now: u64,
    status: IdmacStatus,
) -> WakeEvent {
    let elapsed_ns: u64 = now.saturating_sub(started);
    match until {
        Until::CommandDone => WakeEvent::CommandWait { generation, timed_out, elapsed_ns },
        Until::Terminal(_) => WakeEvent::Resume {
            generation,
            now,
            timed_out,
            elapsed_ns,
            rintsts: status.rintsts.0,
            idsts: status.idsts.0,
        },
    }
}

/// Tells what a task that slept until an event of its transfer notes.
pub fn note_resumption(
    until: Until,
    generation: usize,
    timed_out: bool,
    started: u64,
    now: u64,
    status: IdmacStatus,
) -> (event: WakeEvent)
    ensures
        event == resumption(until, generation, timed_out, started, now, status),
{
    let elapsed_ns: u64 = now.saturating_sub(started);
    match until {
        Until::CommandDone => WakeEvent::CommandWait { generation, timed_out, elapsed_ns },
        Until::Terminal(_) => WakeEvent::Resume {
            generation,
            now,
            timed_out,
            elapsed_ns,
            rintsts: status.rintsts.0,
            idsts: status.idsts.0,
        },
    }
}

/// The points of a transfer come in order: each phase completes only its own, the
/// cleanup begins when the validation ends, and the preparation begins only when no
/// transfer is under way.
pub proof fn law_points_belong_to_their_phases(before: BlockPhase, after: Option<BlockPhase>)
    ensures
        match transfer_phase(Some(before)) {
            None => completed_stage(before, after) is None,
            Some(phase) => {
                let stage = completed_stage(before, after);
                &&& begun_stage(before, after) != Some(Stage::PrepareStart)
                &&& begun_stage(before, after) == Some(Stage::CleanupStart) <==> stage == Some(
                    Stage::ValidationEnd,
                )
                &&& stage matches Some(stage) ==> match phase {
                    TransferPhase::Prepare(_) => stage == Stage::PrepareEnd,
                    TransferPhase::Start(_) => stage == Stage::CmdWrite || stage
                        == Stage::SubmitEnd,
                    TransferPhase::Wait(_) => stage == Stage::CommandSeen || stage
                        == Stage::TerminalSeen,
                    TransferPhase::Validate(_) => false,
                    TransferPhase::Response(_) => stage == Stage::ValidationEnd,
                    TransferPhase::Finish { .. } => stage == Stage::CleanupEnd,
                }
            },
        },
{
}

/// The wait for the card has begun at least one look at it, unless it only takes the
/// time yet.
spec fn looked(at: Step<BlockRequest, BlockEnd>) -> bool {
    match at {
        Step::Next(request) => match request.phase {
            BlockPhase::PollReady(poll) => poll.phase is Clock || poll.attempts >= 1,
            BlockPhase::AskReady(ask) => ask.phase is Clock || ask.attempts >= 1,
            _ => true,
        },
        Step::Done(_) => true,
    }
}

/// A wait for the card, polled or not, that a step of a request ends has looked at
/// the card at least once.
pub proof fn law_ended_wait_has_looked(
    direction: Direction,
    mode: WaitMode,
    rca: u16,
    num_blocks: u64,
    state: IdmacState,
    block: u32,
    len: usize,
    replies: Seq<Reply>,
    reply: Reply,
    started_ns: u64,
    now: u64,
)
    ensures
        ({
            let start = BlockRequest::start(direction, mode, rca, num_blocks, state, block, len);
            run(start, replies).at matches Step::Next(request) ==> {
                let after = request.next(reply);
                ended_wait(
                    request.phase,
                    phase_after(&after),
                    fails(&after),
                    started_ns,
                    now,
                ) matches Some(event) ==> (event matches WriteEvent::BusyEnd { attempts, .. }
                    && attempts >= 1)
            }
        }),
{
    let start = BlockRequest::start(direction, mode, rca, num_blocks, state, block, len);
    let inv = |trace: Seq<(Op, Reply)>, at: Step<BlockRequest, BlockEnd>| looked(at);
    lemma_run_invariant(start, replies, inv);
}

/// The request looks at the status for the last time, for its command or for its data.
pub open spec fn waits_in(request: BlockRequest, command: bool) -> bool {
    transfer_phase(Some(request.phase)) matches Some(TransferPhase::Wait(wait)) && if command {
        wait.phase is CommandStatus
    } else {
        wait.phase matches WaitPhase::DataStatus { timed_out } && !timed_out
    }
}

/// The points of a transfer are those of its operations: the command counts as written
/// when its register is written, the submission as over when the transfer is announced,
/// command and data as seen by a look at the status without an error, and the validation
/// as over when the response was read. The preparation begins with a clock reading.
pub proof fn law_points_are_those_of_operations(request: BlockRequest, reply: Reply)
    requires
        request.phase is Transfer,
    ensures
        ({
            let after = request.next(reply);
            let op = request.op();
            let stage = completed_stage(request.phase, phase_after(&after));
            let failed = reply.status().idmac_status_has_error();
            &&& stage == Some(Stage::CmdWrite) <==> submits(op)
            &&& stage == Some(Stage::SubmitEnd) <==> op is Report
            &&& stage == Some(Stage::CommandSeen) <==> waits_in(request, true) && op is Observe
                && !failed
            &&& stage == Some(Stage::TerminalSeen) <==> waits_in(request, false) && op is Observe
                && !failed
            &&& stage == Some(Stage::TerminalSeen) ==> (after matches Step::Next(later)
                && later.op() is Observe)
            &&& stage == Some(Stage::ValidationEnd) <==> op is Response
            &&& stage == Some(Stage::PrepareEnd) <==> (after matches Step::Next(later)
                && later.op() is BeginTransfer)
            &&& stage == Some(Stage::CleanupEnd) ==> op is FreeDescriptors || op is Fence
                || op is Write
        }),
{
}

/// What is noted of a wait for the card that is over: how it waited, from when to when, how
/// often it looked, what the card said last, and whether the card became ready.
pub proof fn law_ended_wait_is_noted_as_it_went(
    before: BlockPhase,
    after: Option<BlockPhase>,
    failed: bool,
    started_ns: u64,
    now: u64,
)
    ensures
        ended_wait(before, after, failed, started_ns, now) matches Some(event) ==> (
        event matches WriteEvent::BusyEnd {
            asynchronous,
            started_ns: from,
            now: to,
            attempts,
            r1,
            success,
        } && {
            &&& from == started_ns && to == now
            &&& success == !failed
            &&& match before {
                BlockPhase::PollReady(poll) => !asynchronous && attempts == poll.attempts && r1
                    == 0,
                BlockPhase::AskReady(ask) => {
                    &&& asynchronous && attempts == ask.attempts
                    &&& r1 == (match ask.phase {
                        AskReadyPhase::Busy { card_status, .. } => card_status,
                        _ => 0,
                    })
                },
                _ => false,
            }
            &&& !(after matches Some(BlockPhase::PollReady(_)))
            &&& !(after matches Some(BlockPhase::AskReady(_)))
        }),
{
}

} // verus!
