//! Why requests fail: each error has its own cause in what the hardware replied.
//! Without a cause that lasts they succeed, provided that no wait exceeds its deadline.

use vstd::prelude::*;

use crate::blocks::{
    chunk_request, range_verdict, BlockEnd, BlockPhase, BlockRequest, Direction,
};
use crate::cmd::{law_word_describes_command, CommandKind, Request};
use crate::dma::{descriptor_count, IdmacDes0};
use crate::enable::IdmacState;
use crate::error::{r1_verdict, SdMmcError};
use crate::io::{never, run, Machine, Op, Reply, Step, Until};
use crate::progress::{lemma_send_hopeful, lemma_send_progress, DELAY_COST};
use crate::ready::{
    ask_invariant, lemma_ask_step, programmed, AskReady, AskReadyPhase, PollReadyPhase,
};
use crate::regs::{BMod, Cmd, Ctrl, IdSts, RIntSts, Reg, Status};
use crate::send::{justified, lemma_outcome_shown, outcome_shown};
use crate::trace::{delay, delays, judged, last_written, looks, op_back, submitted};
use crate::transfer::{
    FinishPhase, FinishTransfer, IdmacTransfer, Prepare, PreparePhase, ResetPhase, StartPhase,
    StartTransfer, TransferEnd, TransferPhase, ValidatePhase, ValidateTransfer, WaitMode,
    WaitPhase, WaitTransfer, DMA_BUFFER_SIZE,
};

verus! {

/// The last chain of descriptors that was allocated has been handed to the engine.
pub open spec fn in_service(trace: Seq<(Op, Reply)>) -> bool
    decreases trace.len(),
{
    trace.len() > 0 && match trace.last().0 {
        Op::AllocDescriptors(_) => false,
        Op::Write(Reg::Cmd, _) => true,
        _ => in_service(trace.drop_last()),
    }
}

/// The operation checks that the engine is at work: it looks at the engine directly
/// after a first look that followed the submission and found a descriptor, or after the
/// engine was asked to resume.
pub open spec fn engine_checked(trace: Seq<(Op, Reply)>, i: int) -> bool {
    &&& i >= 2
    &&& trace[i].0 == Op::Read(Reg::IdSts)
    &&& {
        ||| {
            &&& trace[i - 1].0 == Op::Read(Reg::IdSts)
            &&& !IdSts(trace[i - 1].1.word()).du()
            &&& looks(trace[i - 2].0, Reg::Cmd)
        }
        ||| trace[i - 1].0 == Op::Fence && trace[i - 2].0 == Op::Write(Reg::PldMnd, 1)
    }
}

/// The operation is the last look at a transfer: the third in a row, or the second after
/// a sleep.
pub open spec fn last_look(trace: Seq<(Op, Reply)>, i: int) -> bool {
    &&& i >= 2
    &&& trace[i].0 is Observe
    &&& trace[i - 1].0 is Observe
    &&& trace[i - 2].0 is Observe || trace[i - 2].0 is Await
}

/// The reply at `i` shows what the error stands for.
pub open spec fn shows(trace: Seq<(Op, Reply)>, i: int, error: SdMmcError) -> bool {
    let op = trace[i].0;
    let reply = trace[i].1;
    let before = trace.take(i);
    &&& 0 <= i < trace.len()
    &&& match error {
        SdMmcError::CommandBusy => looks(op, Reg::Cmd) && Cmd(reply.word()).start_cmd(),
        SdMmcError::CommandStartTimeout => looks(op, Reg::Cmd) && Cmd(reply.word()).start_cmd(),
        SdMmcError::DataBusy => looks(op, Reg::Status) && !Status(reply.word()).can_send_data(),
        SdMmcError::DmaAllocation => op is AllocDescriptors && reply.address() is None,
        SdMmcError::DmaAddress => op matches Op::AllocDescriptors(count) && (
        reply.address() matches Some(address) && address + (count - 1) * 16 > u32::MAX),
        SdMmcError::DescriptorPublication => {
            ||| op == Op::Read(Reg::DbAddr) && last_written(before, Reg::DbAddr) != Some(
                reply.word(),
            )
            ||| op == Op::Read(Reg::BytCnt) && last_written(before, Reg::BytCnt) != Some(
                reply.word(),
            )
            ||| op is LoadDes0 && !in_service(before) && !IdmacDes0(reply.word()).own()
        },
        SdMmcError::CommandTimeout => {
            ||| op is Observe && !reply.status().idmac_command_done_or_error()
            ||| op matches Op::Await { until, .. } && until is CommandDone && reply.flag()
            ||| looks(op, Reg::RIntSts) && !RIntSts(reply.word()).command_finished()
        },
        SdMmcError::DataTimeout => {
            ||| op is Observe && !reply.status().idmac_terminal_events_or_error(submitted(before))
            ||| op matches Op::Await { until, .. } && until is Terminal && reply.flag()
            ||| judged(trace, i) && RIntSts(reply.word()).data_read_timeout()
        },
        SdMmcError::Hardware => {
            ||| engine_checked(trace, i) && IdSts(reply.word()).abnormal()
            ||| op is Observe && reply.status().idmac_status_has_error()
            ||| looks(op, Reg::RIntSts) && i >= 1 && looks(trace[i - 1].0, Reg::RIntSts) && RIntSts(
                reply.word(),
            ).error()
            ||| judged(trace, i) && RIntSts(reply.word()).error()
        },
        SdMmcError::TerminalValidation => {
            ||| op is Observe && reply.status().idmac_status_has_error()
            ||| last_look(trace, i) && !reply.status().terminal_events(submitted(before))
            ||| op is LoadDes0 && in_service(before) && (IdmacDes0(reply.word()).own()
                || IdmacDes0(reply.word()).ces())
        },
        SdMmcError::RecoveryFailed => {
            ||| looks(op, Reg::BMod) && BMod(reply.word()).swr()
            ||| looks(op, Reg::Ctrl) && Ctrl(reply.word()).dma_reset()
        },
        SdMmcError::CardBusyTimeout => looks(op, Reg::Status) && (!Status(
            reply.word(),
        ).can_send_data() || (i >= 2 && trace[i - 2].0 == Op::Response && !programmed(
            trace[i - 2].1.response()[0],
            Status(reply.word()),
        ))),
        SdMmcError::CardStatus(_) => op == Op::Response && r1_verdict(reply.response()[0], false)
            == Err::<(), SdMmcError>(error),
        _ => false,
    }
}

/// Some reply shows what the error stands for.
pub open spec fn shown(trace: Seq<(Op, Reply)>, error: SdMmcError) -> bool {
    exists|i: int| #[trigger] shows(trace, i, error)
}

/// What was shown stays shown.
proof fn lemma_shown_stays(trace: Seq<(Op, Reply)>, op: Op, reply: Reply)
    ensures
        forall|error: SdMmcError|
            shown(trace, error) ==> #[trigger] shown(trace.push((op, reply)), error),
{
    let after = trace.push((op, reply));
    assert forall|error: SdMmcError| shown(trace, error) implies #[trigger] shown(
        after,
        error,
    ) by {
        let i = choose|i: int| #[trigger] shows(trace, i, error);
        assert(after.take(i) =~= trace.take(i));
        assert(shows(after, i, error));
    }
}

/// The request or its buffer is the cause of the error, or a reply shows it.
pub open spec fn caused(
    trace: Seq<(Op, Reply)>,
    request: Request,
    buffer: u32,
    error: SdMmcError,
) -> bool {
    let len = request.data.len();
    ||| error is InvalidParameter && (len == 0 || len > DMA_BUFFER_SIZE
        || !request.kind.word().data_expected())
    ||| error is DmaAddress && buffer + len - 1 > u32::MAX
    ||| shown(trace, error)
}

/// How far the preparation of a transfer has come.
spec fn prepare_cause(trace: Seq<(Op, Reply)>, request: Request, buffer: u32, p: Prepare) -> bool {
    &&& p.request == request
    &&& p.buffer == buffer
    &&& p.len == request.data.len()
    &&& match p.phase {
        PreparePhase::IdleData { command_idle, .. } => !command_idle ==> shown(
            trace,
            SdMmcError::CommandBusy,
        ),
        PreparePhase::IdleDeadline { command_idle, .. } => shown(
            trace,
            if command_idle {
                SdMmcError::DataBusy
            } else {
                SdMmcError::CommandBusy
            },
        ),
        PreparePhase::Allocate => p.len > 0,
        PreparePhase::Release => shown(trace, SdMmcError::DmaAddress),
        PreparePhase::Store { .. } => p.len > 0 && !in_service(trace),
        PreparePhase::StoreFence { .. } => p.len > 0 && !in_service(trace),
        PreparePhase::ByteCount { .. } => p.len > 0 && !in_service(trace),
        PreparePhase::ChainAddress { .. } => p.len > 0 && !in_service(trace) && last_written(
            trace,
            Reg::BytCnt,
        ) == Some(p.len as u32),
        PreparePhase::PublishFence { descriptors } => p.len > 0 && !in_service(trace)
            && last_written(
            trace,
            Reg::BytCnt,
        ) == Some(p.len as u32) && last_written(trace, Reg::DbAddr) == Some(descriptors),
        PreparePhase::CheckAddress { descriptors } => p.len > 0 && !in_service(trace)
            && last_written(
            trace,
            Reg::BytCnt,
        ) == Some(p.len as u32) && last_written(trace, Reg::DbAddr) == Some(descriptors),
        PreparePhase::CheckByteCount { address_kept, .. } => {
            &&& p.len > 0
            &&& !in_service(trace)
            &&& last_written(trace, Reg::BytCnt) == Some(p.len as u32)
            &&& !address_kept ==> shown(trace, SdMmcError::DescriptorPublication)
        },
        PreparePhase::CountOwned { registers_kept, index, owned, .. } => {
            &&& !in_service(trace)
            &&& owned <= index
            &&& index < descriptor_count(p.len)
            &&& !registers_kept || owned < index ==> shown(
                trace,
                SdMmcError::DescriptorPublication,
            )
        },
        _ => true,
    }
}

/// How far the submission of a transfer has come.
spec fn start_cause(trace: Seq<(Op, Reply)>, request: Request, s: StartTransfer) -> bool {
    &&& s.context.cmd == request.kind.word()
    &&& s.context.expects_r1 == request.kind.has_r1_response()
    &&& match s.phase {
        StartPhase::Begin => true,
        StartPhase::WriteArg => true,
        StartPhase::ArgFence => true,
        StartPhase::WriteCmd => true,
        StartPhase::AcceptDeadline { .. } => in_service(trace) && submitted(trace) == s.context.cmd
            && shown(trace, SdMmcError::CommandStartTimeout),
        StartPhase::Engine => in_service(trace) && submitted(trace) == s.context.cmd && trace.len()
            >= 1 && looks(op_back(trace, 0), Reg::Cmd),
        StartPhase::ResumeFence => in_service(trace) && submitted(trace) == s.context.cmd
            && trace.len() >= 1 && op_back(trace, 0) == Op::Write(Reg::PldMnd, 1),
        StartPhase::EngineCheck => in_service(trace) && submitted(trace) == s.context.cmd
            && engine_checked(
            trace.push((Op::Read(Reg::IdSts), Reply::Done)),
            trace.len() as int,
        ),
        _ => in_service(trace) && submitted(trace) == s.context.cmd,
    }
}

/// How far the wait for a transfer has come.
spec fn wait_cause(trace: Seq<(Op, Reply)>, w: WaitTransfer) -> bool {
    &&& in_service(trace)
    &&& submitted(trace) == w.context.cmd
    &&& match w.phase {
        WaitPhase::CommandDeadline { .. } => shown(trace, SdMmcError::CommandTimeout),
        WaitPhase::DataDeadline { .. } => shown(trace, SdMmcError::DataTimeout),
        WaitPhase::DataStatus { timed_out } => {
            &&& timed_out ==> shown(trace, SdMmcError::DataTimeout)
            &&& trace.len() >= 1
            &&& op_back(trace, 0) is Observe || op_back(trace, 0) is Await
        },
        _ => true,
    }
}

/// How far the validation of a transfer has come.
spec fn validate_cause(trace: Seq<(Op, Reply)>, v: ValidateTransfer) -> bool {
    &&& in_service(trace)
    &&& submitted(trace) == v.context.cmd
    &&& match v.phase {
        ValidatePhase::Status => {
            &&& trace.len() >= 2
            &&& op_back(trace, 0) is Observe
            &&& op_back(trace, 1) is Observe || op_back(trace, 1) is Await
        },
        ValidatePhase::Fence { events } => events || shown(trace, SdMmcError::TerminalValidation),
        ValidatePhase::Owned { events, found, .. } => (events && !found) || shown(
            trace,
            SdMmcError::TerminalValidation,
        ),
        ValidatePhase::CardError { good, .. } => good || shown(
            trace,
            SdMmcError::TerminalValidation,
        ),
    }
}

/// How far the end of a transfer has come.
spec fn finish_cause(trace: Seq<(Op, Reply)>, f: FinishTransfer) -> bool {
    &&& f.stuck ==> shown(trace, SdMmcError::RecoveryFailed)
    &&& f.phase matches FinishPhase::Reset(reset) ==> match reset.phase {
        ResetPhase::InterfaceBit { engine_done, .. } => engine_done || shown(
            trace,
            SdMmcError::RecoveryFailed,
        ),
        ResetPhase::Deadline { .. } => shown(trace, SdMmcError::RecoveryFailed),
        _ => true,
    }
}

/// Every error that a transfer is on its way to has a cause.
pub closed spec fn transfer_cause(
    trace: Seq<(Op, Reply)>,
    request: Request,
    buffer: u32,
    at: Step<IdmacTransfer, TransferEnd>,
) -> bool {
    match at {
        Step::Done(end) => end.result matches Err(error) ==> caused(trace, request, buffer, error),
        Step::Next(m) => match m.phase {
            TransferPhase::Prepare(p) => prepare_cause(trace, request, buffer, p),
            TransferPhase::Start(s) => start_cause(trace, request, s),
            TransferPhase::Wait(w) => wait_cause(trace, w) && w.context.expects_r1
                == request.kind.has_r1_response(),
            TransferPhase::Validate(v) => validate_cause(trace, v),
            TransferPhase::Response(_) => true,
            TransferPhase::Finish { finish, result } => {
                &&& finish_cause(trace, finish)
                &&& result matches Err(error) ==> caused(trace, request, buffer, error)
            },
        },
    }
}

proof fn lemma_prepare_cause(
    trace: Seq<(Op, Reply)>,
    request: Request,
    buffer: u32,
    mode: WaitMode,
    p: Prepare,
    reply: Reply,
)
    requires
        prepare_cause(trace, request, buffer, p),
    ensures
        transfer_cause(
            trace.push((p.op(), reply)),
            request,
            buffer,
            IdmacTransfer::after_prepare(mode, false, p.next(reply)),
        ),
{
    let after = trace.push((p.op(), reply));
    let now = trace.len() as int;
    lemma_shown_stays(trace, p.op(), reply);
    assert(after.drop_last() =~= trace);
    assert(after.take(now) =~= trace);
    match p.phase {
        PreparePhase::IdleCommand { .. } => {
            if Cmd(reply.word()).start_cmd() {
                assert(shows(after, now, SdMmcError::CommandBusy));
            }
        },
        PreparePhase::IdleData { command_idle, .. } => {
            if !Status(reply.word()).can_send_data() {
                assert(shows(after, now, SdMmcError::DataBusy));
            }
        },
        PreparePhase::Allocate => {
            match reply.address() {
                None => {
                    assert(shows(after, now, SdMmcError::DmaAllocation));
                },
                Some(address) => {
                    if !p.usable(address) {
                        assert((descriptor_count(p.len) - 1) * 16 == p.last_descriptor_offset());
                        assert(shows(after, now, SdMmcError::DmaAddress));
                    }
                },
            }
        },
        PreparePhase::CheckAddress { descriptors } => {
            if reply.word() != descriptors {
                assert(shows(after, now, SdMmcError::DescriptorPublication));
            }
        },
        PreparePhase::CheckByteCount { .. } => {
            if reply.word() != p.len as u32 {
                assert(shows(after, now, SdMmcError::DescriptorPublication));
            }
        },
        PreparePhase::CountOwned { .. } => {
            if !IdmacDes0(reply.word()).own() {
                assert(shows(after, now, SdMmcError::DescriptorPublication));
            }
        },
        _ => {},
    }
}

proof fn lemma_start_cause(
    trace: Seq<(Op, Reply)>,
    request: Request,
    buffer: u32,
    m: IdmacTransfer,
    s: StartTransfer,
    reply: Reply,
)
    requires
        m.phase == TransferPhase::Start(s),
        start_cause(trace, request, s),
    ensures
        transfer_cause(trace.push((m.op(), reply)), request, buffer, m.next(reply)),
{
    let after = trace.push((m.op(), reply));
    let now = trace.len() as int;
    lemma_shown_stays(trace, m.op(), reply);
    assert(after.drop_last() =~= trace);
    match s.phase {
        StartPhase::Accept { .. } => {
            if Cmd(reply.word()).start_cmd() {
                assert(shows(after, now, SdMmcError::CommandStartTimeout));
            }
        },
        StartPhase::EngineCheck => {
            if IdSts(reply.word()).abnormal() {
                assert(shows(after, now, SdMmcError::Hardware));
            }
        },
        _ => {},
    }
}

proof fn lemma_wait_cause(
    trace: Seq<(Op, Reply)>,
    request: Request,
    buffer: u32,
    m: IdmacTransfer,
    w: WaitTransfer,
    reply: Reply,
)
    requires
        m.phase == TransferPhase::Wait(w),
        transfer_cause(trace, request, buffer, Step::Next(m)),
    ensures
        transfer_cause(trace.push((m.op(), reply)), request, buffer, m.next(reply)),
{
    let after = trace.push((m.op(), reply));
    let now = trace.len() as int;
    lemma_shown_stays(trace, m.op(), reply);
    assert(after.drop_last() =~= trace);
    assert(after.take(now) =~= trace);
    match w.phase {
        WaitPhase::Command { .. } => {
            if !Until::CommandDone.reached(reply.status()) {
                assert(shows(after, now, SdMmcError::CommandTimeout));
            }
        },
        WaitPhase::CommandAwait => {
            if reply.flag() {
                assert(shows(after, now, SdMmcError::CommandTimeout));
            }
        },
        WaitPhase::CommandStatus => {
            if reply.status().idmac_status_has_error() {
                assert(shows(after, now, SdMmcError::Hardware));
            }
        },
        WaitPhase::Data { .. } => {
            if !Until::Terminal(w.context.cmd).reached(reply.status()) {
                assert(shows(after, now, SdMmcError::DataTimeout));
            }
        },
        WaitPhase::DataAwait => {
            if reply.flag() {
                assert(shows(after, now, SdMmcError::DataTimeout));
            }
        },
        WaitPhase::DataStatus { .. } => {
            if reply.status().idmac_status_has_error() {
                assert(shows(after, now, SdMmcError::Hardware));
            }
        },
        _ => {},
    }
}

proof fn lemma_validate_cause(
    trace: Seq<(Op, Reply)>,
    request: Request,
    buffer: u32,
    m: IdmacTransfer,
    v: ValidateTransfer,
    reply: Reply,
)
    requires
        m.phase == TransferPhase::Validate(v),
        validate_cause(trace, v),
    ensures
        transfer_cause(trace.push((m.op(), reply)), request, buffer, m.next(reply)),
{
    let after = trace.push((m.op(), reply));
    let now = trace.len() as int;
    lemma_shown_stays(trace, m.op(), reply);
    assert(after.drop_last() =~= trace);
    assert(after.take(now) =~= trace);
    match v.phase {
        ValidatePhase::Status => {
            if !v.complete(reply.status()) {
                assert(shows(after, now, SdMmcError::TerminalValidation));
            }
        },
        ValidatePhase::Owned { .. } => {
            if IdmacDes0(reply.word()).own() {
                assert(shows(after, now, SdMmcError::TerminalValidation));
            }
        },
        ValidatePhase::CardError { .. } => {
            if IdmacDes0(reply.word()).ces() {
                assert(shows(after, now, SdMmcError::TerminalValidation));
            }
        },
        _ => {},
    }
}

proof fn lemma_finish_cause(
    trace: Seq<(Op, Reply)>,
    request: Request,
    buffer: u32,
    m: IdmacTransfer,
    finish: FinishTransfer,
    reply: Reply,
)
    requires
        m.phase matches TransferPhase::Finish { finish: f, .. } && f == finish,
        transfer_cause(trace, request, buffer, Step::Next(m)),
    ensures
        transfer_cause(trace.push((m.op(), reply)), request, buffer, m.next(reply)),
{
    let after = trace.push((m.op(), reply));
    let now = trace.len() as int;
    lemma_shown_stays(trace, m.op(), reply);
    if let FinishPhase::Reset(reset) = finish.phase {
        match reset.phase {
            ResetPhase::EngineBit { .. } => {
                if BMod(reply.word()).swr() {
                    assert(shows(after, now, SdMmcError::RecoveryFailed));
                }
            },
            ResetPhase::InterfaceBit { .. } => {
                if Ctrl(reply.word()).dma_reset() {
                    assert(shows(after, now, SdMmcError::RecoveryFailed));
                }
            },
            _ => {},
        }
    }
}

/// Each step of a transfer keeps that its errors have causes.
pub proof fn lemma_transfer_cause(
    trace: Seq<(Op, Reply)>,
    request: Request,
    buffer: u32,
    m: IdmacTransfer,
    reply: Reply,
)
    requires
        transfer_cause(trace, request, buffer, Step::Next(m)),
    ensures
        transfer_cause(trace.push((m.op(), reply)), request, buffer, m.next(reply)),
{
    match m.phase {
        TransferPhase::Prepare(p) => {
            lemma_prepare_cause(trace, request, buffer, m.mode, p, reply);
        },
        TransferPhase::Start(s) => {
            lemma_start_cause(trace, request, buffer, m, s, reply);
        },
        TransferPhase::Wait(w) => {
            lemma_wait_cause(trace, request, buffer, m, w, reply);
        },
        TransferPhase::Validate(v) => {
            lemma_validate_cause(trace, request, buffer, m, v, reply);
        },
        TransferPhase::Response(context) => {
            let after = trace.push((m.op(), reply));
            let response = reply.response();
            if r1_verdict(response[0], false) is Err {
                assert(shows(
                    after,
                    trace.len() as int,
                    r1_verdict(response[0], false)->Err_0,
                ));
            }
        },
        TransferPhase::Finish { finish, .. } => {
            lemma_finish_cause(trace, request, buffer, m, finish, reply);
        },
    }
}

/// A transfer fails only for a cause: the request or its buffer is out of bounds,
/// or some reply shows what the error stands for.
pub proof fn law_transfer_errors_have_causes(
    mode: WaitMode,
    request: Request,
    buffer: u32,
    replies: Seq<Reply>,
)
    ensures
        ({
            let done = run(IdmacTransfer::start(mode, false, request, buffer), replies);
            done.at matches Step::Done(end) ==> (end.result matches Err(error) ==> caused(
                done.trace,
                request,
                buffer,
                error,
            ))
        }),
{
    let start = IdmacTransfer::start(mode, false, request, buffer);
    let inv = |trace: Seq<(Op, Reply)>, at: Step<IdmacTransfer, TransferEnd>|
        transfer_cause(trace, request, buffer, at);
    assert forall|trace: Seq<(Op, Reply)>, m: IdmacTransfer, reply: Reply|
        inv(trace, Step::Next(m)) implies #[trigger] inv(
        trace.push((m.op(), reply)),
        m.next(reply),
    ) by {
        lemma_transfer_cause(trace, request, buffer, m, reply);
    }
    crate::io::lemma_run_invariant(start, replies, inv);
}

/// The request as such is the cause of the error, or what the driver knows of the
/// engine, or a reply shows it.
pub open spec fn request_caused(
    trace: Seq<(Op, Reply)>,
    num_blocks: u64,
    state: IdmacState,
    block: u32,
    len: usize,
    error: SdMmcError,
) -> bool {
    ||| range_verdict(block, len, num_blocks) == Err::<usize, SdMmcError>(error)
    ||| error is DriverFaulted && state.faulted
    ||| error is DmaUnavailable && state.buffer is None
    ||| error is DmaAddress && (state.buffer matches Some(buffer) && buffer.bus_addr
        + DMA_BUFFER_SIZE - 1 > u32::MAX)
    ||| shown(trace, error)
}

/// The chunk that a request works on lies within it.
spec fn within(m: BlockRequest, block: u32, len: usize) -> bool {
    &&& m.len == len
    &&& len % 512 == 0
    &&& m.offset % 512 == 0
    &&& m.offset < len
    &&& m.block == block + m.offset / 512
    &&& block + len / 512 <= 0x1_0000_0000
}

/// Every error that a request is on its way to has a cause.
spec fn request_cause(
    trace: Seq<(Op, Reply)>,
    num_blocks: u64,
    state: IdmacState,
    block: u32,
    len: usize,
    at: Step<BlockRequest, BlockEnd>,
) -> bool {
    match at {
        Step::Done(end) => end.result matches Err(error) ==> request_caused(
            trace,
            num_blocks,
            state,
            block,
            len,
            error,
        ),
        Step::Next(m) => {
            &&& within(m, block, len)
            &&& m.state.buffer == state.buffer
            &&& m.state.faulted ==> state.faulted
            &&& match m.phase {
                BlockPhase::Transfer(t) => {
                    &&& state.buffer matches Some(buffer) && buffer.bus_addr <= u32::MAX
                    &&& transfer_cause(
                        trace,
                        chunk_request(m.direction, m.block, m.chunk_len()),
                        state.buffer->0.bus_addr as u32,
                        Step::Next(t),
                    )
                    &&& t.phase matches TransferPhase::Finish { finish, result } ==> (finish.abort
                        <==> result is Err)
                },
                BlockPhase::PollReady(poll) => poll.phase is Deadline ==> shown(
                    trace,
                    SdMmcError::CardBusyTimeout,
                ),
                BlockPhase::AskReady(ask) => {
                    &&& ask_invariant(m.rca, trace, Step::Next(ask))
                    &&& match ask.phase {
                        AskReadyPhase::Clock => true,
                        AskReadyPhase::Ask { send, .. } => outcome_shown(
                            send.request,
                            trace,
                            Step::Next(send),
                        ),
                        AskReadyPhase::Busy { .. } => true,
                        _ => shown(trace, SdMmcError::CardBusyTimeout),
                    }
                },
                _ => true,
            }
        },
    }
}

proof fn lemma_chunk_bounds(m: BlockRequest, block: u32, len: usize)
    requires
        within(m, block, len),
    ensures
        512 <= m.chunk_len() <= DMA_BUFFER_SIZE,
        m.chunk_len() % 512 == 0,
        m.chunk_len() <= len - m.offset,
        m.block + m.chunk_len() / 512 <= 0x1_0000_0000,
        m.chunk_len() < len - m.offset ==> m.block + m.chunk_len() / 512 <= u32::MAX,
        chunk_request(m.direction, m.block, m.chunk_len()).kind.word().data_expected(),
{
    law_word_describes_command(chunk_request(m.direction, m.block, m.chunk_len()).kind);
}

/// A transfer begins, or the request ends for a cause.
proof fn lemma_begin_transfer_cause(
    trace: Seq<(Op, Reply)>,
    num_blocks: u64,
    state: IdmacState,
    block: u32,
    len: usize,
    m: BlockRequest,
)
    requires
        within(m, block, len),
        m.state.buffer == state.buffer,
        m.state.faulted ==> state.faulted,
    ensures
        request_cause(trace, num_blocks, state, block, len, m.begin_transfer()),
{
    lemma_chunk_bounds(m, block, len);
}

/// The next chunk begins, or the request succeeds.
proof fn lemma_next_chunk_cause(
    trace: Seq<(Op, Reply)>,
    num_blocks: u64,
    state: IdmacState,
    block: u32,
    len: usize,
    m: BlockRequest,
)
    requires
        within(m, block, len),
        m.state.buffer == state.buffer,
        m.state.faulted ==> state.faulted,
    ensures
        request_cause(trace, num_blocks, state, block, len, m.next_chunk()),
{
    lemma_chunk_bounds(m, block, len);
}

proof fn lemma_transfer_step_cause(
    trace: Seq<(Op, Reply)>,
    num_blocks: u64,
    state: IdmacState,
    block: u32,
    len: usize,
    m: BlockRequest,
    t: IdmacTransfer,
    reply: Reply,
)
    requires
        m.phase == BlockPhase::Transfer(t),
        request_cause(trace, num_blocks, state, block, len, Step::Next(m)),
    ensures
        request_cause(
            trace.push((m.op(), reply)),
            num_blocks,
            state,
            block,
            len,
            m.next(reply),
        ),
{
    let after = trace.push((m.op(), reply));
    lemma_chunk_bounds(m, block, len);
    lemma_transfer_cause(
        trace,
        chunk_request(m.direction, m.block, m.chunk_len()),
        state.buffer->0.bus_addr as u32,
        t,
        reply,
    );
    if let Step::Done(end) = t.next(reply) {
        if end.result is Ok && m.direction is Write && m.mode is Async {
            assert(ask_invariant(m.rca, after, Step::Next(AskReady::new(m.rca))));
        }
    }
}

/// An inquiry that fails shows why.
proof fn lemma_inquiry_shown(trace: Seq<(Op, Reply)>, request: Request, error: SdMmcError)
    requires
        request.kind == CommandKind::SendStatus,
        justified(trace, request, Err(error)),
    ensures
        shown(trace, error),
{
    let n = trace.len() as int;
    if n >= 1 && shows(trace, n - 1, error) {
    } else if n >= 2 && shows(trace, n - 2, error) {
    } else {
        assert(n >= 3 && shows(trace, n - 3, error));
    }
}

proof fn lemma_ask_step_cause(
    trace: Seq<(Op, Reply)>,
    num_blocks: u64,
    state: IdmacState,
    block: u32,
    len: usize,
    m: BlockRequest,
    ask: AskReady,
    reply: Reply,
)
    requires
        m.phase == BlockPhase::AskReady(ask),
        request_cause(trace, num_blocks, state, block, len, Step::Next(m)),
    ensures
        request_cause(
            trace.push((m.op(), reply)),
            num_blocks,
            state,
            block,
            len,
            m.next(reply),
        ),
{
    let after = trace.push((m.op(), reply));
    let now = trace.len() as int;
    lemma_shown_stays(trace, m.op(), reply);
    lemma_ask_step(m.rca, trace, ask, reply);
    lemma_next_chunk_cause(after, num_blocks, state, block, len, m);
    match ask.phase {
        AskReadyPhase::Ask { send, .. } => {
            lemma_outcome_shown(send.request, trace, send, reply);
            if let Step::Done(Err(error)) = send.next(reply) {
                lemma_inquiry_shown(after, send.request, error);
            }
        },
        AskReadyPhase::Busy { card_status, .. } => {
            if !programmed(card_status, Status(reply.word())) {
                assert(after[now - 2] == trace[now - 2]);
                assert(shows(after, now, SdMmcError::CardBusyTimeout));
            }
        },
        _ => {},
    }
}

proof fn lemma_request_cause(
    trace: Seq<(Op, Reply)>,
    num_blocks: u64,
    state: IdmacState,
    block: u32,
    len: usize,
    m: BlockRequest,
    reply: Reply,
)
    requires
        request_cause(trace, num_blocks, state, block, len, Step::Next(m)),
    ensures
        request_cause(
            trace.push((m.op(), reply)),
            num_blocks,
            state,
            block,
            len,
            m.next(reply),
        ),
{
    let after = trace.push((m.op(), reply));
    let now = trace.len() as int;
    lemma_shown_stays(trace, m.op(), reply);
    match m.phase {
        BlockPhase::Transfer(t) => {
            lemma_transfer_step_cause(trace, num_blocks, state, block, len, m, t, reply);
        },
        BlockPhase::AskReady(ask) => {
            lemma_ask_step_cause(trace, num_blocks, state, block, len, m, ask, reply);
        },
        BlockPhase::PollReady(poll) => {
            lemma_next_chunk_cause(after, num_blocks, state, block, len, m);
            if poll.phase is Busy && !Status(reply.word()).can_send_data() {
                assert(shows(after, now, SdMmcError::CardBusyTimeout));
            }
        },
        BlockPhase::CopyOut => {
            lemma_next_chunk_cause(after, num_blocks, state, block, len, m);
        },
        _ => {
            lemma_begin_transfer_cause(after, num_blocks, state, block, len, m);
        },
    }
}

/// A request fails only for a cause: its range is wrong, the driver is faulted or
/// has no transfer buffer that the engine can reach, or some reply shows what the
/// error stands for.
pub proof fn law_request_errors_have_causes(
    direction: Direction,
    mode: WaitMode,
    rca: u16,
    num_blocks: u64,
    state: IdmacState,
    block: u32,
    len: usize,
    replies: Seq<Reply>,
)
    ensures
        ({
            let done = run(
                BlockRequest::start(direction, mode, rca, num_blocks, state, block, len),
                replies,
            );
            done.at matches Step::Done(end) ==> (end.result matches Err(error) ==> request_caused(
                done.trace,
                num_blocks,
                state,
                block,
                len,
                error,
            ))
        }),
{
    let start = BlockRequest::start(direction, mode, rca, num_blocks, state, block, len);
    let inv = |trace: Seq<(Op, Reply)>, at: Step<BlockRequest, BlockEnd>|
        request_cause(trace, num_blocks, state, block, len, at);
    assert forall|trace: Seq<(Op, Reply)>, m: BlockRequest, reply: Reply|
        inv(trace, Step::Next(m)) implies #[trigger] inv(
        trace.push((m.op(), reply)),
        m.next(reply),
    ) by {
        lemma_request_cause(trace, num_blocks, state, block, len, m, reply);
    }
    crate::io::lemma_run_invariant(start, replies, inv);
}

/// The error is none that a wait may still mend: whatever shows it decides the request.
pub open spec fn lasting(error: SdMmcError) -> bool {
    match error {
        SdMmcError::DmaAllocation => true,
        SdMmcError::DmaAddress => true,
        SdMmcError::DescriptorPublication => true,
        SdMmcError::Hardware => true,
        SdMmcError::TerminalValidation => true,
        SdMmcError::CardStatus(_) => true,
        _ => false,
    }
}

/// No reply shows a lasting error.
pub open spec fn calm(trace: Seq<(Op, Reply)>) -> bool {
    forall|error: SdMmcError| lasting(error) ==> !(#[trigger] shown(trace, error))
}

impl IdmacTransfer {
    /// The reply ends a wait without success: the time is over.
    pub open spec fn gives_up(self, reply: Reply) -> bool {
        match self.phase {
            TransferPhase::Prepare(p) => p.phase matches PreparePhase::IdleDeadline {
                deadline,
                ..
            } && reply.time() >= deadline,
            TransferPhase::Start(s) => s.phase matches StartPhase::AcceptDeadline { deadline }
                && reply.time() >= deadline,
            TransferPhase::Wait(w) => match w.phase {
                WaitPhase::CommandDeadline { deadline } => reply.time() >= deadline,
                WaitPhase::CommandAwait => reply.flag(),
                WaitPhase::DataDeadline { deadline } => reply.time() >= deadline,
                WaitPhase::DataAwait => reply.flag(),
                _ => false,
            },
            _ => false,
        }
    }
}

impl BlockRequest {
    /// The reply ends a wait without success: the time is over, or the controller is
    /// still busy at the last look.
    pub open spec fn gives_up(self, reply: Reply) -> bool {
        match self.phase {
            BlockPhase::Transfer(t) => t.gives_up(reply),
            BlockPhase::PollReady(poll) => poll.phase matches PollReadyPhase::Deadline { deadline }
                && reply.time() >= deadline,
            BlockPhase::AskReady(ask) => match ask.phase {
                AskReadyPhase::Deadline { deadline } => reply.time() >= deadline,
                AskReadyPhase::YieldClock { deadline } => reply.time() >= deadline,
                AskReadyPhase::Ask { send, .. } => send.gives_up(reply),
                _ => false,
            },
            _ => false,
        }
    }
}

/// Descriptors that are left from a position on.
spec fn left(count: usize, index: usize) -> int {
    if index < count {
        count - index
    } else {
        0
    }
}

/// Replies that a preparation takes at most until the end of its transfer, if nothing
/// has to be waited for.
spec fn prepare_rank(p: Prepare) -> int {
    match p.phase {
        PreparePhase::IdleClock => 76,
        PreparePhase::IdleCommand { again, .. } => if again {
            72
        } else {
            75
        },
        PreparePhase::IdleData { .. } => 74,
        PreparePhase::IdleDeadline { .. } => 73,
        PreparePhase::ClearRaw => 71,
        PreparePhase::StaleId => 70,
        PreparePhase::RereadId => 69,
        PreparePhase::ClearId { .. } => 68,
        PreparePhase::ClearFlags => 67,
        PreparePhase::Allocate => 66,
        PreparePhase::Store { index, .. } => 60 + left(descriptor_count(p.len), index),
        PreparePhase::StoreFence { .. } => 59,
        PreparePhase::ByteCount { .. } => 58,
        PreparePhase::ChainAddress { .. } => 57,
        PreparePhase::PublishFence { .. } => 56,
        PreparePhase::CheckAddress { .. } => 55,
        PreparePhase::CheckByteCount { .. } => 54,
        PreparePhase::CountOwned { index, .. } => 49 + left(descriptor_count(p.len), index),
        PreparePhase::Release => 0,
    }
}

/// Replies that a submission takes at most until the end of its transfer, if nothing has
/// to be waited for.
spec fn start_rank(s: StartTransfer) -> int {
    match s.phase {
        StartPhase::Begin => 48,
        StartPhase::WriteArg => 47,
        StartPhase::ArgFence => 46,
        StartPhase::WriteCmd => 45,
        StartPhase::CmdFence => 44,
        StartPhase::AcceptClock => 43,
        StartPhase::Accept { again, .. } => if again {
            40
        } else {
            42
        },
        StartPhase::AcceptDeadline { .. } => 41,
        StartPhase::Engine => 39,
        StartPhase::RereadId => 38,
        StartPhase::ClearId { .. } => 37,
        StartPhase::Resume => 36,
        StartPhase::ResumeFence => 35,
        StartPhase::EngineCheck => 34,
        StartPhase::State => 33,
        StartPhase::Owned { index, .. } => 28 + left(s.context.descriptor_count, index),
        StartPhase::Address { .. } => 27,
        StartPhase::Announce { .. } => 26,
    }
}

/// Replies that a wait takes at most until the end of its transfer, if the transfer is
/// over.
spec fn wait_rank(w: WaitTransfer) -> int {
    match w.phase {
        WaitPhase::CommandClock => 25,
        WaitPhase::CommandAwait => 25,
        WaitPhase::CommandDeadline { .. } => 25,
        WaitPhase::Command { .. } => 24,
        WaitPhase::CommandStatus => 23,
        WaitPhase::DataClock => 22,
        WaitPhase::DataAwait => 22,
        WaitPhase::DataDeadline { .. } => 22,
        WaitPhase::Data { .. } => 21,
        WaitPhase::DataStatus { .. } => 20,
    }
}

/// Replies that a validation takes at most until the end of its transfer.
spec fn validate_rank(v: ValidateTransfer) -> int {
    match v.phase {
        ValidatePhase::Status => 19,
        ValidatePhase::Fence { .. } => 18,
        ValidatePhase::Owned { index, .. } => 13 + left(v.context.descriptor_count, index),
        ValidatePhase::CardError { index, .. } => 8 + left(v.context.descriptor_count, index),
    }
}

/// Replies that the end of a transfer takes at most, if the engine need not be stopped.
spec fn finish_rank(f: FinishTransfer) -> int {
    match f.phase {
        FinishPhase::ReadRaw => 6,
        FinishPhase::ReadId { .. } => 5,
        FinishPhase::ClearRaw { .. } => 4,
        FinishPhase::ClearId { .. } => 3,
        FinishPhase::Fence => 2,
        FinishPhase::Free => 1,
        _ => 0,
    }
}

/// Replies that a transfer takes at most until its end, if nothing has to be waited for.
spec fn transfer_rank(t: IdmacTransfer) -> int {
    match t.phase {
        TransferPhase::Prepare(p) => prepare_rank(p),
        TransferPhase::Start(s) => start_rank(s),
        TransferPhase::Wait(w) => wait_rank(w),
        TransferPhase::Validate(v) => validate_rank(v),
        TransferPhase::Response(_) => 7,
        TransferPhase::Finish { finish, .. } => finish_rank(finish),
    }
}

/// A transfer that is going well has a short chain, was not given up and ends without an
/// abort.
spec fn going_well(t: IdmacTransfer) -> bool {
    &&& transfer_rank(t) > 0
    &&& match t.phase {
        TransferPhase::Prepare(p) => p.len <= DMA_BUFFER_SIZE,
        TransferPhase::Start(s) => s.context.descriptor_count <= 4,
        TransferPhase::Wait(w) => w.context.descriptor_count <= 4 && (
        w.phase matches WaitPhase::DataStatus { timed_out } ==> !timed_out),
        TransferPhase::Validate(v) => v.context.descriptor_count <= 4,
        TransferPhase::Response(_) => true,
        TransferPhase::Finish { finish, result } => !finish.abort && !finish.stuck && result is Ok,
    }
}

proof fn lemma_transfer_progress(
    trace: Seq<(Op, Reply)>,
    request: Request,
    buffer: u32,
    t: IdmacTransfer,
    reply: Reply,
)
    requires
        transfer_cause(trace, request, buffer, Step::Next(t)),
        going_well(t),
        !t.gives_up(reply),
        calm(trace.push((t.op(), reply))),
        !caused(trace.push((t.op(), reply)), request, buffer, SdMmcError::InvalidParameter),
        !caused(trace.push((t.op(), reply)), request, buffer, SdMmcError::DmaAddress),
    ensures
        match t.next(reply) {
            Step::Next(u) => going_well(u) && transfer_rank(u) < transfer_rank(t) + (if delays(
                trace,
                t.op(),
                reply,
            ) {
                4int
            } else {
                0
            }),
            Step::Done(end) => end.result is Ok && !end.faulted,
        },
{
    let after = trace.push((t.op(), reply));
    lemma_shown_stays(trace, t.op(), reply);
    lemma_transfer_cause(trace, request, buffer, t, reply);
    assert(forall|error: SdMmcError| #[trigger]
        caused(after, request, buffer, error) ==> error == SdMmcError::InvalidParameter || error
            == SdMmcError::DmaAddress || shown(after, error));
    assert(!shown(after, SdMmcError::DmaAllocation) && !shown(
        after,
        SdMmcError::DescriptorPublication,
    ) && !shown(after, SdMmcError::Hardware) && !shown(after, SdMmcError::TerminalValidation)
        && !shown(after, SdMmcError::DmaAddress));
    match t.phase {
        TransferPhase::Prepare(p) => {
            assert(descriptor_count(p.len) <= 4);
        },
        TransferPhase::Response(_) => {
            let response = reply.response();
            if let Err(error) = r1_verdict(response[0], false) {
                assert(lasting(error));
                assert(shows(after, trace.len() as int, error));
            }
        },
        _ => {},
    }
}

/// Replies that a request takes at most until its end, if nothing has to be waited for:
/// so many for each block that is left, and some for the current chunk.
spec fn request_rank(m: BlockRequest) -> int {
    (m.len - m.offset) / 512 * 160 + match m.phase {
        BlockPhase::BlockSize => 130,
        BlockPhase::ByteCount => 129,
        BlockPhase::CopyIn => 128,
        BlockPhase::Transfer(t) => 50 + transfer_rank(t),
        BlockPhase::CopyOut => 1,
        BlockPhase::PollReady(poll) => match poll.phase {
            PollReadyPhase::Clock => 5,
            PollReadyPhase::Busy { again, .. } => if again {
                2int
            } else {
                4
            },
            PollReadyPhase::Deadline { .. } => 3,
        },
        BlockPhase::AskReady(ask) => match ask.phase {
            AskReadyPhase::Clock => 46,
            AskReadyPhase::Deadline { .. } => 46,
            AskReadyPhase::Ask { send, .. } => 4 + send.rank(),
            AskReadyPhase::Busy { .. } => 4,
            AskReadyPhase::YieldClock { .. } => 3,
            AskReadyPhase::Yield { .. } => 2,
        },
    }
}

/// The transfer or the inquiry under way is going well.
spec fn brisk(m: BlockRequest) -> bool {
    match m.phase {
        BlockPhase::Transfer(t) => going_well(t),
        BlockPhase::AskReady(ask) => ask.phase matches AskReadyPhase::Ask { send, .. }
            ==> send.hopeful(),
        _ => true,
    }
}

/// A request of a valid range on a driver that can serve it.
pub open spec fn servable(num_blocks: u64, state: IdmacState, block: u32, len: usize) -> bool {
    &&& range_verdict(block, len, num_blocks) is Ok
    &&& !state.faulted
    &&& state.buffer matches Some(buffer) && buffer.bus_addr + DMA_BUFFER_SIZE - 1 <= u32::MAX
}

/// If no reply shows a lasting error, the request comes closer to its end with each reply
/// that does not delay it, and its end is a success.
spec fn advances(
    trace: Seq<(Op, Reply)>,
    limit: int,
    at: Step<BlockRequest, BlockEnd>,
) -> bool {
    let allowed = limit + DELAY_COST * delay(trace);
    calm(trace) ==> match at {
        Step::Next(m) => brisk(m) && trace.len() + request_rank(m) <= allowed,
        Step::Done(end) => end.result is Ok && trace.len() <= allowed,
    }
}

proof fn lemma_next_chunk_advances(
    trace: Seq<(Op, Reply)>,
    limit: int,
    block: u32,
    len: usize,
    m: BlockRequest,
)
    requires
        within(m, block, len),
        trace.len() + (m.len - m.offset) / 512 * 160 <= limit + DELAY_COST * delay(trace),
    ensures
        advances(trace, limit, m.next_chunk()),
{
    lemma_chunk_bounds(m, block, len);
    let chunk = m.chunk_len() as int;
    let rest = m.len - m.offset;
    assert((rest - chunk) / 512 == rest / 512 - chunk / 512);
}

proof fn lemma_begin_transfer_advances(
    trace: Seq<(Op, Reply)>,
    num_blocks: u64,
    state: IdmacState,
    block: u32,
    len: usize,
    limit: int,
    m: BlockRequest,
)
    requires
        servable(num_blocks, state, block, len),
        within(m, block, len),
        m.state.buffer == state.buffer,
        m.state.faulted ==> state.faulted,
        trace.len() + (m.len - m.offset) / 512 * 160 + 126 <= limit + DELAY_COST * delay(trace),
    ensures
        advances(trace, limit, m.begin_transfer()),
{
    lemma_chunk_bounds(m, block, len);
}

proof fn lemma_transfer_advances(
    trace: Seq<(Op, Reply)>,
    num_blocks: u64,
    state: IdmacState,
    block: u32,
    len: usize,
    limit: int,
    m: BlockRequest,
    t: IdmacTransfer,
    reply: Reply,
)
    requires
        m.phase == BlockPhase::Transfer(t),
        servable(num_blocks, state, block, len),
        request_cause(trace, num_blocks, state, block, len, Step::Next(m)),
        advances(trace, limit, Step::Next(m)),
        !m.gives_up(reply),
        calm(trace),
        calm(trace.push((m.op(), reply))),
    ensures
        advances(trace.push((m.op(), reply)), limit, m.next(reply)),
{
    let after = trace.push((m.op(), reply));
    let request = chunk_request(m.direction, m.block, m.chunk_len());
    let buffer = state.buffer->0.bus_addr as u32;
    lemma_chunk_bounds(m, block, len);
    assert(!shown(after, SdMmcError::DmaAddress));
    assert(!shown(after, SdMmcError::InvalidParameter));
    assert(after.drop_last() =~= trace);
    lemma_transfer_progress(trace, request, buffer, t, reply);
}

proof fn lemma_ask_advances(
    trace: Seq<(Op, Reply)>,
    num_blocks: u64,
    state: IdmacState,
    block: u32,
    len: usize,
    limit: int,
    m: BlockRequest,
    ask: AskReady,
    reply: Reply,
)
    requires
        m.phase == BlockPhase::AskReady(ask),
        request_cause(trace, num_blocks, state, block, len, Step::Next(m)),
        advances(trace, limit, Step::Next(m)),
        !m.gives_up(reply),
        calm(trace),
        calm(trace.push((m.op(), reply))),
    ensures
        advances(trace.push((m.op(), reply)), limit, m.next(reply)),
{
    let after = trace.push((m.op(), reply));
    let now = trace.len() as int;
    assert(after.drop_last() =~= trace);
    lemma_chunk_bounds(m, block, len);
    match ask.phase {
        AskReadyPhase::Ask { send, .. } => {
            lemma_send_progress(send, reply);
            assert(!shown(after, SdMmcError::Hardware));
            assert(!shows(after, now, SdMmcError::Hardware));
            lemma_send_hopeful(send, reply);
            lemma_outcome_shown(send.request, trace, send, reply);
            if let Step::Done(Err(error)) = send.next(reply) {
                lemma_inquiry_shown(after, send.request, error);
            }
        },
        AskReadyPhase::Busy { .. } => {
            if m.next(reply) == m.next_chunk() {
                lemma_next_chunk_advances(after, limit, block, len, m);
            }
        },
        _ => {
            reveal(crate::progress::moves_left);
        },
    }
}

proof fn lemma_advances(
    trace: Seq<(Op, Reply)>,
    num_blocks: u64,
    state: IdmacState,
    block: u32,
    len: usize,
    limit: int,
    m: BlockRequest,
    reply: Reply,
)
    requires
        servable(num_blocks, state, block, len),
        request_cause(trace, num_blocks, state, block, len, Step::Next(m)),
        advances(trace, limit, Step::Next(m)),
        !m.gives_up(reply),
    ensures
        advances(trace.push((m.op(), reply)), limit, m.next(reply)),
{
    let after = trace.push((m.op(), reply));
    lemma_shown_stays(trace, m.op(), reply);
    if calm(after) {
        assert(after.drop_last() =~= trace);
        assert forall|error: SdMmcError| lasting(error) implies !(#[trigger] shown(
            trace,
            error,
        )) by {
            assert(!shown(after, error));
        }
        lemma_chunk_bounds(m, block, len);
        match m.phase {
            BlockPhase::Transfer(t) => {
                lemma_transfer_advances(
                    trace,
                    num_blocks,
                    state,
                    block,
                    len,
                    limit,
                    m,
                    t,
                    reply,
                );
            },
            BlockPhase::AskReady(ask) => {
                lemma_ask_advances(trace, num_blocks, state, block, len, limit, m, ask, reply);
            },
            BlockPhase::PollReady(_) | BlockPhase::CopyOut => {
                if m.next(reply) == m.next_chunk() {
                    lemma_next_chunk_advances(after, limit, block, len, m);
                }
            },
            BlockPhase::ByteCount | BlockPhase::CopyIn => {
                lemma_begin_transfer_advances(
                    after,
                    num_blocks,
                    state,
                    block,
                    len,
                    limit,
                    m,
                );
            },
            BlockPhase::BlockSize => {},
        }
    }
}

/// Replies that a request of so many bytes takes at most if nothing delays it.
pub open spec fn reply_limit(len: usize) -> int {
    len / 512 * 160 + 130
}

/// No wait of the request is given up: each ends before its deadline.
pub open spec fn in_time(start: Step<BlockRequest, BlockEnd>, replies: Seq<Reply>) -> bool {
    never(start, replies, |m: BlockRequest, reply: Reply| m.gives_up(reply))
}

proof fn lemma_rank_positive(m: BlockRequest)
    requires
        brisk(m),
        m.offset <= m.len,
    ensures
        request_rank(m) > 0,
{
    if let BlockPhase::AskReady(ask) = m.phase {
        if let AskReadyPhase::Ask { send, .. } = ask.phase {
            lemma_send_progress(send, Reply::Done);
        }
    }
}

/// Throughout a request whose waits are not given up, its errors have causes, and it
/// advances.
proof fn lemma_request_advances(
    direction: Direction,
    mode: WaitMode,
    rca: u16,
    num_blocks: u64,
    state: IdmacState,
    block: u32,
    len: usize,
    replies: Seq<Reply>,
)
    requires
        servable(num_blocks, state, block, len),
        in_time(
            BlockRequest::start(direction, mode, rca, num_blocks, state, block, len),
            replies,
        ),
    ensures
        ({
            let done = run(
                BlockRequest::start(direction, mode, rca, num_blocks, state, block, len),
                replies,
            );
            &&& request_cause(done.trace, num_blocks, state, block, len, done.at)
            &&& advances(done.trace, reply_limit(len), done.at)
        }),
{
    let start = BlockRequest::start(direction, mode, rca, num_blocks, state, block, len);
    let limit = reply_limit(len);
    let bad = |m: BlockRequest, reply: Reply| m.gives_up(reply);
    let inv = |trace: Seq<(Op, Reply)>, at: Step<BlockRequest, BlockEnd>|
        request_cause(trace, num_blocks, state, block, len, at) && advances(trace, limit, at);
    assert forall|trace: Seq<(Op, Reply)>, m: BlockRequest, reply: Reply|
        inv(trace, Step::Next(m)) && !bad(m, reply) implies #[trigger] inv(
        trace.push((m.op(), reply)),
        m.next(reply),
    ) by {
        lemma_request_cause(trace, num_blocks, state, block, len, m, reply);
        lemma_advances(trace, num_blocks, state, block, len, limit, m, reply);
    }
    lemma_request_begins(direction, mode, rca, num_blocks, state, block, len);
    crate::io::lemma_run_invariant_without(start, replies, bad, inv);
}

proof fn lemma_request_begins(
    direction: Direction,
    mode: WaitMode,
    rca: u16,
    num_blocks: u64,
    state: IdmacState,
    block: u32,
    len: usize,
)
    requires
        servable(num_blocks, state, block, len),
    ensures
        ({
            let start = BlockRequest::start(direction, mode, rca, num_blocks, state, block, len);
            &&& request_cause(Seq::empty(), num_blocks, state, block, len, start)
            &&& advances(Seq::empty(), reply_limit(len), start)
        }),
{
}

/// A request succeeds if nothing goes wrong: its range is valid, the driver is not
/// faulted and has a transfer buffer within reach of the engine, no reply shows a lasting
/// error, and whatever it has to wait for comes before the deadline. The number of
/// replies until its end is limited by its length and by the operations that delay it.
pub proof fn law_smooth_request_succeeds(
    direction: Direction,
    mode: WaitMode,
    rca: u16,
    num_blocks: u64,
    state: IdmacState,
    block: u32,
    len: usize,
    replies: Seq<Reply>,
)
    requires
        servable(num_blocks, state, block, len),
    ensures
        ({
            let start = BlockRequest::start(direction, mode, rca, num_blocks, state, block, len);
            let done = run(start, replies);
            let limit = reply_limit(len) + DELAY_COST * delay(done.trace);
            in_time(start, replies) && calm(done.trace) ==> match done.at {
                Step::Next(_) => replies.len() < limit,
                Step::Done(end) => end.result is Ok && done.trace.len() <= limit,
            }
        }),
{
    let start = BlockRequest::start(direction, mode, rca, num_blocks, state, block, len);
    if in_time(start, replies) {
        lemma_request_advances(direction, mode, rca, num_blocks, state, block, len, replies);
        crate::io::lemma_unended(start, replies);
        if let Step::Next(m) = run(start, replies).at {
            if calm(run(start, replies).trace) {
                lemma_rank_positive(m);
            }
        }
    }
}

} // verus!
