//! What the end of a request, or its cancellation, amounts to.

use vstd::prelude::*;

use crate::blocks::{BlockEnd, BlockPhase, BlockRequest, Direction};
use crate::cmd::Request;
use crate::dma::descriptor_count;
use crate::enable::IdmacState;
use crate::error::{r1_verdict, SdMmcError};
use crate::io::{run, Machine, Op, Reply, Step};
use crate::ready::AskReadyPhase;
use crate::regs::Reg;
use crate::trace::{descriptors_held, frees, submits};
use crate::transfer::{
    FinishPhase, IdmacTransfer, IdmacTransferContext, PreparePhase, TransferEnd, TransferPhase,
    ValidatePhase, ValidateTransfer, WaitMode,
};
use crate::transfer_laws::{
    law_abort_stops_engine_before_freeing, lemma_validation, seen_stopped, terminal_look,
    validation_invariant,
};

verus! {

/// Descriptor chains that a transfer holds.
pub open spec fn chain_held(transfer: IdmacTransfer) -> int {
    match transfer.phase {
        TransferPhase::Prepare(prepare) => match prepare.phase {
            PreparePhase::IdleClock => 0,
            PreparePhase::IdleCommand { .. } => 0,
            PreparePhase::IdleData { .. } => 0,
            PreparePhase::IdleDeadline { .. } => 0,
            PreparePhase::ClearRaw => 0,
            PreparePhase::StaleId => 0,
            PreparePhase::RereadId => 0,
            PreparePhase::ClearId { .. } => 0,
            PreparePhase::ClearFlags => 0,
            PreparePhase::Allocate => 0,
            _ => 1,
        },
        TransferPhase::Finish { finish, .. } => match finish.phase {
            FinishPhase::Disconnect => 0,
            FinishPhase::DisconnectFence => 0,
            _ => 1,
        },
        _ => 1,
    }
}

/// Since the last command was submitted, its status was acknowledged.
pub open spec fn answered(trace: Seq<(Op, Reply)>) -> bool
    decreases trace.len(),
{
    trace.len() > 0 && (if submits(trace.last().0) {
        false
    } else {
        trace.last().0 == Op::Acknowledge(Reg::RIntSts) || answered(trace.drop_last())
    })
}

/// What a request has under way.
spec fn under_way(trace: Seq<(Op, Reply)>, at: Step<BlockRequest, BlockEnd>) -> bool {
    match at {
        Step::Done(end) => end.state.reset_failed || descriptors_held(trace) == 0,
        Step::Next(m) => match m.phase {
            BlockPhase::Transfer(transfer) => {
                &&& descriptors_held(trace) == chain_held(transfer)
                &&& transfer.phase matches TransferPhase::Finish { finish, .. } ==> (finish.stuck
                    ==> !(finish.phase is Fence) && !(finish.phase is Free))
            },
            BlockPhase::AskReady(ask) => {
                &&& descriptors_held(trace) == 0
                &&& match ask.phase {
                    AskReadyPhase::Clock => true,
                    AskReadyPhase::Ask { .. } => true,
                    _ => answered(trace),
                }
            },
            _ => descriptors_held(trace) == 0,
        },
    }
}

proof fn lemma_under_way_transfer(
    trace: Seq<(Op, Reply)>,
    m: BlockRequest,
    transfer: IdmacTransfer,
    reply: Reply,
)
    requires
        m.phase == BlockPhase::Transfer(transfer),
        under_way(trace, Step::Next(m)),
    ensures
        under_way(trace.push((m.op(), reply)), m.next(reply)),
{
    let after = trace.push((m.op(), reply));
    assert(after.drop_last() =~= trace);
}

proof fn lemma_under_way(trace: Seq<(Op, Reply)>, m: BlockRequest, reply: Reply)
    requires
        under_way(trace, Step::Next(m)),
    ensures
        under_way(trace.push((m.op(), reply)), m.next(reply)),
{
    let after = trace.push((m.op(), reply));
    assert(after.drop_last() =~= trace);
    if let BlockPhase::Transfer(transfer) = m.phase {
        lemma_under_way_transfer(trace, m, transfer, reply);
    }
}

/// Cancelling a request that is suspended in a transfer stops the engine before
/// the descriptors go, and keeps them if it does not stop. One that is suspended
/// while the card is programming has neither descriptors nor a command under way.
pub proof fn law_cancelled_request_is_fail_stop(
    direction: Direction,
    mode: WaitMode,
    rca: u16,
    num_blocks: u64,
    state: IdmacState,
    block: u32,
    len: usize,
    replies: Seq<Reply>,
    abort_replies: Seq<Reply>,
)
    ensures
        ({
            let done = run(
                BlockRequest::start(direction, mode, rca, num_blocks, state, block, len),
                replies,
            );
            done.at matches Step::Next(m) ==> m.suspended() ==> match m.cancellation() {
                Some(abort) => {
                    let ended = run(Step::Next(abort), abort_replies);
                    &&& descriptors_held(done.trace) == 1
                    &&& ended.at matches Step::Done(result) ==> match result {
                        Ok(_) => frees(ended.trace) == 1 && seen_stopped(ended.trace),
                        Err(error) => error == SdMmcError::RecoveryFailed && frees(ended.trace)
                            == 0,
                    }
                },
                None => descriptors_held(done.trace) == 0 && answered(done.trace),
            }
        }),
{
    let start = BlockRequest::start(direction, mode, rca, num_blocks, state, block, len);
    let inv = |trace: Seq<(Op, Reply)>, at: Step<BlockRequest, BlockEnd>| under_way(trace, at);
    assert forall|trace: Seq<(Op, Reply)>, m: BlockRequest, reply: Reply|
        inv(trace, Step::Next(m)) implies #[trigger] inv(
        trace.push((m.op(), reply)),
        m.next(reply),
    ) by {
        lemma_under_way(trace, m, reply);
    }
    crate::io::lemma_run_invariant(start, replies, inv);
    law_abort_stops_engine_before_freeing(true, abort_replies);
}

/// A request that ends has given its descriptors back, unless the engine could not
/// be stopped.
pub proof fn law_request_gives_descriptors_back(
    direction: Direction,
    mode: WaitMode,
    rca: u16,
    num_blocks: u64,
    state: IdmacState,
    block: u32,
    len: usize,
    replies: Seq<Reply>,
)
    ensures
        ({
            let done = run(
                BlockRequest::start(direction, mode, rca, num_blocks, state, block, len),
                replies,
            );
            done.at matches Step::Done(end) ==> end.state.reset_failed || descriptors_held(
                done.trace,
            ) == 0
        }),
{
    let start = BlockRequest::start(direction, mode, rca, num_blocks, state, block, len);
    let inv = |trace: Seq<(Op, Reply)>, at: Step<BlockRequest, BlockEnd>| under_way(trace, at);
    assert forall|trace: Seq<(Op, Reply)>, m: BlockRequest, reply: Reply|
        inv(trace, Step::Next(m)) implies #[trigger] inv(
        trace.push((m.op(), reply)),
        m.next(reply),
    ) by {
        lemma_under_way(trace, m, reply);
    }
    crate::io::lemma_run_invariant(start, replies, inv);
}

/// The generation that was begun last.
pub open spec fn generation_begun(trace: Seq<(Op, Reply)>) -> usize
    decreases trace.len(),
{
    if trace.len() == 0 {
        0
    } else {
        match trace.last().0 {
            Op::BeginTransfer => trace.last().1.generation(),
            _ => generation_begun(trace.drop_last()),
        }
    }
}

/// What a transfer that is over is looked at for.
pub open spec fn expected_end(request: Request, generation: usize) -> IdmacTransferContext {
    IdmacTransferContext {
        cmd: request.kind.word(),
        arg: request.arg,
        expects_r1: request.kind.has_r1_response(),
        generation,
        descriptors: 0,
        descriptor_count: descriptor_count(request.data.len()),
    }
}

/// From `start` on, the trace looks at a transfer in its terminal state and then
/// takes the response, which passes its check.
pub open spec fn over_at(
    trace: Seq<(Op, Reply)>,
    start: int,
    request: Request,
    response: [u32; 4],
) -> bool {
    let end = start + 2 + 2 * descriptor_count(request.data.len());
    &&& 0 <= start
    &&& end < trace.len()
    &&& terminal_look(
        trace.subrange(start, end),
        expected_end(request, generation_begun(trace.take(start))),
    )
    &&& trace[end].0 == Op::Response
    &&& response == trace[end].1.response()
    &&& request.kind.has_r1_response() ==> r1_verdict(response[0], false) is Ok
}

/// Steps that a validation has taken.
spec fn looks(validate: ValidateTransfer) -> int {
    match validate.phase {
        ValidatePhase::Status => 0,
        ValidatePhase::Fence { .. } => 1,
        ValidatePhase::Owned { index, .. } => 2 + index,
        ValidatePhase::CardError { index, .. } => 2 + validate.context.descriptor_count + index,
    }
}

/// The context is that of the request and of the generation begun.
spec fn belongs(context: IdmacTransferContext, request: Request, generation: usize) -> bool {
    &&& context.descriptor_count > 0
    &&& IdmacTransferContext { descriptors: 0, ..context } == expected_end(request, generation)
}

/// How far a transfer has come towards its end.
spec fn course(
    request: Request,
    trace: Seq<(Op, Reply)>,
    at: Step<IdmacTransfer, TransferEnd>,
) -> bool {
    match at {
        Step::Done(end) => end.result matches Ok(response) ==> exists|start: int| #[trigger]
            over_at(trace, start, request, response),
        Step::Next(m) => match m.phase {
            TransferPhase::Prepare(prepare) => {
                &&& prepare.request == request
                &&& prepare.len == request.data.len()
                &&& match prepare.phase {
                    PreparePhase::IdleClock => true,
                    PreparePhase::IdleCommand { .. } => true,
                    PreparePhase::IdleData { .. } => true,
                    PreparePhase::IdleDeadline { .. } => true,
                    PreparePhase::ClearRaw => true,
                    PreparePhase::StaleId => true,
                    PreparePhase::RereadId => true,
                    PreparePhase::ClearId { .. } => true,
                    PreparePhase::ClearFlags => true,
                    _ => prepare.len > 0,
                }
            },
            TransferPhase::Start(start) => belongs(
                start.context,
                request,
                if start.phase is Begin {
                    0
                } else {
                    generation_begun(trace)
                },
            ),
            TransferPhase::Wait(wait) => belongs(wait.context, request, generation_begun(trace)),
            TransferPhase::Validate(validate) => {
                let from = trace.len() - looks(validate);
                &&& 0 <= from
                &&& belongs(validate.context, request, generation_begun(trace.take(from)))
                &&& validation_invariant(validate.context, trace.skip(from), Step::Next(validate))
            },
            TransferPhase::Response(context) => {
                let from = trace.len() - 2 - 2 * context.descriptor_count;
                &&& 0 <= from
                &&& belongs(context, request, generation_begun(trace.take(from)))
                &&& terminal_look(trace.skip(from), context)
            },
            TransferPhase::Finish { result, .. } => result matches Ok(response) ==> exists|
                start: int,
            | #[trigger]
                over_at(trace, start, request, response),
        },
    }
}

proof fn lemma_course_validate(
    request: Request,
    trace: Seq<(Op, Reply)>,
    m: IdmacTransfer,
    validate: ValidateTransfer,
    reply: Reply,
)
    requires
        m.phase == TransferPhase::Validate(validate),
        course(request, trace, Step::Next(m)),
    ensures
        course(request, trace.push((m.op(), reply)), m.next(reply)),
{
    let after = trace.push((m.op(), reply));
    let from = trace.len() - looks(validate);
    lemma_validation(validate.context, trace.skip(from), validate, reply);
    assert(trace.skip(from).push((m.op(), reply)) =~= after.skip(from));
    assert(after.take(from) =~= trace.take(from));
    match validate.next(reply) {
        Step::Next(later) => {
            assert(looks(later) == looks(validate) + 1);
        },
        Step::Done(_) => {},
    }
}

proof fn lemma_course_response(
    request: Request,
    trace: Seq<(Op, Reply)>,
    m: IdmacTransfer,
    context: IdmacTransferContext,
    reply: Reply,
)
    requires
        m.phase == TransferPhase::Response(context),
        course(request, trace, Step::Next(m)),
    ensures
        course(request, trace.push((m.op(), reply)), m.next(reply)),
{
    let after = trace.push((m.op(), reply));
    let from = trace.len() - 2 - 2 * context.descriptor_count;
    assert(after.subrange(from, trace.len() as int) =~= trace.skip(from));
    assert(after.take(from) =~= trace.take(from));
    let response = reply.response();
    if context.expects_r1 ==> r1_verdict(response[0], false) is Ok {
        assert(over_at(after, from, request, m.next(reply)->Next_0.phase->result->Ok_0));
    }
}

proof fn lemma_course(request: Request, trace: Seq<(Op, Reply)>, m: IdmacTransfer, reply: Reply)
    requires
        course(request, trace, Step::Next(m)),
    ensures
        course(request, trace.push((m.op(), reply)), m.next(reply)),
{
    let after = trace.push((m.op(), reply));
    assert(after.drop_last() =~= trace);
    match m.phase {
        TransferPhase::Validate(validate) => {
            lemma_course_validate(request, trace, m, validate, reply);
        },
        TransferPhase::Response(context) => {
            lemma_course_response(request, trace, m, context, reply);
        },
        TransferPhase::Wait(_) => {
            assert(after.take(after.len() as int) =~= after);
            assert(after.skip(after.len() as int) =~= Seq::empty());
        },
        TransferPhase::Finish { result, .. } => {
            if let Ok(response) = result {
                let start = choose|start: int| #[trigger] over_at(trace, start, request, response);
                let end = start + 2 + 2 * descriptor_count(request.data.len());
                assert(after.subrange(start, end) =~= trace.subrange(start, end));
                assert(after.take(start) =~= trace.take(start));
                assert(over_at(after, start, request, response));
            }
        },
        _ => {},
    }
}

/// A transfer succeeds only after a complete look has found it over: the status of
/// its own generation shows every event that its command brings and no error, no
/// descriptor belongs to the engine any more or carries a card error. The response
/// it returns was taken after that and passes its check.
pub proof fn law_transfer_succeeds_only_when_over(
    mode: WaitMode,
    request: Request,
    buffer: u32,
    replies: Seq<Reply>,
)
    ensures
        ({
            let done = run(IdmacTransfer::start(mode, false, request, buffer), replies);
            done.at matches Step::Done(end) ==> (end.result matches Ok(response) ==> exists|
                start: int,
            | #[trigger]
                over_at(done.trace, start, request, response))
        }),
{
    let start = IdmacTransfer::start(mode, false, request, buffer);
    let inv = |trace: Seq<(Op, Reply)>, at: Step<IdmacTransfer, TransferEnd>|
        course(request, trace, at);
    assert forall|trace: Seq<(Op, Reply)>, m: IdmacTransfer, reply: Reply|
        inv(trace, Step::Next(m)) implies #[trigger] inv(
        trace.push((m.op(), reply)),
        m.next(reply),
    ) by {
        lemma_course(request, trace, m, reply);
    }
    crate::io::lemma_run_invariant(start, replies, inv);
}

} // verus!
