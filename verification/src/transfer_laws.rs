//! What holds of DMA transfers whatever the hardware replies.

use vstd::prelude::*;

use crate::cmd::Request;
use crate::dma::{addressable, descriptor_at, descriptor_count, IdmacDes0};
use crate::error::{SdMmcError, SdMmcResult};
use crate::io::{run, Machine, Notice, Op, Reply, Step};
use crate::regs::{BMod, Ctrl, IdSts, Reg};
use crate::trace::{
    descriptors_held, frees, last_written, lemma_accounts_push, op_back, reply_back, stored,
    submissions, submits,
};
use crate::transfer::{
    FinishPhase, FinishTransfer, IdmacTransfer, IdmacTransferContext, Prepare, PreparePhase,
    ResetPhase, StartPhase, StartTransfer, Started, TransferEnd, TransferPhase, ValidatePhase,
    ValidateTransfer, WaitMode,
};

verus! {

/// The engine was seen stopped: both reset bits were found clear in one look.
pub open spec fn seen_stopped(trace: Seq<(Op, Reply)>) -> bool {
    exists|j: int| #[trigger] stopped_at(trace, j)
}

/// The look at `j` and the one after it found the reset bits clear.
pub open spec fn stopped_at(trace: Seq<(Op, Reply)>, j: int) -> bool {
    &&& 0 <= j < trace.len() - 1
    &&& (trace[j].0 == Op::Read(Reg::BMod) || trace[j].0 == Op::Poll(Reg::BMod))
    &&& !BMod(trace[j].1.word()).swr()
    &&& trace[j + 1].0 == Op::Read(Reg::Ctrl)
    &&& !Ctrl(trace[j + 1].1.word()).dma_reset()
}

/// What holds at every point of the end of a transfer.
pub open spec fn finish_invariant(
    abort: bool,
    trace: Seq<(Op, Reply)>,
    at: Step<FinishTransfer, SdMmcResult>,
) -> bool {
    match at {
        Step::Done(result) => {
            &&& (result is Ok ==> frees(trace) == 1 && (abort ==> seen_stopped(trace)))
            &&& (result matches Err(error) ==> abort && error == SdMmcError::RecoveryFailed
                && frees(trace) == 0)
        },
        Step::Next(m) => {
            &&& m.abort == abort
            &&& m.stuck ==> abort
            &&& match m.phase {
                FinishPhase::MaskController => abort && !m.stuck && frees(trace) == 0,
                FinishPhase::MaskEngine => abort && !m.stuck && frees(trace) == 0,
                FinishPhase::MaskFence => abort && !m.stuck && frees(trace) == 0,
                FinishPhase::Reset(reset) => {
                    &&& abort && !m.stuck && frees(trace) == 0
                    &&& reset.phase matches ResetPhase::InterfaceBit { engine_done, .. } ==> {
                        &&& trace.len() > 0
                        &&& op_back(trace, 0) == Op::Read(Reg::BMod) || op_back(trace, 0)
                            == Op::Poll(Reg::BMod)
                        &&& engine_done == !BMod(reply_back(trace, 0).word()).swr()
                    }
                },
                FinishPhase::Disconnect => {
                    abort && !m.stuck && frees(trace) == 1 && seen_stopped(trace)
                },
                FinishPhase::DisconnectFence => {
                    abort && !m.stuck && frees(trace) == 1 && seen_stopped(trace)
                },
                FinishPhase::Fence => {
                    !m.stuck && frees(trace) == 0 && (abort ==> seen_stopped(trace))
                },
                FinishPhase::Free => {
                    !m.stuck && frees(trace) == 0 && (abort ==> seen_stopped(trace))
                },
                _ => frees(trace) == 0 && (abort && !m.stuck ==> seen_stopped(trace)),
            }
        },
    }
}

proof fn lemma_finish_step(abort: bool, trace: Seq<(Op, Reply)>, m: FinishTransfer, reply: Reply)
    requires
        finish_invariant(abort, trace, Step::Next(m)),
    ensures
        finish_invariant(abort, trace.push((m.op(), reply)), m.next(reply)),
{
    let after = trace.push((m.op(), reply));
    assert(after.drop_last() =~= trace);
    if seen_stopped(trace) {
        let j = choose|j: int| #[trigger] stopped_at(trace, j);
        assert(stopped_at(after, j));
    }
    if let FinishPhase::Reset(reset) = m.phase {
        if let Step::Done(stopped) = reset.next(reply) {
            if stopped {
                assert(stopped_at(after, trace.len() - 1));
            }
        }
    }
}

/// The descriptors of an aborted transfer are given back only after the engine
/// was seen stopped. If the engine does not stop, the outcome is
/// `RecoveryFailed` and the descriptors are kept. In every other case they are
/// given back exactly once.
pub proof fn law_abort_stops_engine_before_freeing(abort: bool, replies: Seq<Reply>)
    ensures
        ({
            let done = run(Step::Next(FinishTransfer::new(abort)), replies);
            done.at matches Step::Done(result) ==> match result {
                Ok(_) => frees(done.trace) == 1 && (abort ==> seen_stopped(done.trace)),
                Err(error) => abort && error == SdMmcError::RecoveryFailed && frees(done.trace)
                    == 0,
            }
        }),
        ({
            let done = run(Step::Next(FinishTransfer::new(abort)), replies);
            done.at matches Step::Next(m) ==> m.op() is FreeDescriptors ==> abort ==> seen_stopped(
                done.trace,
            )
        }),
{
    let start = Step::<FinishTransfer, SdMmcResult>::Next(FinishTransfer::new(abort));
    let inv = |trace: Seq<(Op, Reply)>, at: Step<FinishTransfer, SdMmcResult>|
        finish_invariant(abort, trace, at);
    assert forall|trace: Seq<(Op, Reply)>, m: FinishTransfer, reply: Reply|
        inv(trace, Step::Next(m)) implies #[trigger] inv(
        trace.push((m.op(), reply)),
        m.next(reply),
    ) by {
        lemma_finish_step(abort, trace, m, reply);
    }
    crate::io::lemma_run_invariant(start, replies, inv);
}

/// Descriptors held and commands submitted at every point of a transfer, and
/// what they make of its end.
pub open spec fn transfer_accounts(
    trace: Seq<(Op, Reply)>,
    at: Step<IdmacTransfer, TransferEnd>,
) -> bool {
    let held = descriptors_held(trace);
    let sent = submissions(trace);
    match at {
        Step::Done(end) => {
            &&& (end.reset_failed <==> end.result == Err::<[u32; 4], SdMmcError>(
                SdMmcError::RecoveryFailed,
            ))
            &&& held == (if end.reset_failed {
                1int
            } else {
                0int
            })
            &&& 0 <= sent <= 1
            &&& (end.result is Ok ==> sent == 1 && !end.faulted)
            &&& (end.result is Err && sent == 1 ==> end.faulted)
            &&& (end.faulted ==> end.result is Err)
        },
        Step::Next(m) => match m.phase {
            TransferPhase::Prepare(prepare) => {
                &&& sent == 0
                &&& held == (match prepare.phase {
                    PreparePhase::IdleClock => 0int,
                    PreparePhase::IdleCommand { .. } => 0,
                    PreparePhase::IdleData { .. } => 0,
                    PreparePhase::IdleDeadline { .. } => 0,
                    PreparePhase::ClearRaw => 0,
                    PreparePhase::StaleId => 0,
                    PreparePhase::RereadId => 0,
                    PreparePhase::ClearId { .. } => 0,
                    PreparePhase::ClearFlags => 0,
                    PreparePhase::Allocate => 0,
                    _ => 1,
                })
            },
            TransferPhase::Start(start) => {
                &&& held == 1
                &&& sent == (match start.phase {
                    StartPhase::Begin => 0int,
                    StartPhase::WriteArg => 0,
                    StartPhase::ArgFence => 0,
                    StartPhase::WriteCmd => 0,
                    _ => 1,
                })
            },
            TransferPhase::Finish { finish, result } => {
                &&& (finish.abort <==> result is Err)
                &&& result != Err::<[u32; 4], SdMmcError>(SdMmcError::RecoveryFailed)
                &&& (result is Ok ==> sent == 1)
                &&& 0 <= sent <= 1
                &&& (finish.stuck ==> !(finish.phase is Fence) && !(finish.phase is Free))
                &&& held == (match finish.phase {
                    FinishPhase::Disconnect => 0int,
                    FinishPhase::DisconnectFence => 0,
                    _ => 1,
                })
            },
            _ => held == 1 && sent == 1,
        },
    }
}

proof fn lemma_transfer_accounts(trace: Seq<(Op, Reply)>, m: IdmacTransfer, reply: Reply)
    requires
        transfer_accounts(trace, Step::Next(m)),
    ensures
        transfer_accounts(trace.push((m.op(), reply)), m.next(reply)),
{
    let after = trace.push((m.op(), reply));
    assert(after.drop_last() =~= trace);
}

/// Whatever the hardware replies, a transfer submits at most one command; every
/// failure after the submission faults the driver, and success never does; and
/// at the end its descriptors have been given back, unless the engine could not
/// be stopped, which the outcome `RecoveryFailed` tells.
pub proof fn law_transfer_accounts(
    mode: WaitMode,
    request: Request,
    buffer: u32,
    replies: Seq<Reply>,
)
    ensures
        ({
            let done = run(IdmacTransfer::start(mode, false, request, buffer), replies);
            done.at matches Step::Done(end) ==> {
                &&& (end.reset_failed <==> end.result == Err::<[u32; 4], SdMmcError>(
                    SdMmcError::RecoveryFailed,
                ))
                &&& descriptors_held(done.trace) == (if end.reset_failed {
                    1int
                } else {
                    0int
                })
                &&& 0 <= submissions(done.trace) <= 1
                &&& (end.result is Ok ==> submissions(done.trace) == 1 && !end.faulted)
                &&& (end.result is Err && submissions(done.trace) == 1 ==> end.faulted)
            }
        }),
{
    let start = IdmacTransfer::start(mode, false, request, buffer);
    let inv = |trace: Seq<(Op, Reply)>, at: Step<IdmacTransfer, TransferEnd>|
        transfer_accounts(trace, at);
    assert forall|trace: Seq<(Op, Reply)>, m: IdmacTransfer, reply: Reply|
        inv(trace, Step::Next(m)) implies #[trigger] inv(
        trace.push((m.op(), reply)),
        m.next(reply),
    ) by {
        lemma_transfer_accounts(trace, m, reply);
    }
    crate::io::lemma_run_invariant(start, replies, inv);
}

/// A faulted driver refuses every transfer at once, without touching the
/// hardware, and stays faulted.
pub proof fn law_faulted_driver_refuses(mode: WaitMode, request: Request, buffer: u32)
    ensures
        IdmacTransfer::start(mode, true, request, buffer) == Step::<
            IdmacTransfer,
            TransferEnd,
        >::Done(
            TransferEnd {
                result: Err(SdMmcError::DriverFaulted),
                faulted: true,
                reset_failed: false,
            },
        ),
{
}

/// The chain for `len` bytes at `buffer` stands at `descriptors`, and nothing
/// else was stored.
pub open spec fn chain_stored(
    trace: Seq<(Op, Reply)>,
    len: usize,
    buffer: u32,
    descriptors: u32,
    count: int,
) -> bool {
    &&& addressable(len, buffer, descriptors)
    &&& 0 <= count <= descriptor_count(len)
    &&& stored(trace) == Seq::new(
        count as nat,
        |i: int| (i as usize, descriptor_at(i as usize, len, buffer, descriptors)),
    )
}

/// The chain is stored completely and its address and length are in the
/// registers.
pub open spec fn chain_published(
    trace: Seq<(Op, Reply)>,
    len: usize,
    buffer: u32,
    descriptors: u32,
) -> bool {
    &&& chain_stored(trace, len, buffer, descriptors, descriptor_count(len) as int)
    &&& last_written(trace, Reg::BytCnt) == Some(len as u32)
    &&& last_written(trace, Reg::DbAddr) == Some(descriptors)
}

/// Progress of the publication at every point before the submission.
pub open spec fn publication_invariant(
    request: Request,
    buffer: u32,
    trace: Seq<(Op, Reply)>,
    at: Step<IdmacTransfer, TransferEnd>,
) -> bool {
    let len = request.data.len();
    at matches Step::Next(m) ==> match m.phase {
        TransferPhase::Prepare(p) => {
            &&& p.request == request
            &&& p.buffer == buffer
            &&& p.len == len
            &&& match p.phase {
                PreparePhase::Allocate => {
                    p.buffer_check() is Ok && stored(trace) =~= Seq::empty()
                },
                PreparePhase::Release => true,
                PreparePhase::Store { index, descriptors } => {
                    &&& p.buffer_check() is Ok
                    &&& index < descriptor_count(len)
                    &&& chain_stored(trace, len, buffer, descriptors, index as int)
                },
                PreparePhase::StoreFence { descriptors } => {
                    chain_stored(trace, len, buffer, descriptors, descriptor_count(len) as int)
                },
                PreparePhase::ByteCount { descriptors } => {
                    chain_stored(trace, len, buffer, descriptors, descriptor_count(len) as int)
                },
                PreparePhase::ChainAddress { descriptors } => {
                    &&& chain_stored(trace, len, buffer, descriptors, descriptor_count(len) as int)
                    &&& last_written(trace, Reg::BytCnt) == Some(len as u32)
                },
                PreparePhase::PublishFence { descriptors } => {
                    chain_published(trace, len, buffer, descriptors)
                },
                PreparePhase::CheckAddress { descriptors } => {
                    chain_published(trace, len, buffer, descriptors)
                },
                PreparePhase::CheckByteCount { descriptors, .. } => {
                    chain_published(trace, len, buffer, descriptors)
                },
                PreparePhase::CountOwned { descriptors, .. } => {
                    chain_published(trace, len, buffer, descriptors)
                },
                _ => stored(trace) =~= Seq::empty(),
            }
        },
        TransferPhase::Start(start) => {
            &&& chain_published(trace, len, buffer, start.context.descriptors)
            &&& start.context.cmd == request.kind.word()
            &&& start.context.arg == request.arg
            &&& (start.phase is ArgFence ==> trace.len() >= 1 && op_back(trace, 0) == Op::Write(
                Reg::CmdArg,
                request.arg,
            ))
            &&& (start.phase is WriteCmd ==> trace.len() >= 2 && op_back(trace, 0) == Op::Fence
                && op_back(trace, 1) == Op::Write(Reg::CmdArg, request.arg))
        },
        _ => true,
    }
}

/// One more descriptor of the chain is stored.
proof fn lemma_store_next(
    trace: Seq<(Op, Reply)>,
    reply: Reply,
    len: usize,
    buffer: u32,
    descriptors: u32,
    index: usize,
)
    requires
        chain_stored(trace, len, buffer, descriptors, index as int),
        index < descriptor_count(len),
    ensures
        chain_stored(
            trace.push(
                (
                    Op::StoreDescriptor(index, descriptor_at(index, len, buffer, descriptors)),
                    reply,
                ),
            ),
            len,
            buffer,
            descriptors,
            index + 1,
        ),
{
    lemma_accounts_push(
        trace,
        Op::StoreDescriptor(index, descriptor_at(index, len, buffer, descriptors)),
        reply,
    );
    let after = trace.push(
        (Op::StoreDescriptor(index, descriptor_at(index, len, buffer, descriptors)), reply),
    );
    assert(stored(after) =~= Seq::new(
        (index + 1) as nat,
        |i: int| (i as usize, descriptor_at(i as usize, len, buffer, descriptors)),
    ));
}

/// A chain that can be addressed is begun.
proof fn lemma_store_first(trace: Seq<(Op, Reply)>, p: Prepare, address: u64)
    requires
        p.buffer_check() is Ok,
        p.usable(address),
        stored(trace) =~= Seq::empty(),
    ensures
        chain_stored(trace, p.len, p.buffer, address as u32, 0),
        0 < descriptor_count(p.len),
{
    assert(stored(trace) =~= Seq::new(
        0,
        |i: int| (i as usize, descriptor_at(i as usize, p.len, p.buffer, address as u32)),
    ));
    assert((descriptor_count(p.len) - 1) * 16 == p.last_descriptor_offset());
}

proof fn lemma_publication_prepare(
    request: Request,
    buffer: u32,
    trace: Seq<(Op, Reply)>,
    mode: WaitMode,
    p: Prepare,
    reply: Reply,
)
    requires
        publication_invariant(
            request,
            buffer,
            trace,
            Step::Next(IdmacTransfer { mode, phase: TransferPhase::Prepare(p) }),
        ),
    ensures
        publication_invariant(
            request,
            buffer,
            trace.push((p.op(), reply)),
            IdmacTransfer::after_prepare(mode, false, p.next(reply)),
        ),
{
    lemma_accounts_push(trace, p.op(), reply);
    let after = trace.push((p.op(), reply));
    match p.phase {
        PreparePhase::Store { index, descriptors } => {
            lemma_store_next(trace, reply, p.len, p.buffer, descriptors, index);
        },
        PreparePhase::Allocate => {
            if let Some(address) = reply.address() {
                if p.usable(address) {
                    lemma_store_first(after, p, address);
                }
            }
        },
        _ => {},
    }
}

proof fn lemma_publication(
    request: Request,
    buffer: u32,
    trace: Seq<(Op, Reply)>,
    m: IdmacTransfer,
    reply: Reply,
)
    requires
        publication_invariant(request, buffer, trace, Step::Next(m)),
    ensures
        publication_invariant(request, buffer, trace.push((m.op(), reply)), m.next(reply)),
{
    match m.phase {
        TransferPhase::Prepare(p) => {
            lemma_publication_prepare(request, buffer, trace, m.mode, p, reply);
        },
        TransferPhase::Start(s) => {
            lemma_accounts_push(trace, m.op(), reply);
        },
        _ => {},
    }
}

/// When a transfer submits its command, the complete chain for its buffer is
/// stored, address and length of the chain are in the registers, the argument
/// was written just before, and the word submitted is that of the command.
pub proof fn law_chain_published_before_submission(
    mode: WaitMode,
    request: Request,
    buffer: u32,
    replies: Seq<Reply>,
)
    ensures
        ({
            let done = run(IdmacTransfer::start(mode, false, request, buffer), replies);
            done.at matches Step::Next(m) ==> submits(m.op()) ==> {
                &&& exists|descriptors: u32| #[trigger]
                    chain_published(done.trace, request.data.len(), buffer, descriptors)
                &&& m.op() == Op::Write(Reg::Cmd, request.kind.word().0)
                &&& done.trace.len() >= 2
                &&& op_back(done.trace, 1) == Op::Write(Reg::CmdArg, request.arg)
            }
        }),
{
    let start = IdmacTransfer::start(mode, false, request, buffer);
    let inv = |trace: Seq<(Op, Reply)>, at: Step<IdmacTransfer, TransferEnd>|
        publication_invariant(request, buffer, trace, at);
    assert forall|trace: Seq<(Op, Reply)>, m: IdmacTransfer, reply: Reply|
        inv(trace, Step::Next(m)) implies #[trigger] inv(
        trace.push((m.op(), reply)),
        m.next(reply),
    ) by {
        lemma_publication(request, buffer, trace, m, reply);
    }
    crate::io::lemma_run_invariant(start, replies, inv);
    let done = run(start, replies);
    if let Step::Next(m) = done.at {
        if submits(m.op()) {
            match m.phase {
                TransferPhase::Start(s) => {
                    assert(chain_published(
                        done.trace,
                        request.data.len(),
                        buffer,
                        s.context.descriptors,
                    ));
                },
                _ => {},
            }
        }
    }
}

/// The control word that the look at `k` found.
pub open spec fn des0_at(trace: Seq<(Op, Reply)>, k: int) -> IdmacDes0 {
    IdmacDes0(trace[k].1.word())
}

/// The looks from `base` on went through the first `n` descriptors.
pub open spec fn looked_through(trace: Seq<(Op, Reply)>, base: int, n: int) -> bool {
    forall|j: int|
        base <= j < base + n ==> (#[trigger] trace[j]).0 == Op::LoadDes0((j - base) as usize)
}

/// The looks at the first `n` descriptors found none that belongs to the engine.
pub open spec fn none_owned(trace: Seq<(Op, Reply)>, n: int) -> bool {
    forall|j: int| 2 <= j < 2 + n ==> !(#[trigger] des0_at(trace, j)).own()
}

/// A complete look at a transfer in its terminal state, as a trace: the status
/// shows every event and no error, every descriptor is back, none has an error.
pub open spec fn terminal_look(trace: Seq<(Op, Reply)>, context: IdmacTransferContext) -> bool {
    let n = context.descriptor_count as int;
    &&& trace.len() == 2 + 2 * n
    &&& trace[0].0 == Op::Observe(context.generation)
    &&& !trace[0].1.status().idmac_status_has_error()
    &&& trace[0].1.status().terminal_events(context.cmd)
    &&& looked_through(trace, 2, n)
    &&& none_owned(trace, n)
    &&& looked_through(trace, 2 + n, n)
    &&& forall|j: int| 2 + n <= j < 2 + 2 * n ==> !(#[trigger] des0_at(trace, j)).ces()
}

/// Progress of the validation.
pub open spec fn validation_invariant(
    context: IdmacTransferContext,
    trace: Seq<(Op, Reply)>,
    at: Step<ValidateTransfer, bool>,
) -> bool {
    let n = context.descriptor_count as int;
    let seen = trace.len() > 0 && trace[0].0 == Op::Observe(context.generation);
    let status = trace[0].1.status();
    let events = !status.idmac_status_has_error() && status.terminal_events(context.cmd);
    match at {
        Step::Next(m) => {
            &&& m.context == context
            &&& match m.phase {
                ValidatePhase::Status => trace.len() == 0,
                ValidatePhase::Fence { events: e } => {
                    trace.len() == 1 && seen && e == events
                },
                ValidatePhase::Owned { events: e, index, found } => {
                    &&& index < n
                    &&& trace.len() == 2 + index
                    &&& seen
                    &&& e == events
                    &&& looked_through(trace, 2, index as int)
                    &&& found == exists|j: int|
                        2 <= j < 2 + index && (#[trigger] des0_at(trace, j)).own()
                },
                ValidatePhase::CardError { good, index } => {
                    &&& index < n
                    &&& trace.len() == 2 + n + index
                    &&& seen
                    &&& looked_through(trace, 2, n)
                    &&& looked_through(trace, 2 + n, index as int)
                    &&& good == (events && none_owned(trace, n))
                    &&& forall|j: int|
                        2 + n <= j < 2 + n + index ==> !(#[trigger] des0_at(trace, j)).ces()
                },
            }
        },
        Step::Done(valid) => {
            &&& (valid ==> terminal_look(trace, context))
            &&& (!valid ==> {
                ||| !events
                ||| !none_owned(trace, n)
                ||| trace.len() > 0 && des0_at(trace, trace.len() - 1).ces()
            })
        },
    }
}

/// Each step of the validation keeps its progress.
pub proof fn lemma_validation(
    context: IdmacTransferContext,
    trace: Seq<(Op, Reply)>,
    m: ValidateTransfer,
    reply: Reply,
)
    requires
        validation_invariant(context, trace, Step::Next(m)),
        context.descriptor_count > 0,
    ensures
        validation_invariant(context, trace.push((m.op(), reply)), m.next(reply)),
{
    let after = trace.push((m.op(), reply));
    assert forall|j: int| 0 <= j < trace.len() implies #[trigger] des0_at(after, j) == des0_at(
        trace,
        j,
    ) && after[j] == trace[j] by {}
    assert(des0_at(after, trace.len() as int) == IdmacDes0(reply.word()));
    if let ValidatePhase::CardError { .. } = m.phase {
        let n = context.descriptor_count as int;
        if none_owned(after, n) {
            assert forall|j: int| 2 <= j < 2 + n implies !(#[trigger] des0_at(trace, j)).own() by {
                assert(!des0_at(after, j).own());
            }
        }
        assert(none_owned(after, n) == none_owned(trace, n));
    }
    if let ValidatePhase::Owned { events, index, found } = m.phase {
        let owned = found || IdmacDes0(reply.word()).own();
        if found {
            let j = choose|j: int| 2 <= j < 2 + index && (#[trigger] des0_at(trace, j)).own();
            assert(des0_at(after, j).own());
        }
        if owned {
            assert(exists|j: int| 2 <= j < 3 + index && (#[trigger] des0_at(after, j)).own());
        } else {
            assert forall|j: int| 2 <= j < 3 + index implies !(#[trigger] des0_at(
                after,
                j,
            )).own() by {
                if j < trace.len() {
                    assert(des0_at(after, j) == des0_at(trace, j));
                }
            }
        }
    }
}

/// A transfer passes validation exactly if its status shows every event that
/// its command brings and no error, no descriptor belongs to the engine any more
/// and no descriptor carries a card error.
pub proof fn law_validation_is_exact(context: IdmacTransferContext, replies: Seq<Reply>)
    requires
        context.descriptor_count > 0,
    ensures
        ({
            let done = run(Step::Next(ValidateTransfer::new(context)), replies);
            let n = context.descriptor_count as int;
            &&& done.at == Step::<ValidateTransfer, bool>::Done(true) ==> terminal_look(
                done.trace,
                context,
            )
            &&& done.at == Step::<ValidateTransfer, bool>::Done(false) ==> {
                ||| done.trace[0].1.status().idmac_status_has_error()
                ||| !done.trace[0].1.status().terminal_events(context.cmd)
                ||| !none_owned(done.trace, n)
                ||| done.trace.len() > 0 && des0_at(done.trace, done.trace.len() - 1).ces()
            }
        }),
{
    let start = Step::<ValidateTransfer, bool>::Next(ValidateTransfer::new(context));
    let inv = |trace: Seq<(Op, Reply)>, at: Step<ValidateTransfer, bool>|
        validation_invariant(context, trace, at);
    assert forall|trace: Seq<(Op, Reply)>, m: ValidateTransfer, reply: Reply|
        inv(trace, Step::Next(m)) implies #[trigger] inv(
        trace.push((m.op(), reply)),
        m.next(reply),
    ) by {
        lemma_validation(context, trace, m, reply);
    }
    crate::io::lemma_run_invariant(start, replies, inv);
}

/// From `start` on the trace looks at the state of the engine and at the owners of so
/// many descriptors, and this is what it finds.
pub open spec fn peeked(
    trace: Seq<(Op, Reply)>,
    start: int,
    count: int,
    fsm: u32,
    desc_own: bool,
) -> bool {
    &&& 0 <= start
    &&& start + count < trace.len()
    &&& trace[start].0 == Op::Peek(Reg::IdSts)
    &&& fsm == IdSts(trace[start].1.word()).fsm()
    &&& forall|j: int|
        start < j <= start + count ==> (#[trigger] trace[j]).0 == Op::PeekDes0(
            (j - start - 1) as usize,
        )
    &&& desc_own == exists|j: int|
        start < j <= start + count && IdmacDes0((#[trigger] trace[j]).1.word()).own()
}

/// The trace ends with the report of the start of a transfer: its command, and the
/// state of the engine, the owner of the descriptors and the address of the chain as
/// they were just found.
pub open spec fn announced(trace: Seq<(Op, Reply)>, context: IdmacTransferContext) -> bool {
    let last = trace.len() - 1;
    &&& last >= 1
    &&& trace[last - 1].0 == Op::Peek(Reg::DbAddr)
    &&& trace[last].0 matches Op::Report(Notice::Started { cmd, fsm, desc_own, dbaddr })
    &&& cmd == context.cmd
    &&& dbaddr == trace[last - 1].1.word()
    &&& peeked(
        trace,
        last - 2 - context.descriptor_count,
        context.descriptor_count as int,
        fsm,
        desc_own,
    )
}

spec fn announcement(trace: Seq<(Op, Reply)>, at: Step<StartTransfer, Started>) -> bool {
    let len = trace.len() as int;
    match at {
        Step::Done(Started::Running(context)) => announced(trace, context),
        Step::Done(_) => true,
        Step::Next(s) => {
            let count = s.context.descriptor_count as int;
            match s.phase {
                StartPhase::Owned { fsm, index, desc_own } => index < count && peeked(
                    trace,
                    len - 1 - index,
                    index as int,
                    fsm,
                    desc_own,
                ),
                StartPhase::Address { fsm, desc_own } => peeked(
                    trace,
                    len - 1 - count,
                    count,
                    fsm,
                    desc_own,
                ),
                StartPhase::Announce { fsm, desc_own, dbaddr } => {
                    &&& len >= 1
                    &&& trace[len - 1].0 == Op::Peek(Reg::DbAddr)
                    &&& dbaddr == trace[len - 1].1.word()
                    &&& peeked(trace, len - 2 - count, count, fsm, desc_own)
                },
                _ => true,
            }
        },
    }
}

/// Looks that were made stay, and another one joins them.
proof fn lemma_peeked(
    trace: Seq<(Op, Reply)>,
    start: int,
    count: int,
    fsm: u32,
    desc_own: bool,
    op: Op,
    reply: Reply,
)
    requires
        count >= 0,
        peeked(trace, start, count, fsm, desc_own),
    ensures
        peeked(trace.push((op, reply)), start, count, fsm, desc_own),
        start + count + 1 == trace.len() && op == Op::PeekDes0(count as usize) ==> peeked(
            trace.push((op, reply)),
            start,
            count + 1,
            fsm,
            desc_own || IdmacDes0(reply.word()).own(),
        ),
{
    let after = trace.push((op, reply));
    assert forall|j: int| start < j <= start + count implies #[trigger] after[j] == trace[j] by {}
    assert(after[start] == trace[start]);
    if desc_own {
        let j = choose|j: int|
            start < j <= start + count && IdmacDes0((#[trigger] trace[j]).1.word()).own();
        assert(IdmacDes0(after[j].1.word()).own());
    }
    assert(after[trace.len() as int] == (op, reply));
}

proof fn lemma_announcement(trace: Seq<(Op, Reply)>, s: StartTransfer, reply: Reply)
    requires
        announcement(trace, Step::Next(s)),
    ensures
        announcement(trace.push((s.op(), reply)), s.next(reply)),
{
    let after = trace.push((s.op(), reply));
    let len = trace.len() as int;
    let count = s.context.descriptor_count as int;
    assert(after[len] == (s.op(), reply));
    match s.phase {
        StartPhase::State => {
            assert(peeked(after, len, 0, IdSts(reply.word()).fsm(), false));
        },
        StartPhase::Owned { fsm, index, desc_own } => {
            lemma_peeked(trace, len - 1 - index, index as int, fsm, desc_own, s.op(), reply);
        },
        StartPhase::Address { fsm, desc_own } => {
            lemma_peeked(trace, len - 1 - count, count, fsm, desc_own, s.op(), reply);
        },
        StartPhase::Announce { fsm, desc_own, .. } => {
            assert(after[len - 1] == trace[len - 1]);
            lemma_peeked(trace, len - 2 - count, count, fsm, desc_own, s.op(), reply);
        },
        _ => {},
    }
}

/// Before a transfer counts as running, its start is reported: with its command, the
/// state of the engine, whether the engine owns a descriptor, and the address of the
/// chain.
pub proof fn law_running_transfer_was_announced(
    context: IdmacTransferContext,
    replies: Seq<Reply>,
)
    ensures
        ({
            let done = run(
                Step::<StartTransfer, Started>::Next(StartTransfer::new(context)),
                replies,
            );
            done.at matches Step::Done(Started::Running(running)) ==> announced(
                done.trace,
                running,
            )
        }),
{
    let start = Step::<StartTransfer, Started>::Next(StartTransfer::new(context));
    let inv = |trace: Seq<(Op, Reply)>, at: Step<StartTransfer, Started>| announcement(trace, at);
    assert forall|trace: Seq<(Op, Reply)>, s: StartTransfer, reply: Reply|
        inv(trace, Step::Next(s)) implies #[trigger] inv(
        trace.push((s.op(), reply)),
        s.next(reply),
    ) by {
        lemma_announcement(trace, s, reply);
    }
    crate::io::lemma_run_invariant(start, replies, inv);
}

} // verus!
