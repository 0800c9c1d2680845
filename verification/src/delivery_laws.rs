//! How a DMA transfer is delivered: what is written to which register and to memory, and in
//! which order.

use vstd::prelude::*;

use crate::cmd::{DataPhase, Request};
use crate::dma::{chain_descriptor, descriptor_count};
use crate::io::{run, Machine, Op, Reply, Step, Until};
use crate::regs::Reg;
use crate::service_laws::{
    acknowledges_what_it_read, effects, has_effect, last_read, lemma_effects_push,
    lemma_take_next, reset_progress,
};
use crate::trace::{last_written, looks};
use crate::transfer::{
    FinishPhase, FinishTransfer, IdmacTransfer, IdmacTransferContext, Prepare, PreparePhase,
    StartPhase, StartTransfer, TransferEnd, TransferPhase, ValidatePhase, WaitMode,
};

verus! {

/// Bytes that the request moves.
pub open spec fn request_len(request: Request) -> usize {
    match request.data {
        DataPhase::Nothing => 0,
        DataPhase::Read(len) => len,
        DataPhase::Write(len) => len,
    }
}

/// Descriptors for so many bytes, each for up to 4096.
pub open spec fn chain_len(len: usize) -> int {
    (len + 4095) / 4096
}

/// Where the descriptors were granted last.
pub open spec fn granted(trace: Seq<(Op, Reply)>) -> Option<u64>
    decreases trace.len(),
{
    if trace.len() == 0 {
        None
    } else if trace.last().0 is AllocDescriptors {
        trace.last().1.address()
    } else {
        granted(trace.drop_last())
    }
}

/// The operations of a transfer that have an effect. Whatever is pending is acknowledged
/// and forgotten; the descriptors are allocated, stored and, after a fence, published with
/// the number of bytes; after another fence the transfer is begun, the argument written
/// and, behind a fence of its own, the command. An engine that has run out of descriptors
/// is told to look again. In the end the descriptors are read behind a fence and given back
/// behind another one.
#[verifier::opaque]
pub open spec fn delivery(request: Request, buffer: u32, descriptors: u32, resumed: bool) -> Seq<
    Op,
> {
    let len = request_len(request);
    seq![
        Op::Acknowledge(Reg::RIntSts),
        Op::ClearFlags,
        Op::AllocDescriptors(chain_len(len) as usize),
    ] + Seq::new(
        chain_len(len) as nat,
        |i: int|
            Op::StoreDescriptor(
                i as usize,
                chain_descriptor(i as usize, len, buffer, descriptors),
            ),
    ) + seq![
        Op::Fence,
        Op::Write(Reg::BytCnt, len as u32),
        Op::Write(Reg::DbAddr, descriptors),
        Op::Fence,
        Op::BeginTransfer,
        Op::Write(Reg::CmdArg, request.arg),
        Op::Fence,
        Op::Write(Reg::Cmd, request.kind.build_word().0),
        Op::Fence,
    ] + (if resumed {
        seq![Op::Write(Reg::PldMnd, 1), Op::Fence]
    } else {
        Seq::empty()
    }) + seq![Op::Fence, Op::Fence, Op::FreeDescriptors]
}

/// What aborts a transfer: all interrupts are masked, the engine is reset, and only then
/// the descriptors are given back, behind a fence; at last engine and interrupt line are
/// cut off.
#[verifier::opaque]
pub open spec fn abortion() -> Seq<Op> {
    seq![
        Op::Write(Reg::IntMask, 0),
        Op::Write(Reg::IdIntEn, 0),
        Op::Fence,
        Op::Update { reg: Reg::BMod, clear: 0x80, set: 0x1 },
        Op::Update { reg: Reg::Ctrl, clear: 0x0200_0000, set: 0x4 },
        Op::Fence,
        Op::Fence,
        Op::FreeDescriptors,
        Op::Update { reg: Reg::Ctrl, clear: 0x0200_0010, set: 0 },
        Op::Fence,
    ]
}

/// The engine was told to look again.
pub open spec fn resumed(trace: Seq<(Op, Reply)>) -> bool {
    last_written(trace, Reg::PldMnd) is Some
}

/// Once the command was taken, the engine had run out of descriptors, or had not.
pub open spec fn engine_seen(trace: Seq<(Op, Reply)>, i: int, starved: bool) -> bool {
    &&& 1 <= i < trace.len()
    &&& looks(trace[i - 1].0, Reg::Cmd)
    &&& trace[i].0 == Op::Read(Reg::IdSts)
    &&& starved == (trace[i].1.word() & 0x10 != 0)
}

/// The engine was seen like that.
#[verifier::opaque]
pub open spec fn engine_was_seen(trace: Seq<(Op, Reply)>, starved: bool) -> bool {
    exists|i: int| #[trigger] engine_seen(trace, i, starved)
}

/// Both statuses were read and then acknowledged.
pub open spec fn acknowledged(trace: Seq<(Op, Reply)>) -> bool {
    &&& last_read(trace, Reg::RIntSts) is Some
    &&& last_written(trace, Reg::RIntSts) == last_read(trace, Reg::RIntSts)
    &&& last_read(trace, Reg::IdSts) is Some
    &&& last_written(trace, Reg::IdSts) == last_read(trace, Reg::IdSts)
}

/// So much of a delivery was done, and nothing else.
#[verifier::opaque]
pub open spec fn delivered(
    request: Request,
    buffer: u32,
    trace: Seq<(Op, Reply)>,
    done: Seq<Op>,
) -> bool {
    let descriptors = granted(trace)->0 as u32;
    done == delivery(request, buffer, descriptors, resumed(trace)).take(done.len() as int)
}

/// How a transfer of a driver in order ended, by its trace. If it went well, the whole
/// delivery was made and both statuses were acknowledged. If not, it was refused before
/// any descriptor was stored, or it was aborted at some point; if the engine could not be
/// stopped then, its descriptors stay.
pub open spec fn delivery_told(
    request: Request,
    buffer: u32,
    trace: Seq<(Op, Reply)>,
    end: TransferEnd,
) -> bool {
    let all = effects(trace);
    let tail = if end.reset_failed {
        abortion().take(6)
    } else {
        abortion()
    };
    &&& acknowledges_what_it_read(trace)
    &&& match end.result {
        Ok(_) => {
            &&& !end.faulted && !end.reset_failed
            &&& granted(trace) is Some
            &&& all == delivery(request, buffer, granted(trace)->0 as u32, resumed(trace))
            &&& engine_was_seen(trace, resumed(trace))
            &&& acknowledged(trace)
        },
        Err(_) => if end.faulted {
            &&& acknowledged(trace)
            &&& all.len() >= tail.len()
            &&& all.skip(all.len() - tail.len()) == tail
            &&& delivered(request, buffer, trace, all.take(all.len() - tail.len()))
        } else if all.len() == 4 {
            &&& !end.reset_failed
            &&& all[3] == Op::FreeDescriptors
            &&& delivered(request, buffer, trace, all.take(3))
        } else {
            &&& !end.reset_failed
            &&& all.len() <= 3
            &&& delivered(request, buffer, trace, all)
        },
    }
}

/// How much of the delivery was done before it goes on here.
spec fn prepare_progress(p: Prepare) -> int {
    let count = chain_len(p.len);
    match p.phase {
        PreparePhase::StaleId => 1,
        PreparePhase::RereadId => 1,
        PreparePhase::ClearId { .. } => 1,
        PreparePhase::ClearFlags => 1,
        PreparePhase::Allocate => 2,
        PreparePhase::Release => 3,
        PreparePhase::Store { index, .. } => 3 + index,
        PreparePhase::StoreFence { .. } => 3 + count,
        PreparePhase::ByteCount { .. } => 4 + count,
        PreparePhase::ChainAddress { .. } => 5 + count,
        PreparePhase::PublishFence { .. } => 6 + count,
        PreparePhase::CheckAddress { .. } => 7 + count,
        PreparePhase::CheckByteCount { .. } => 7 + count,
        PreparePhase::CountOwned { .. } => 7 + count,
        _ => 0,
    }
}

/// The descriptors that are known here.
spec fn prepare_descriptors(p: Prepare) -> Option<u32> {
    match p.phase {
        PreparePhase::Store { descriptors, .. } => Some(descriptors),
        PreparePhase::StoreFence { descriptors } => Some(descriptors),
        PreparePhase::ByteCount { descriptors } => Some(descriptors),
        PreparePhase::ChainAddress { descriptors } => Some(descriptors),
        PreparePhase::PublishFence { descriptors } => Some(descriptors),
        PreparePhase::CheckAddress { descriptors } => Some(descriptors),
        PreparePhase::CheckByteCount { descriptors, .. } => Some(descriptors),
        PreparePhase::CountOwned { descriptors, .. } => Some(descriptors),
        _ => None,
    }
}

/// How much of the delivery was done before the start goes on here, beyond the chain.
spec fn start_progress(s: StartTransfer) -> int {
    match s.phase {
        StartPhase::Begin => 4,
        StartPhase::WriteArg => 5,
        StartPhase::ArgFence => 6,
        StartPhase::WriteCmd => 7,
        StartPhase::CmdFence => 8,
        StartPhase::ResumeFence => 10,
        _ => 9,
    }
}

/// The context is that of the request.
spec fn fits(
    request: Request,
    trace: Seq<(Op, Reply)>,
    context: IdmacTransferContext,
) -> bool {
    &&& context.cmd == request.kind.build_word()
    &&& context.arg == request.arg
    &&& context.descriptor_count == descriptor_count(request_len(request))
    &&& granted(trace) is Some
    &&& granted(trace)->0 == context.descriptors
}

/// Operations that telling the engine to look again adds.
spec fn extra(trace: Seq<(Op, Reply)>) -> int {
    if resumed(trace) {
        2
    } else {
        0
    }
}

/// How much of the abort was done before it goes on here.
spec fn abort_progress(f: FinishTransfer) -> int {
    match f.phase {
        FinishPhase::MaskController => 0,
        FinishPhase::MaskEngine => 1,
        FinishPhase::MaskFence => 2,
        FinishPhase::Reset(reset) => 3 + reset_progress(reset),
        FinishPhase::ReadRaw => 6,
        FinishPhase::ReadId { .. } => 6,
        FinishPhase::ClearRaw { .. } => 6,
        FinishPhase::ClearId { .. } => 6,
        FinishPhase::Fence => 6,
        FinishPhase::Free => 7,
        FinishPhase::Disconnect => 8,
        FinishPhase::DisconnectFence => 9,
    }
}

/// What the end of a transfer knows of the statuses.
spec fn finish_knows(trace: Seq<(Op, Reply)>, f: FinishTransfer) -> bool {
    match f.phase {
        FinishPhase::ReadId { rintsts } => last_read(trace, Reg::RIntSts) == Some(rintsts),
        FinishPhase::ClearRaw { rintsts, idsts } => {
            &&& last_read(trace, Reg::RIntSts) == Some(rintsts)
            &&& last_read(trace, Reg::IdSts) == Some(idsts)
        },
        FinishPhase::ClearId { idsts } => {
            &&& last_read(trace, Reg::RIntSts) is Some
            &&& last_written(trace, Reg::RIntSts) == last_read(trace, Reg::RIntSts)
            &&& last_read(trace, Reg::IdSts) == Some(idsts)
        },
        FinishPhase::Fence => acknowledged(trace),
        FinishPhase::Free => acknowledged(trace),
        FinishPhase::Disconnect => acknowledged(trace),
        FinishPhase::DisconnectFence => acknowledged(trace),
        _ => true,
    }
}

/// Where a transfer stands, by its trace.
spec fn delivering(
    request: Request,
    buffer: u32,
    trace: Seq<(Op, Reply)>,
    at: Step<IdmacTransfer, TransferEnd>,
) -> bool {
    let n = trace.len() as int;
    let all = effects(trace);
    let len = request_len(request);
    let chain = 3 + chain_len(len);
    match at {
        Step::Done(end) => delivery_told(request, buffer, trace, end),
        Step::Next(t) => acknowledges_what_it_read(trace) && match t.phase {
            TransferPhase::Prepare(p) => {
                &&& p.request == request && p.len == len && p.buffer == buffer
                &&& !resumed(trace)
                &&& all.len() == prepare_progress(p) && delivered(request, buffer, trace, all)
                &&& prepare_descriptors(p) matches Some(descriptors) ==> granted(trace) is Some
                    && granted(trace)->0 == descriptors
                &&& p.phase matches PreparePhase::Store { index, .. } ==> index < chain_len(len)
                &&& p.phase matches PreparePhase::ClearId { idsts } ==> last_read(
                    trace,
                    Reg::IdSts,
                ) == Some(idsts)
            },
            TransferPhase::Start(s) => {
                let later = s.phase is EngineCheck || s.phase is State || s.phase is Owned
                    || s.phase is Address || s.phase is Announce;
                &&& fits(request, trace, s.context)
                &&& all.len() == chain + start_progress(s) + (if later {
                    extra(trace)
                } else {
                    0
                })
                &&& delivered(request, buffer, trace, all)
                &&& resumed(trace) == (s.phase is ResumeFence || (later && resumed(trace)))
                &&& s.phase is Engine ==> n >= 1 && looks(trace[n - 1].0, Reg::Cmd)
                &&& s.phase is RereadId || s.phase is ClearId || s.phase is Resume || s.phase
                    is ResumeFence ==> engine_was_seen(trace, true)
                &&& later ==> engine_was_seen(trace, resumed(trace))
                &&& s.phase matches StartPhase::ClearId { idsts } ==> last_read(trace, Reg::IdSts)
                    == Some(idsts)
            },
            TransferPhase::Wait(w) => {
                &&& fits(request, trace, w.context)
                &&& all.len() == chain + 9 + extra(trace) && delivered(request, buffer, trace, all)
                &&& engine_was_seen(trace, resumed(trace))
            },
            TransferPhase::Validate(v) => {
                &&& fits(request, trace, v.context)
                &&& all.len() == chain + 9 + extra(trace) + (if v.phase is Status || v.phase
                    is Fence {
                    0int
                } else {
                    1
                })
                &&& delivered(request, buffer, trace, all)
                &&& engine_was_seen(trace, resumed(trace))
            },
            TransferPhase::Response(context) => {
                &&& granted(trace) is Some
                &&& all.len() == chain + 10 + extra(trace) && delivered(request, buffer, trace, all)
                &&& engine_was_seen(trace, resumed(trace))
            },
            TransferPhase::Finish { finish, result } => {
                &&& finish_knows(trace, finish)
                &&& if finish.abort {
                    let done = abort_progress(finish);
                    &&& result is Err
                    &&& all.len() >= done
                    &&& all.skip(all.len() - done) == abortion().take(done)
                    &&& delivered(request, buffer, trace, all.take(all.len() - done))
                    &&& finish.stuck ==> abort_progress(finish) == 6 && !(finish.phase is Fence)
                } else {
                    &&& result is Ok && !finish.stuck
                    &&& granted(trace) is Some
                    &&& all.len() == chain + 10 + extra(trace) + (if finish.phase is Free {
                        1int
                    } else {
                        0
                    })
                    &&& finish.phase is ReadRaw || finish.phase is ReadId || finish.phase
                        is ClearRaw || finish.phase is ClearId || finish.phase is Fence
                        || finish.phase is Free
                    &&& delivered(request, buffer, trace, all)
                    &&& engine_was_seen(trace, resumed(trace))
                }
            },
        },
    }
}

/// The entries of a delivery.
proof fn lemma_delivery(request: Request, buffer: u32, descriptors: u32, starved: bool)
    ensures
        ({
            let list = delivery(request, buffer, descriptors, starved);
            let len = request_len(request);
            let chain = 3 + chain_len(len);
            let more = if starved {
                2int
            } else {
                0
            };
            &&& list.len() == chain + 12 + more
            &&& list[0] == Op::Acknowledge(Reg::RIntSts)
            &&& list[1] == Op::ClearFlags
            &&& list[2] == Op::AllocDescriptors(chain_len(len) as usize)
            &&& forall|i: int|
                3 <= i < chain ==> #[trigger] list[i] == Op::StoreDescriptor(
                    (i - 3) as usize,
                    chain_descriptor((i - 3) as usize, len, buffer, descriptors),
                )
            &&& list[chain] == Op::Fence
            &&& list[chain + 1] == Op::Write(Reg::BytCnt, len as u32)
            &&& list[chain + 2] == Op::Write(Reg::DbAddr, descriptors)
            &&& list[chain + 3] == Op::Fence
            &&& list[chain + 4] == Op::BeginTransfer
            &&& list[chain + 5] == Op::Write(Reg::CmdArg, request.arg)
            &&& list[chain + 6] == Op::Fence
            &&& list[chain + 7] == Op::Write(Reg::Cmd, request.kind.build_word().0)
            &&& list[chain + 8] == Op::Fence
            &&& starved ==> list[chain + 9] == Op::Write(Reg::PldMnd, 1) && list[chain + 10]
                == Op::Fence
            &&& list[chain + 9 + more] == Op::Fence
            &&& list[chain + 10 + more] == Op::Fence
            &&& list[chain + 11 + more] == Op::FreeDescriptors
        }),
{
    reveal(delivery);
}

/// Deliveries agree up to where they may differ.
proof fn lemma_common(request: Request, buffer: u32, a: u32, b: u32, x: bool, y: bool, k: int)
    requires
        0 <= k <= 3 || (a == b && 0 <= k <= 12 + chain_len(request_len(request))),
    ensures
        delivery(request, buffer, a, x).take(k) == delivery(request, buffer, b, y).take(k),
{
    lemma_delivery(request, buffer, a, x);
    lemma_delivery(request, buffer, b, y);
    assert(delivery(request, buffer, a, x).take(k) =~= delivery(request, buffer, b, y).take(k));
}

/// What one more operation makes of the accounts.
proof fn lemma_accounts(trace: Seq<(Op, Reply)>, op: Op, reply: Reply)
    ensures
        ({
            let after = trace.push((op, reply));
            &&& granted(after) == (if op is AllocDescriptors {
                reply.address()
            } else {
                granted(trace)
            })
            &&& forall|reg: Reg| #[trigger]
                last_written(after, reg) == (match op {
                    Op::Write(r, word) => if r == reg {
                        Some(word)
                    } else {
                        last_written(trace, reg)
                    },
                    _ => last_written(trace, reg),
                })
            &&& forall|starved: bool| #[trigger]
                engine_was_seen(trace, starved) ==> engine_was_seen(after, starved)
            &&& trace.len() >= 1 && looks(trace.last().0, Reg::Cmd) && op == Op::Read(Reg::IdSts)
                ==> engine_was_seen(after, reply.word() & 0x10 != 0)
        }),
{
    reveal(engine_was_seen);
    let after = trace.push((op, reply));
    assert(after.drop_last() =~= trace);
    assert forall|starved: bool| #[trigger] engine_was_seen(trace, starved) implies engine_was_seen(
        after,
        starved,
    ) by {
        let i = choose|i: int| #[trigger] engine_seen(trace, i, starved);
        assert(engine_seen(after, i, starved));
    }
    if trace.len() >= 1 && looks(trace.last().0, Reg::Cmd) && op == Op::Read(Reg::IdSts) {
        assert(engine_seen(after, trace.len() as int, reply.word() & 0x10 != 0));
    }
}

/// The delivery goes on, or stays as it is.
proof fn lemma_delivered(
    request: Request,
    buffer: u32,
    trace: Seq<(Op, Reply)>,
    op: Op,
    reply: Reply,
    done: Seq<Op>,
)
    requires
        delivered(request, buffer, trace, done),
    ensures
        ({
            let after = trace.push((op, reply));
            let k = done.len() as int;
            let list = delivery(request, buffer, granted(after)->0 as u32, resumed(after));
            &&& granted(after) == granted(trace) && resumed(after) == resumed(trace) ==> delivered(
                request,
                buffer,
                after,
                done,
            )
            &&& {
                &&& granted(after) == granted(trace) || k <= 2
                &&& resumed(after) == resumed(trace) || k <= 12 + chain_len(request_len(request))
                &&& k < list.len() && list[k] == op
            } ==> delivered(request, buffer, after, done.push(op))
        }),
{
    reveal(delivered);
    let after = trace.push((op, reply));
    let k = done.len() as int;
    let list = delivery(request, buffer, granted(after)->0 as u32, resumed(after));
    if {
        &&& granted(after) == granted(trace) || k <= 2
        &&& resumed(after) == resumed(trace) || k <= 12 + chain_len(request_len(request))
        &&& k < list.len() && list[k] == op
    } {
        if k <= 12 + chain_len(request_len(request)) {
            lemma_common(
                request,
                buffer,
                granted(trace)->0 as u32,
                granted(after)->0 as u32,
                resumed(trace),
                resumed(after),
                k,
            );
        }
        lemma_take_next(list, k);
    }
}

proof fn lemma_prepare(
    request: Request,
    buffer: u32,
    trace: Seq<(Op, Reply)>,
    t: IdmacTransfer,
    reply: Reply,
)
    requires
        t.phase is Prepare,
        delivering(request, buffer, trace, Step::Next(t)),
    ensures
        delivering(request, buffer, trace.push((t.op(), reply)), t.next(reply)),
{
    let after = trace.push((t.op(), reply));
    let all = effects(trace);
    lemma_effects_push(trace, t.op(), reply);
    lemma_accounts(trace, t.op(), reply);
    lemma_delivered(request, buffer, trace, t.op(), reply, all);
    lemma_delivery(request, buffer, granted(after)->0 as u32, resumed(after));
    assert(abortion().take(0) =~= Seq::empty());
    assert(effects(after).skip(effects(after).len() as int) =~= Seq::empty());
    assert(effects(after).take(effects(after).len() as int) =~= effects(after));
    if let TransferPhase::Prepare(p) = t.phase {
        if p.phase is Release {
            assert(effects(after).take(3) =~= all);
        }
    }
}

proof fn lemma_start(
    request: Request,
    buffer: u32,
    trace: Seq<(Op, Reply)>,
    t: IdmacTransfer,
    reply: Reply,
)
    requires
        t.phase is Start,
        delivering(request, buffer, trace, Step::Next(t)),
    ensures
        delivering(request, buffer, trace.push((t.op(), reply)), t.next(reply)),
{
    let after = trace.push((t.op(), reply));
    let all = effects(trace);
    lemma_effects_push(trace, t.op(), reply);
    lemma_accounts(trace, t.op(), reply);
    lemma_delivered(request, buffer, trace, t.op(), reply, all);
    lemma_delivery(request, buffer, granted(after)->0 as u32, resumed(after));
    assert(abortion().take(0) =~= Seq::empty());
    assert(effects(after).skip(effects(after).len() as int) =~= Seq::empty());
    assert(effects(after).take(effects(after).len() as int) =~= effects(after));
}

proof fn lemma_wait(
    request: Request,
    buffer: u32,
    trace: Seq<(Op, Reply)>,
    t: IdmacTransfer,
    reply: Reply,
)
    requires
        t.phase is Wait || t.phase is Validate || t.phase is Response,
        delivering(request, buffer, trace, Step::Next(t)),
    ensures
        delivering(request, buffer, trace.push((t.op(), reply)), t.next(reply)),
{
    let after = trace.push((t.op(), reply));
    let all = effects(trace);
    lemma_effects_push(trace, t.op(), reply);
    lemma_accounts(trace, t.op(), reply);
    lemma_delivered(request, buffer, trace, t.op(), reply, all);
    lemma_delivery(request, buffer, granted(after)->0 as u32, resumed(after));
    assert(abortion().take(0) =~= Seq::empty());
    assert(effects(after).skip(effects(after).len() as int) =~= Seq::empty());
    assert(effects(after).take(effects(after).len() as int) =~= effects(after));
}

/// An abort goes on with the next operation that has an effect.
proof fn lemma_abort_next(f: FinishTransfer, all: Seq<Op>)
    requires
        f.abort,
        all.len() >= abort_progress(f),
        all.skip(all.len() - abort_progress(f)) == abortion().take(abort_progress(f)),
    ensures
        abortion().len() == 10,
        has_effect(f.op()) ==> {
            let more = all.push(f.op());
            &&& more.skip(all.len() - abort_progress(f)) == abortion().take(abort_progress(f) + 1)
            &&& more.take(all.len() - abort_progress(f)) == all.take(
                all.len() - abort_progress(f),
            )
        },
{
    reveal(abortion);
    assert(0x0200_0000u32 | 0x10 == 0x0200_0010) by (bit_vector);
    if has_effect(f.op()) {
        let k = abort_progress(f);
        let more = all.push(f.op());
        assert(abortion()[k] == f.op());
        lemma_take_next(abortion(), k);
        assert(more.skip(all.len() - k) =~= all.skip(all.len() - k).push(f.op()));
        assert(more.take(all.len() - k) =~= all.take(all.len() - k));
    }
}

proof fn lemma_finish(
    request: Request,
    buffer: u32,
    trace: Seq<(Op, Reply)>,
    t: IdmacTransfer,
    reply: Reply,
)
    requires
        t.phase is Finish,
        delivering(request, buffer, trace, Step::Next(t)),
    ensures
        delivering(request, buffer, trace.push((t.op(), reply)), t.next(reply)),
{
    let after = trace.push((t.op(), reply));
    let all = effects(trace);
    lemma_effects_push(trace, t.op(), reply);
    lemma_accounts(trace, t.op(), reply);
    if let TransferPhase::Finish { finish, .. } = t.phase {
        if finish.abort {
            lemma_delivered(
                request,
                buffer,
                trace,
                t.op(),
                reply,
                all.take(all.len() - abort_progress(finish)),
            );
            lemma_abort_next(finish, all);
            assert(abortion().take(10) =~= abortion());
        } else {
            lemma_delivered(request, buffer, trace, t.op(), reply, all);
            lemma_delivery(request, buffer, granted(after)->0 as u32, resumed(after));
            if finish.phase is Free {
                reveal(delivered);
                let list = delivery(request, buffer, granted(after)->0 as u32, resumed(after));
                assert(list.take(list.len() as int) =~= list);
            }
        }
    }
}

/// A transfer keeps to its script: every register gets what it should, in order, with the
/// fences that keep the order; a transfer that ends well has done all of it, one that does
/// not has done a part and then what aborts it.
pub proof fn law_delivery_keeps_to_its_script(
    mode: WaitMode,
    request: Request,
    buffer: u32,
    replies: Seq<Reply>,
)
    ensures
        ({
            let done = run(IdmacTransfer::start(mode, false, request, buffer), replies);
            done.at matches Step::Done(end) ==> delivery_told(request, buffer, done.trace, end)
        }),
{
    let start = IdmacTransfer::start(mode, false, request, buffer);
    let inv = |trace: Seq<(Op, Reply)>, at: Step<IdmacTransfer, TransferEnd>|
        delivering(request, buffer, trace, at);
    assert(inv(Seq::empty(), start)) by {
        reveal(delivered);
        let none = Seq::<(Op, Reply)>::empty();
        let list = delivery(request, buffer, granted(none)->0 as u32, resumed(none));
        assert(list.take(0) =~= Seq::empty());
        assert(last_written(none, Reg::PldMnd) is None);
    }
    assert forall|trace: Seq<(Op, Reply)>, t: IdmacTransfer, reply: Reply|
        inv(trace, Step::Next(t)) implies #[trigger] inv(
        trace.push((t.op(), reply)),
        t.next(reply),
    ) by {
        match t.phase {
            TransferPhase::Prepare(_) => lemma_prepare(request, buffer, trace, t, reply),
            TransferPhase::Start(_) => lemma_start(request, buffer, trace, t, reply),
            TransferPhase::Finish { .. } => lemma_finish(request, buffer, trace, t, reply),
            _ => lemma_wait(request, buffer, trace, t, reply),
        }
    }
    crate::io::lemma_run_invariant(start, replies, inv);
}

/// The generation with which the transfer was begun.
pub open spec fn begun_as(trace: Seq<(Op, Reply)>) -> Option<usize>
    decreases trace.len(),
{
    if trace.len() == 0 {
        None
    } else if trace.last().0 is BeginTransfer {
        Some(trace.last().1.generation())
    } else {
        begun_as(trace.drop_last())
    }
}

/// A transfer looks at, and sleeps for, events of its own generation: for the end of its
/// command two seconds, for the end of its data five. It reads no descriptor but its own.
pub open spec fn looks_at_its_own(
    request: Request,
    mode: WaitMode,
    trace: Seq<(Op, Reply)>,
    op: Op,
) -> bool {
    match op {
        Op::Observe(generation) => begun_as(trace) == Some(generation),
        Op::Await { until, generation, timeout } => {
            &&& mode is Async && begun_as(trace) == Some(generation)
            &&& match until {
                Until::CommandDone => timeout == 2_000_000_000,
                Until::Terminal(cmd) => cmd == request.kind.build_word() && timeout
                    == 5_000_000_000,
            }
        },
        Op::LoadDes0(index) => index < chain_len(request_len(request)),
        Op::PeekDes0(index) => index < chain_len(request_len(request)),
        _ => true,
    }
}

spec fn of_generation(
    request: Request,
    trace: Seq<(Op, Reply)>,
    context: IdmacTransferContext,
) -> bool {
    &&& begun_as(trace) == Some(context.generation)
    &&& context.cmd == request.kind.build_word()
    &&& context.descriptor_count == chain_len(request_len(request))
    &&& context.descriptor_count > 0
}

/// Where a transfer stands, as far as its generation goes.
spec fn keeping_to_itself(
    request: Request,
    mode: WaitMode,
    trace: Seq<(Op, Reply)>,
    at: Step<IdmacTransfer, TransferEnd>,
) -> bool {
    let count = chain_len(request_len(request));
    at matches Step::Next(t) ==> t.mode == mode && match t.phase {
        TransferPhase::Prepare(p) => {
            &&& p.request == request && p.len == request_len(request)
            &&& p.phase matches PreparePhase::Store { index, .. } ==> index < count
            &&& p.phase matches PreparePhase::CountOwned { index, .. } ==> index < count
            &&& p.phase is StoreFence || p.phase is ByteCount || p.phase is ChainAddress || p.phase
                is PublishFence || p.phase is CheckAddress || p.phase is CheckByteCount ==> count
                > 0
            &&& p.phase is Allocate ==> count > 0
        },
        TransferPhase::Start(s) => {
            &&& s.context.cmd == request.kind.build_word()
            &&& s.context.descriptor_count == count && count > 0
            &&& !(s.phase is Begin) ==> of_generation(request, trace, s.context)
            &&& s.phase matches StartPhase::Owned { index, .. } ==> index < count
        },
        TransferPhase::Wait(w) => of_generation(request, trace, w.context) && w.mode == mode && (
        w.phase is CommandAwait || w.phase is DataAwait ==> mode is Async),
        TransferPhase::Validate(v) => {
            &&& of_generation(request, trace, v.context)
            &&& v.phase matches ValidatePhase::Owned { index, .. } ==> index < count
            &&& v.phase matches ValidatePhase::CardError { index, .. } ==> index < count
        },
        _ => true,
    }
}

proof fn lemma_keeping_to_itself(
    request: Request,
    mode: WaitMode,
    trace: Seq<(Op, Reply)>,
    t: IdmacTransfer,
    reply: Reply,
)
    requires
        keeping_to_itself(request, mode, trace, Step::Next(t)),
    ensures
        keeping_to_itself(request, mode, trace.push((t.op(), reply)), t.next(reply)),
        looks_at_its_own(request, mode, trace, t.op()),
{
    assert(trace.push((t.op(), reply)).drop_last() =~= trace);
}

/// Whatever happens, a transfer looks only at events of its own generation and at its own
/// descriptors, and sleeps no longer than it may.
pub proof fn law_transfer_looks_at_its_own_events(
    mode: WaitMode,
    faulted: bool,
    request: Request,
    buffer: u32,
    replies: Seq<Reply>,
)
    ensures
        ({
            let done = run(IdmacTransfer::start(mode, faulted, request, buffer), replies);
            done.at matches Step::Next(t) ==> looks_at_its_own(request, mode, done.trace, t.op())
        }),
{
    let start = IdmacTransfer::start(mode, faulted, request, buffer);
    let inv = |trace: Seq<(Op, Reply)>, at: Step<IdmacTransfer, TransferEnd>|
        keeping_to_itself(request, mode, trace, at);
    assert forall|trace: Seq<(Op, Reply)>, t: IdmacTransfer, reply: Reply|
        inv(trace, Step::Next(t)) implies #[trigger] inv(
        trace.push((t.op(), reply)),
        t.next(reply),
    ) by {
        lemma_keeping_to_itself(request, mode, trace, t, reply);
    }
    crate::io::lemma_run_invariant(start, replies, inv);
    let done = run(start, replies);
    if let Step::Next(t) = done.at {
        lemma_keeping_to_itself(request, mode, done.trace, t, Reply::Done);
    }
}

} // verus!
