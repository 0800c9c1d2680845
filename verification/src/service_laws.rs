//! How the DMA engine comes into service: what is written to which register, and in which
//! order.

use vstd::prelude::*;

use crate::enable::{
    AHBDataWidth, EnableEnd, EnableIdmac, EnableOutcome, EnablePhase, IdmacState,
};
use crate::error::SdMmcResult;
use crate::init::Init;
use crate::io::{run, Machine, Op, Reply, Step};
use crate::regs::Reg;
use crate::sdmmc::{Started, Startup, StartupPhase};
use crate::trace::last_written;
use crate::transfer::{ResetIdmac, ResetPhase};

verus! {

/// The operation has an effect on the controller, on memory or on the driver's records, and
/// is no acknowledgement of a status that was read.
pub open spec fn has_effect(op: Op) -> bool {
    match op {
        Op::Write(reg, _) => reg != Reg::RIntSts && reg != Reg::IdSts,
        Op::Acknowledge(_) => true,
        Op::Update { .. } => true,
        Op::Fence => true,
        Op::ClearFlags => true,
        Op::BeginTransfer => true,
        Op::AllocDescriptors(_) => true,
        Op::StoreDescriptor(_, _) => true,
        Op::FreeDescriptors => true,
        Op::AllocBuffer { .. } => true,
        Op::FreeBuffer { .. } => true,
        Op::RegisterIrq => true,
        Op::CopyIn { .. } => true,
        Op::CopyOut { .. } => true,
        _ => false,
    }
}

/// The operations of a trace that have an effect, in order.
pub open spec fn effects(trace: Seq<(Op, Reply)>) -> Seq<Op>
    decreases trace.len(),
{
    if trace.len() == 0 {
        Seq::empty()
    } else if has_effect(trace.last().0) {
        effects(trace.drop_last()).push(trace.last().0)
    } else {
        effects(trace.drop_last())
    }
}

/// What a register held when it was read last.
pub open spec fn last_read(trace: Seq<(Op, Reply)>, reg: Reg) -> Option<u32>
    decreases trace.len(),
{
    if trace.len() == 0 {
        None
    } else if trace.last().0 == Op::Read(reg) {
        Some(trace.last().1.word())
    } else {
        last_read(trace.drop_last(), reg)
    }
}

/// A status is acknowledged with what was read of it last.
pub open spec fn acknowledges_what_it_read(trace: Seq<(Op, Reply)>) -> bool
    decreases trace.len(),
{
    trace.len() == 0 || {
        let before = trace.drop_last();
        &&& acknowledges_what_it_read(before)
        &&& trace.last().0 matches Op::Write(reg, word) ==> (reg == Reg::RIntSts || reg
            == Reg::IdSts ==> last_read(before, reg) == Some(word))
    }
}

/// What one more operation makes of these accounts.
pub proof fn lemma_effects_push(trace: Seq<(Op, Reply)>, op: Op, reply: Reply)
    ensures
        ({
            let after = trace.push((op, reply));
            &&& after.drop_last() == trace
            &&& after.last() == (op, reply)
            &&& effects(after) == (if has_effect(op) {
                effects(trace).push(op)
            } else {
                effects(trace)
            })
            &&& forall|reg: Reg| #[trigger]
                last_read(after, reg) == (if op == Op::Read(reg) {
                    Some(reply.word())
                } else {
                    last_read(trace, reg)
                })
            &&& acknowledges_what_it_read(after) == (acknowledges_what_it_read(trace) && (
            op matches Op::Write(reg, word) ==> (reg == Reg::RIntSts || reg == Reg::IdSts
                ==> last_read(trace, reg) == Some(word))))
        }),
{
    assert(trace.push((op, reply)).drop_last() =~= trace);
}

/// A list grows by its next entry.
pub proof fn lemma_take_next(list: Seq<Op>, k: int)
    requires
        0 <= k < list.len(),
    ensures
        list.take(k).push(list[k]) == list.take(k + 1),
{
    assert(list.take(k).push(list[k]) =~= list.take(k + 1));
}

/// Bytes to which the buffer is aligned: the width of the bus, which bits 9 to 7 of the
/// hardware configuration give.
pub open spec fn bus_bytes(configuration: u32) -> int {
    let code = (configuration >> 7u32) & 7u32;
    if code == 0 {
        2
    } else if code == 1 {
        4
    } else {
        8
    }
}

/// What brings the engine into service: all interrupts are masked and their line is cut
/// off, the engine is reset, it gets its buffer and its handler; then its bus mode is set
/// and it is connected together with the line, and at last the interrupts are enabled, the
/// engine's own before those of the controller. Fences stand where the order matters.
#[verifier::opaque]
pub open spec fn service(size: usize, align: usize) -> Seq<Op> {
    seq![
        Op::Write(Reg::IntMask, 0),
        Op::Write(Reg::IdIntEn, 0),
        Op::Update { reg: Reg::Ctrl, clear: 0x10, set: 0 },
        Op::Fence,
        Op::Update { reg: Reg::BMod, clear: 0x80, set: 0x1 },
        Op::Update { reg: Reg::Ctrl, clear: 0x0200_0000, set: 0x4 },
        Op::Fence,
        Op::AllocBuffer { size, align },
        Op::RegisterIrq,
        Op::Update { reg: Reg::BMod, clear: 0x7c, set: 0x82 },
        Op::Fence,
        Op::Update { reg: Reg::Ctrl, clear: 0, set: 0x0200_0010 },
        Op::Fence,
        Op::Write(Reg::IdIntEn, 0x337),
        Op::Write(Reg::IntMask, 0xdfca),
    ]
}

/// What undoes that: all interrupts are masked, engine and line are cut off, the engine is
/// reset, and its buffer is given back.
#[verifier::opaque]
pub open spec fn withdrawal(size: usize, align: usize) -> Seq<Op> {
    seq![
        Op::Write(Reg::IntMask, 0),
        Op::Write(Reg::IdIntEn, 0),
        Op::Update { reg: Reg::Ctrl, clear: 0x0200_0010, set: 0 },
        Op::Fence,
        Op::Update { reg: Reg::BMod, clear: 0x80, set: 0x1 },
        Op::Update { reg: Reg::Ctrl, clear: 0x0200_0000, set: 0x4 },
        Op::Fence,
        Op::FreeBuffer { size, align },
    ]
}

/// How far the service gets before it ends like this.
pub open spec fn reached(outcome: EnableOutcome) -> int {
    match outcome {
        EnableOutcome::UnsupportedWidth(_) => 4,
        EnableOutcome::ResetFailed => 7,
        EnableOutcome::InvalidLayout => 7,
        EnableOutcome::AllocationFailed => 8,
        EnableOutcome::IrqRefused => 9,
        EnableOutcome::BusMode => 11,
        EnableOutcome::Control => 13,
        EnableOutcome::Abnormal => 13,
        EnableOutcome::Enabled { .. } => 15,
    }
}

/// The buffer was there already when this went wrong.
pub open spec fn to_be_withdrawn(outcome: EnableOutcome) -> bool {
    9 <= reached(outcome) <= 13
}

/// The reply that shows what went wrong.
pub open spec fn shows(trace: Seq<(Op, Reply)>, i: int, outcome: EnableOutcome) -> bool {
    let word = trace[i].1.word();
    &&& 0 <= i < trace.len()
    &&& match outcome {
        EnableOutcome::IrqRefused => trace[i].0 == Op::RegisterIrq && !trace[i].1.flag(),
        EnableOutcome::BusMode => {
            &&& i >= 2
            &&& trace[i - 2].0 == (Op::Update { reg: Reg::BMod, clear: 0x7c, set: 0x82 })
            &&& trace[i - 1].0 == Op::Fence
            &&& trace[i].0 == Op::Read(Reg::BMod) && word & 0xfe != 0x82
        },
        EnableOutcome::Control => {
            &&& i >= 2
            &&& trace[i - 2].0 == (Op::Update { reg: Reg::Ctrl, clear: 0, set: 0x0200_0010 })
            &&& trace[i - 1].0 == Op::Fence
            &&& trace[i].0 == Op::Read(Reg::Ctrl) && word & 0x0200_0010 != 0x0200_0010
        },
        EnableOutcome::Abnormal => {
            &&& i >= 1
            &&& trace[i - 1].0 == Op::Read(Reg::Ctrl)
            &&& trace[i - 1].1.word() & 0x0200_0010 == 0x0200_0010
            &&& trace[i].0 == Op::Read(Reg::IdSts) && word & 0x214 != 0
        },
        _ => false,
    }
}

/// Some reply shows what went wrong.
#[verifier::opaque]
pub open spec fn shown(trace: Seq<(Op, Reply)>, outcome: EnableOutcome) -> bool {
    exists|i: int| #[trigger] shows(trace, i, outcome)
}

proof fn lemma_shown(trace: Seq<(Op, Reply)>, op: Op, reply: Reply, outcome: EnableOutcome)
    ensures
        shown(trace, outcome) ==> shown(trace.push((op, reply)), outcome),
        shows(trace.push((op, reply)), trace.len() as int, outcome) ==> shown(
            trace.push((op, reply)),
            outcome,
        ),
{
    reveal(shown);
    if shown(trace, outcome) {
        let i = choose|i: int| #[trigger] shows(trace, i, outcome);
        assert(shows(trace.push((op, reply)), i, outcome));
    }
}

/// What was pending of either status was acknowledged.
pub open spec fn settled(trace: Seq<(Op, Reply)>) -> bool {
    &&& last_read(trace, Reg::RIntSts) matches Some(raw) && (raw & 0xfffa == 0 || last_written(
        trace,
        Reg::RIntSts,
    ) == Some(raw))
    &&& last_read(trace, Reg::IdSts) matches Some(id) && (id & 0x337 == 0 || last_written(
        trace,
        Reg::IdSts,
    ) == Some(id))
}

/// How the attempt went, by its trace. The engine is in service only if its bus mode and
/// its connection were read back as they were set and it reported nothing abnormal; what
/// is said of its interrupts is what the last looks have shown.
pub open spec fn enable_told(
    buf_size: usize,
    expected: AHBDataWidth,
    trace: Seq<(Op, Reply)>,
    end: EnableEnd,
) -> bool {
    let n = trace.len() as int;
    let configuration = last_read(trace, Reg::HCon)->0;
    let align = bus_bytes(configuration) as usize;
    let done = service(buf_size, align).take(reached(end.outcome));
    let undone = withdrawal(buf_size, align);
    &&& n >= 1
    &&& last_read(trace, Reg::HCon) is Some
    &&& acknowledges_what_it_read(trace)
    &&& if to_be_withdrawn(end.outcome) {
        &&& shown(trace, end.outcome)
        &&& effects(trace) == done + undone || effects(trace) == done + undone.take(7)
        &&& end.state.buffer is None ==> effects(trace) == done + undone
    } else {
        effects(trace) == done
    }
    &&& match end.outcome {
        EnableOutcome::UnsupportedWidth(code) => code == (configuration >> 7u32) & 7u32 && code > 2,
        _ => {
            &&& (configuration >> 7u32) & 7u32 <= 2
            &&& end.state.data_width.align_value() == bus_bytes(configuration)
            &&& end.width_corrected == (end.state.data_width != expected)
        },
    }
    &&& match end.outcome {
        EnableOutcome::Enabled { engine_interrupts, controller_interrupts, quiet } => {
            &&& n >= 7
            &&& last_read(trace, Reg::BMod)->0 & 0xfe == 0x82
            &&& trace[n - 7].0 == Op::Read(Reg::Ctrl)
            &&& trace[n - 7].1.word() & 0x0200_0010 == 0x0200_0010
            &&& trace[n - 6].0 == Op::Read(Reg::IdSts) && trace[n - 6].1.word() & 0x214 == 0
            &&& trace[n - 3].0 == Op::Read(Reg::IdIntEn)
            &&& engine_interrupts == (trace[n - 3].1.word() & 0x337 == 0x337)
            &&& trace[n - 2].0 == Op::Read(Reg::IntMask)
            &&& controller_interrupts == (trace[n - 2].1.word() & 0xfffe == 0xdfca)
            &&& trace[n - 1].0 == Op::Read(Reg::IdSts)
            &&& quiet == (trace[n - 1].1.word() & 0x214 == 0)
        },
        EnableOutcome::AllocationFailed => trace[n - 1].0 is AllocBuffer && trace[n
            - 1].1.address() is None,
        _ => true,
    }
}

/// How far the service has got before it goes on here.
spec fn progress(m: EnableIdmac) -> int {
    match m.phase {
        EnablePhase::MaskController => 0,
        EnablePhase::MaskEngine => 1,
        EnablePhase::MaskLine => 2,
        EnablePhase::MaskFence => 3,
        EnablePhase::Configuration => 4,
        EnablePhase::Reset(reset) => 4 + reset_progress(reset),
        EnablePhase::Allocate => 7,
        EnablePhase::RegisterIrq => 8,
        EnablePhase::StaleRaw => 9,
        EnablePhase::StaleId { .. } => 9,
        EnablePhase::ClearRaw { .. } => 9,
        EnablePhase::RereadId => 9,
        EnablePhase::ClearId { .. } => 9,
        EnablePhase::BusMode => 9,
        EnablePhase::BusModeFence => 10,
        EnablePhase::CheckBusMode => 11,
        EnablePhase::BusModeStatus { .. } => 11,
        EnablePhase::BusModeReport { .. } => 11,
        EnablePhase::Connect => 11,
        EnablePhase::ConnectFence => 12,
        EnablePhase::CheckControl => 13,
        EnablePhase::CheckEngine { .. } => 13,
        EnablePhase::EngineInterrupts => 13,
        EnablePhase::ControllerInterrupts => 14,
        EnablePhase::CheckEngineInterrupts => 15,
        EnablePhase::CheckControllerInterrupts { .. } => 15,
        EnablePhase::FinalLook { .. } => 15,
        EnablePhase::UndoController(_) => 0,
        EnablePhase::UndoEngine(_) => 1,
        EnablePhase::UndoControl(_) => 2,
        EnablePhase::UndoFence(_) => 3,
        EnablePhase::UndoReset { reset, .. } => 4 + reset_progress(reset),
        EnablePhase::UndoBuffer { .. } => 7,
    }
}

/// How far a reset has got before it goes on here.
pub open spec fn reset_progress(reset: ResetIdmac) -> int {
    match reset.phase {
        ResetPhase::Engine => 0,
        ResetPhase::Interface => 1,
        ResetPhase::Fence => 2,
        _ => 3,
    }
}

/// Where the attempt stands, by its trace.
spec fn serving(
    buf_size: usize,
    expected: AHBDataWidth,
    trace: Seq<(Op, Reply)>,
    at: Step<EnableIdmac, EnableEnd>,
) -> bool {
    let n = trace.len() as int;
    match at {
        Step::Next(m) => {
            let configuration = last_read(trace, Reg::HCon)->0;
            let align = m.state.data_width.align_value();
            let known = !(m.phase is MaskController || m.phase is MaskEngine || m.phase is MaskLine
                || m.phase is MaskFence || m.phase is Configuration);
            &&& m.buf_size == buf_size && m.expected == expected
            &&& acknowledges_what_it_read(trace)
            &&& known ==> {
                &&& last_read(trace, Reg::HCon) is Some
                &&& (configuration >> 7u32) & 7u32 <= 2
                &&& align == bus_bytes(configuration)
                &&& m.width_corrected == (m.state.data_width != expected)
            }
            &&& match m.phase.failure() {
                Some(outcome) => {
                    &&& to_be_withdrawn(outcome) && shown(trace, outcome)
                    &&& m.state.buffer matches Some(buffer) && buffer.size == buf_size
                    &&& effects(trace) == service(buf_size, align).take(reached(outcome))
                        + withdrawal(buf_size, align).take(progress(m))
                },
                None => {
                    &&& effects(trace) == service(buf_size, align).take(progress(m))
                    &&& progress(m) >= 8 && !(m.phase is Allocate) ==> (
                    m.state.buffer matches Some(buffer) && buffer.size == buf_size)
                },
            }
            &&& match m.phase {
                EnablePhase::StaleId { rintsts } => last_read(trace, Reg::RIntSts) == Some(rintsts),
                EnablePhase::ClearRaw { rintsts, idsts } => {
                    &&& last_read(trace, Reg::RIntSts) == Some(rintsts)
                    &&& last_read(trace, Reg::IdSts) == Some(idsts)
                },
                EnablePhase::RereadId => raw_settled(trace),
                EnablePhase::ClearId { idsts } => {
                    &&& raw_settled(trace)
                    &&& last_read(trace, Reg::IdSts) == Some(idsts)
                },
                EnablePhase::BusMode => settled(trace),
                EnablePhase::BusModeFence => {
                    &&& n >= 1
                    &&& trace[n - 1].0 == (Op::Update { reg: Reg::BMod, clear: 0x7c, set: 0x82 })
                },
                EnablePhase::CheckBusMode => {
                    &&& n >= 2
                    &&& trace[n - 2].0 == (Op::Update { reg: Reg::BMod, clear: 0x7c, set: 0x82 })
                    &&& trace[n - 1].0 == Op::Fence
                },
                EnablePhase::BusModeStatus { kept } => bus_mode_seen(trace, kept),
                EnablePhase::BusModeReport { kept, .. } => bus_mode_seen(trace, kept),
                EnablePhase::Connect => bus_mode_seen(trace, true),
                EnablePhase::ConnectFence => {
                    &&& bus_mode_seen(trace, true)
                    &&& n >= 1
                    &&& trace[n - 1].0 == connecting()
                },
                EnablePhase::CheckControl => {
                    &&& bus_mode_seen(trace, true)
                    &&& n >= 2
                    &&& trace[n - 2].0 == connecting()
                    &&& trace[n - 1].0 == Op::Fence
                },
                EnablePhase::CheckEngine { connected } => {
                    &&& bus_mode_seen(trace, true)
                    &&& n >= 1
                    &&& trace[n - 1].0 == Op::Read(Reg::Ctrl)
                    &&& connected == (trace[n - 1].1.word() & 0x0200_0010 == 0x0200_0010)
                    &&& !connected ==> shown(trace, EnableOutcome::Control)
                },
                EnablePhase::EngineInterrupts => connection_seen(trace, 2),
                EnablePhase::ControllerInterrupts => connection_seen(trace, 3),
                EnablePhase::CheckEngineInterrupts => connection_seen(trace, 4),
                EnablePhase::CheckControllerInterrupts { engine_interrupts } => {
                    &&& connection_seen(trace, 5)
                    &&& trace[n - 1].0 == Op::Read(Reg::IdIntEn)
                    &&& engine_interrupts == (trace[n - 1].1.word() & 0x337 == 0x337)
                },
                EnablePhase::FinalLook { engine_interrupts, controller_interrupts } => {
                    &&& connection_seen(trace, 6)
                    &&& trace[n - 2].0 == Op::Read(Reg::IdIntEn)
                    &&& engine_interrupts == (trace[n - 2].1.word() & 0x337 == 0x337)
                    &&& trace[n - 1].0 == Op::Read(Reg::IntMask)
                    &&& controller_interrupts == (trace[n - 1].1.word() & 0xfffe == 0xdfca)
                },
                EnablePhase::UndoBuffer { buffer, .. } => buffer.size == buf_size,
                _ => true,
            }
        },
        Step::Done(end) => enable_told(buf_size, expected, trace, end),
    }
}

/// Engine and interrupt line are connected.
spec fn connecting() -> Op {
    Op::Update { reg: Reg::Ctrl, clear: 0, set: 0x0200_0010 }
}

/// What was pending of the controller's status was acknowledged.
spec fn raw_settled(trace: Seq<(Op, Reply)>) -> bool {
    last_read(trace, Reg::RIntSts) matches Some(raw) && (raw & 0xfffa == 0 || last_written(
        trace,
        Reg::RIntSts,
    ) == Some(raw))
}

/// The bus mode was read back, and was as it was set or not.
spec fn bus_mode_seen(trace: Seq<(Op, Reply)>, kept: bool) -> bool {
    &&& last_read(trace, Reg::BMod) matches Some(word) && kept == (word & 0xfe == 0x82)
    &&& !kept ==> shown(trace, EnableOutcome::BusMode)
}

/// So many operations ago it was seen that the engine is connected and in order.
spec fn connection_seen(trace: Seq<(Op, Reply)>, back: int) -> bool {
    let i = trace.len() - back;
    &&& bus_mode_seen(trace, true)
    &&& i >= 0
    &&& trace[i].0 == Op::Read(Reg::Ctrl) && trace[i].1.word() & 0x0200_0010 == 0x0200_0010
    &&& trace[i + 1].0 == Op::Read(Reg::IdSts) && trace[i + 1].1.word() & 0x214 == 0
}

/// The checks of single bits are those of the words.
proof fn lemma_checked_bits(word: u32)
    ensures
        (word & 0x80 != 0 && word & 0x7c == 0 && word & 0x2 != 0) == (word & 0xfe == 0x82),
        (word & 0x0200_0000 != 0 && word & 0x10 != 0) == (word & 0x0200_0010 == 0x0200_0010),
        (word & 0xbfc2 != 0 || word & 0x4000 != 0 || word & 0x8 != 0 || word & 0x20 != 0 || word
            & 0x10 != 0) == (word & 0xfffa != 0),
        0x80u32 | 0x2 == 0x82u32,
        0x0200_0000u32 | 0x10 == 0x0200_0010u32,
        0x10u32 | 0x0200_0000 == 0x0200_0010u32,
{
    assert({
        &&& (word & 0x80 != 0 && word & 0x7c == 0 && word & 0x2 != 0) == (word & 0xfe == 0x82)
        &&& (word & 0x0200_0000 != 0 && word & 0x10 != 0) == (word & 0x0200_0010 == 0x0200_0010)
        &&& (word & 0xbfc2 != 0 || word & 0x4000 != 0 || word & 0x8 != 0 || word & 0x20 != 0
            || word & 0x10 != 0) == (word & 0xfffa != 0)
        &&& 0x80u32 | 0x2 == 0x82u32
        &&& 0x0200_0000u32 | 0x10 == 0x0200_0010u32
        &&& 0x10u32 | 0x0200_0000 == 0x0200_0010u32
    }) by (bit_vector);
}

/// The service goes on with the next operation that has an effect.
proof fn lemma_service_next(m: EnableIdmac, size: usize, align: usize)
    requires
        m.phase.failure() is None,
        m.buf_size == size,
        m.state.data_width.align_value() == align,
    ensures
        service(size, align).len() == 15,
        has_effect(m.op()) ==> progress(m) < 15 && service(size, align).take(progress(m)).push(
            m.op(),
        ) == service(size, align).take(progress(m) + 1),
        forall|other: usize| service(size, align).take(4) == #[trigger] service(size, other).take(
            4,
        ),
{
    reveal(service);
    lemma_checked_bits(0);
    let list = service(size, align);
    if has_effect(m.op()) {
        assert(list[progress(m)] == m.op());
        lemma_take_next(list, progress(m));
    }
    assert forall|other: usize| list.take(4) == #[trigger] service(size, other).take(4) by {
        assert(list.take(4) =~= service(size, other).take(4));
    }
}

/// The withdrawal goes on with the next operation that has an effect.
proof fn lemma_withdrawal_next(m: EnableIdmac, done: Seq<Op>, size: usize, align: usize)
    requires
        m.phase.failure() is Some,
        m.phase matches EnablePhase::UndoBuffer { buffer, .. } ==> buffer.size == size,
        m.state.data_width.align_value() == align,
    ensures
        withdrawal(size, align).take(8) == withdrawal(size, align),
        has_effect(m.op()) ==> (done + withdrawal(size, align).take(progress(m))).push(m.op())
            == done + withdrawal(size, align).take(progress(m) + 1),
{
    reveal(withdrawal);
    lemma_checked_bits(0);
    let list = withdrawal(size, align);
    assert(list.take(8) =~= list);
    if has_effect(m.op()) {
        assert(list[progress(m)] == m.op());
        lemma_take_next(list, progress(m));
        assert(done + list.take(progress(m) + 1) =~= (done + list.take(progress(m))).push(m.op()));
    }
}

proof fn lemma_withdrawing(
    buf_size: usize,
    expected: AHBDataWidth,
    trace: Seq<(Op, Reply)>,
    m: EnableIdmac,
    reply: Reply,
)
    requires
        m.phase.failure() is Some,
        serving(buf_size, expected, trace, Step::Next(m)),
    ensures
        serving(buf_size, expected, trace.push((m.op(), reply)), m.next(reply)),
{
    let outcome = m.phase.failure()->0;
    let align = m.state.data_width.align_value();
    lemma_effects_push(trace, m.op(), reply);
    lemma_shown(trace, m.op(), reply, outcome);
    lemma_withdrawal_next(m, service(buf_size, align).take(reached(outcome)), buf_size, align);
}

/// The attempt up to its buffer.
proof fn lemma_masking(
    buf_size: usize,
    expected: AHBDataWidth,
    trace: Seq<(Op, Reply)>,
    m: EnableIdmac,
    reply: Reply,
)
    requires
        m.phase.failure() is None,
        m.phase.before_buffer(),
        serving(buf_size, expected, trace, Step::Next(m)),
    ensures
        serving(buf_size, expected, trace.push((m.op(), reply)), m.next(reply)),
{
    let after = trace.push((m.op(), reply));
    let align = m.state.data_width.align_value();
    let list = service(buf_size, align);
    lemma_effects_push(trace, m.op(), reply);
    lemma_service_next(m, buf_size, align);
    assert(after[trace.len() as int] == (m.op(), reply));
    if m.phase is Configuration {
        assert(list.take(4) == service(buf_size, bus_bytes(reply.word()) as usize).take(4));
    }
}

/// The attempt from its buffer to its bus mode.
proof fn lemma_settling(
    buf_size: usize,
    expected: AHBDataWidth,
    trace: Seq<(Op, Reply)>,
    m: EnableIdmac,
    reply: Reply,
)
    requires
        m.phase.failure() is None,
        !m.phase.before_buffer(),
        progress(m) <= 9,
        serving(buf_size, expected, trace, Step::Next(m)),
    ensures
        serving(buf_size, expected, trace.push((m.op(), reply)), m.next(reply)),
{
    let after = trace.push((m.op(), reply));
    let align = m.state.data_width.align_value();
    let list = service(buf_size, align);
    lemma_effects_push(trace, m.op(), reply);
    lemma_service_next(m, buf_size, align);
    assert(after[trace.len() as int] == (m.op(), reply));
    crate::trace::lemma_accounts_push(trace, m.op(), reply);
    lemma_shown(trace, m.op(), reply, EnableOutcome::IrqRefused);
    assert(list.take(9) + withdrawal(buf_size, align).take(0) =~= list.take(9)) by {
        reveal(withdrawal);
    }
    if let EnablePhase::StaleId { rintsts } = m.phase {
        lemma_checked_bits(rintsts);
    }
    lemma_checked_bits(reply.word());
}

/// The attempt up to its connection.
proof fn lemma_connecting(
    buf_size: usize,
    expected: AHBDataWidth,
    trace: Seq<(Op, Reply)>,
    m: EnableIdmac,
    reply: Reply,
)
    requires
        m.phase.failure() is None,
        10 <= progress(m) <= 12,
        serving(buf_size, expected, trace, Step::Next(m)),
    ensures
        serving(buf_size, expected, trace.push((m.op(), reply)), m.next(reply)),
{
    let after = trace.push((m.op(), reply));
    let align = m.state.data_width.align_value();
    let list = service(buf_size, align);
    lemma_effects_push(trace, m.op(), reply);
    lemma_service_next(m, buf_size, align);
    assert(after[trace.len() as int] == (m.op(), reply));
    lemma_shown(trace, m.op(), reply, EnableOutcome::BusMode);
    assert(list.take(11) + withdrawal(buf_size, align).take(0) =~= list.take(11)) by {
        reveal(withdrawal);
    }
    lemma_checked_bits(reply.word());
}

/// The attempt once it is connected.
proof fn lemma_serving(
    buf_size: usize,
    expected: AHBDataWidth,
    trace: Seq<(Op, Reply)>,
    m: EnableIdmac,
    reply: Reply,
)
    requires
        m.phase.failure() is None,
        13 <= progress(m),
        serving(buf_size, expected, trace, Step::Next(m)),
    ensures
        serving(buf_size, expected, trace.push((m.op(), reply)), m.next(reply)),
{
    let after = trace.push((m.op(), reply));
    let align = m.state.data_width.align_value();
    let list = service(buf_size, align);
    lemma_effects_push(trace, m.op(), reply);
    lemma_service_next(m, buf_size, align);
    assert(after[trace.len() as int] == (m.op(), reply));
    lemma_shown(trace, m.op(), reply, EnableOutcome::Control);
    lemma_shown(trace, m.op(), reply, EnableOutcome::Abnormal);
    assert(list.take(13) + withdrawal(buf_size, align).take(0) =~= list.take(13)) by {
        reveal(withdrawal);
    }
    lemma_checked_bits(reply.word());
}

/// Bringing the engine into service keeps to its script: every register gets what it
/// should, in order, and the outcome is what was seen on the way. What undoes it does so,
/// too, up to giving the buffer back. Before the bus mode is set nothing is left pending
/// that happened before.
pub proof fn law_service_keeps_to_its_script(
    buf_size: usize,
    expected: AHBDataWidth,
    state: IdmacState,
    replies: Seq<Reply>,
)
    ensures
        ({
            let done = run(Step::Next(EnableIdmac::new(buf_size, expected, state)), replies);
            match done.at {
                Step::Next(m) => m.op() == (Op::Update { reg: Reg::BMod, clear: 0x7c, set: 0x82 })
                    ==> settled(done.trace),
                Step::Done(end) => enable_told(buf_size, expected, done.trace, end),
            }
        }),
{
    let start = Step::<EnableIdmac, EnableEnd>::Next(EnableIdmac::new(buf_size, expected, state));
    let inv = |trace: Seq<(Op, Reply)>, at: Step<EnableIdmac, EnableEnd>|
        serving(buf_size, expected, trace, at);
    assert(service(buf_size, state.data_width.align_value()).take(0) =~= Seq::empty());
    assert forall|trace: Seq<(Op, Reply)>, m: EnableIdmac, reply: Reply|
        inv(trace, Step::Next(m)) implies #[trigger] inv(
        trace.push((m.op(), reply)),
        m.next(reply),
    ) by {
        if m.phase.failure() is Some {
            lemma_withdrawing(buf_size, expected, trace, m, reply);
        } else if m.phase.before_buffer() {
            lemma_masking(buf_size, expected, trace, m, reply);
        } else if progress(m) <= 9 {
            lemma_settling(buf_size, expected, trace, m, reply);
        } else if progress(m) <= 12 {
            lemma_connecting(buf_size, expected, trace, m, reply);
        } else {
            lemma_serving(buf_size, expected, trace, m, reply);
        }
    }
    crate::io::lemma_run_invariant(start, replies, inv);
}

/// Where the start of the driver stands, as far as the engine goes.
spec fn starting(at: Step<Startup, SdMmcResult<Started>>) -> bool {
    match at {
        Step::Next(m) => m.phase matches StartupPhase::Enable { enable, .. } ==> {
            &&& enable.buf_size == 16_384
            &&& !enable.state.reset_failed && !enable.state.faulted
            &&& enable.state.buffer matches Some(buffer) ==> buffer.size == 16_384
            &&& enable.width_corrected ==> enable.state.data_width != AHBDataWidth::Bits32
            &&& enable.expected == AHBDataWidth::Bits32
            &&& enable.phase.failure() matches Some(outcome) ==> !(outcome is Enabled)
        },
        Step::Done(Ok(started)) => {
            let end = started.engine;
            &&& end.state.buffer matches Some(buffer) ==> buffer.size == 16_384
            &&& end.width_corrected ==> end.state.data_width != AHBDataWidth::Bits32
            &&& end.outcome is Enabled ==> !end.state.faulted && !end.state.reset_failed
        },
        Step::Done(Err(_)) => true,
    }
}

proof fn lemma_starting(m: Startup, reply: Reply)
    requires
        starting(Step::Next(m)),
    ensures
        starting(m.next(reply)),
        m.op() matches Op::AllocBuffer { size, .. } ==> size == 16_384,
{
    match m.phase {
        StartupPhase::Init(init) => {
            lemma_init_allocates_nothing(init);
        },
        StartupPhase::Enable { .. } => {},
    }
}

/// Identification allocates nothing.
proof fn lemma_init_allocates_nothing(init: Init)
    ensures
        !(init.op() is AllocBuffer),
{
}

/// When the driver starts, the engine gets a buffer of 16 KiB, which holds the largest
/// transfer, and is expected behind a bus of 32 bits; only another width counts as
/// corrected. A driver whose engine came into service starts without a fault.
pub proof fn law_driver_starts_with_a_full_buffer(replies: Seq<Reply>)
    ensures
        ({
            let done = run(Step::Next(Startup::new()), replies);
            match done.at {
                Step::Next(m) => m.op() matches Op::AllocBuffer { size, .. } ==> size == 16_384,
                Step::Done(Ok(started)) => {
                    let end = started.engine;
                    &&& end.state.buffer matches Some(buffer) ==> buffer.size == 16_384
                    &&& end.width_corrected ==> end.state.data_width != AHBDataWidth::Bits32
                    &&& end.outcome is Enabled ==> !end.state.faulted && !end.state.reset_failed
                },
                Step::Done(Err(_)) => true,
            }
        }),
{
    let start = Step::<Startup, SdMmcResult<Started>>::Next(Startup::new());
    let inv = |trace: Seq<(Op, Reply)>, at: Step<Startup, SdMmcResult<Started>>| starting(at);
    assert forall|trace: Seq<(Op, Reply)>, m: Startup, reply: Reply|
        inv(trace, Step::Next(m)) implies #[trigger] inv(
        trace.push((m.op(), reply)),
        m.next(reply),
    ) by {
        lemma_starting(m, reply);
    }
    crate::io::lemma_run_invariant(start, replies, inv);
    let done = run(start, replies);
    if let Step::Next(m) = done.at {
        lemma_starting(m, Reply::Done);
    }
}

} // verus!
