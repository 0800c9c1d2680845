//! A supported card is identified and the DMA engine comes into service, if nothing goes
//! wrong.

use vstd::prelude::*;

use crate::clock::{program_invariant, ProgramClock, ProgramPhase, SwitchClock, SwitchPhase};
use crate::cmd::CommandKind;
use crate::enable::{
    idmac_controller_interrupt_mask, law_interrupt_mask, AHBDataWidth, EnableEnd, EnableIdmac,
    EnableOutcome, EnablePhase, IdmacState,
};
use crate::error::{r1_verdict, SdMmcResult};
use crate::init::{
    csd_word, high_capacity, if_cond_accepted, power_up_complete, published_rca, Card, Init,
    InitPhase,
};
use crate::io::{never, run, Machine, Op, Reply, Step};
use crate::progress::{
    lemma_reset_progress, lemma_send_hopeful, lemma_send_progress, moves_left, DELAY_COST,
};
use crate::regs::{BMod, ClkDiv, ClkEna, Cmd, Ctrl, HCon, IdIntEn, IdSts, RIntSts, Reg};
use crate::send::{SendCmd, SendPhase};
use crate::trace::{delay, delays, judged, last_written, looks, op_back, submitted};

verus! {

/// The engine was connected last, not disconnected.
pub open spec fn connected(trace: Seq<(Op, Reply)>) -> bool
    decreases trace.len(),
{
    trace.len() > 0 && match trace.last().0 {
        Op::Update { reg: Reg::Ctrl, set, .. } => set & Ctrl::USE_INTERNAL_DMAC != 0,
        _ => connected(trace.drop_last()),
    }
}

/// A register that is read back has kept what was written: the bits that were changed
/// just before, or the whole word in case of the interrupt enables.
pub open spec fn kept(trace: Seq<(Op, Reply)>, i: int) -> bool {
    let word = trace[i].1.word();
    trace[i].0 matches Op::Read(reg) ==> {
        &&& i >= 2 && trace[i - 1].0 is Fence ==> (trace[i - 2].0 matches Op::Update {
            reg: changed,
            clear,
            set,
        } ==> (changed == reg ==> word & set == set && word & clear == 0))
        &&& reg == Reg::IntMask || reg == Reg::IdIntEn ==> last_written(trace.take(i), reg) == Some(
            word,
        )
    }
}

/// The reply does not stand in the way of the engine: its bus has a known width, memory
/// and handler are granted, registers keep what is written, and once it is connected the
/// engine reports nothing abnormal.
pub open spec fn engine_agrees(trace: Seq<(Op, Reply)>, i: int) -> bool {
    let reply = trace[i].1;
    &&& kept(trace, i)
    &&& match trace[i].0 {
        Op::Read(Reg::HCon) => AHBDataWidth::of_code(HCon(reply.word()).h_data_width()) is Some,
        Op::AllocBuffer { .. } => reply.address() is Some,
        Op::RegisterIrq => reply.flag(),
        Op::Read(Reg::IdSts) => connected(trace.take(i)) ==> !IdSts(reply.word()).abnormal(),
        _ => true,
    }
}

/// No reply stands in the way of the engine.
pub open spec fn engine_willing(trace: Seq<(Op, Reply)>) -> bool {
    forall|i: int| 0 <= i < trace.len() ==> #[trigger] engine_agrees(trace, i)
}

impl EnableIdmac {
    /// The time for the engine's reset is over.
    pub open spec fn gives_up(self, reply: Reply) -> bool {
        self.phase matches EnablePhase::Reset(reset) && reset.gives_up(reply)
    }
}

/// Replies that the attempt takes at most from here on, if it need not wait.
spec fn enable_rank(m: EnableIdmac) -> int {
    match m.phase {
        EnablePhase::MaskController => 34,
        EnablePhase::MaskEngine => 33,
        EnablePhase::MaskLine => 32,
        EnablePhase::MaskFence => 31,
        EnablePhase::Configuration => 30,
        EnablePhase::Reset(reset) => 21 + reset.rank(),
        EnablePhase::Allocate => 21,
        EnablePhase::RegisterIrq => 20,
        EnablePhase::StaleRaw => 19,
        EnablePhase::StaleId { .. } => 18,
        EnablePhase::ClearRaw { .. } => 17,
        EnablePhase::RereadId => 16,
        EnablePhase::ClearId { .. } => 15,
        EnablePhase::BusMode => 14,
        EnablePhase::BusModeFence => 13,
        EnablePhase::CheckBusMode => 12,
        EnablePhase::BusModeStatus { .. } => 11,
        EnablePhase::BusModeReport { .. } => 10,
        EnablePhase::Connect => 9,
        EnablePhase::ConnectFence => 8,
        EnablePhase::CheckControl => 7,
        EnablePhase::CheckEngine { .. } => 6,
        EnablePhase::EngineInterrupts => 5,
        EnablePhase::ControllerInterrupts => 4,
        EnablePhase::CheckEngineInterrupts => 3,
        EnablePhase::CheckControllerInterrupts { .. } => 2,
        EnablePhase::FinalLook { .. } => 1,
        _ => 0,
    }
}

/// The change that sets the engine's bus mode.
spec fn set_bus_mode() -> Op {
    Op::Update { reg: Reg::BMod, clear: BMod::DSL_MASK, set: BMod::DE | BMod::FB }
}

/// The change that connects the engine.
spec fn connect_engine() -> Op {
    Op::Update { reg: Reg::Ctrl, clear: 0, set: Ctrl::USE_INTERNAL_DMAC | Ctrl::INT_ENABLE }
}

/// Every interrupt that transfers need was enabled.
spec fn interrupts_enabled(trace: Seq<(Op, Reply)>) -> bool {
    &&& last_written(trace, Reg::IdIntEn) == Some(IdIntEn::ALL)
    &&& last_written(trace, Reg::IntMask) == Some(idmac_controller_interrupt_mask().0)
}

/// The attempt is going well.
spec fn enabling(
    buf_size: usize,
    state: IdmacState,
    trace: Seq<(Op, Reply)>,
    m: EnableIdmac,
) -> bool {
    let n = trace.len();
    &&& enable_rank(m) > 0
    &&& m.buf_size == buf_size
    &&& m.state.faulted == state.faulted
    &&& m.state.reset_failed == state.reset_failed
    &&& !m.phase.before_buffer() ==> (m.state.buffer matches Some(buffer) && buffer.size
        == buf_size)
    &&& match m.phase {
        EnablePhase::BusModeFence => n >= 1 && op_back(trace, 0) == set_bus_mode(),
        EnablePhase::CheckBusMode => n >= 2 && op_back(trace, 0) is Fence && op_back(trace, 1)
            == set_bus_mode(),
        EnablePhase::BusModeStatus { kept } => kept,
        EnablePhase::BusModeReport { kept, .. } => kept,
        EnablePhase::ConnectFence => n >= 1 && op_back(trace, 0) == connect_engine() && connected(
            trace,
        ),
        EnablePhase::CheckControl => n >= 2 && op_back(trace, 0) is Fence && op_back(trace, 1)
            == connect_engine() && connected(trace),
        EnablePhase::CheckEngine { connected: seen } => seen && connected(trace),
        EnablePhase::EngineInterrupts => connected(trace),
        EnablePhase::ControllerInterrupts => connected(trace) && last_written(trace, Reg::IdIntEn)
            == Some(IdIntEn::ALL),
        EnablePhase::CheckEngineInterrupts => connected(trace) && interrupts_enabled(trace),
        EnablePhase::CheckControllerInterrupts { engine_interrupts } => connected(trace)
            && interrupts_enabled(trace) && engine_interrupts,
        EnablePhase::FinalLook { engine_interrupts, controller_interrupts } => connected(trace)
            && engine_interrupts && controller_interrupts,
        _ => true,
    }
}

/// Replies that bringing the engine into service takes at most if nothing delays it.
pub const ENABLE_REPLIES: u32 = 34;

/// The engine is in service with a buffer of the wanted size, and the driver has learnt
/// of no fault.
pub open spec fn in_full_service(buf_size: usize, state: IdmacState, end: EnableEnd) -> bool {
    &&& end.outcome == EnableOutcome::Enabled {
        engine_interrupts: true,
        controller_interrupts: true,
        quiet: true,
    }
    &&& end.state.buffer matches Some(buffer) && buffer.size == buf_size
    &&& end.state.faulted == state.faulted
    &&& end.state.reset_failed == state.reset_failed
}

spec fn enable_advances(
    buf_size: usize,
    state: IdmacState,
    trace: Seq<(Op, Reply)>,
    at: Step<EnableIdmac, EnableEnd>,
) -> bool {
    let allowed = ENABLE_REPLIES + DELAY_COST * delay(trace);
    engine_willing(trace) ==> match at {
        Step::Next(m) => enabling(buf_size, state, trace, m) && trace.len() + enable_rank(m)
            <= allowed,
        Step::Done(end) => in_full_service(buf_size, state, end) && trace.len() <= allowed,
    }
}

/// What the registers keep is what the attempt checks.
proof fn lemma_kept_bits(word: u32)
    ensures
        word & (BMod::DE | BMod::FB) == BMod::DE | BMod::FB ==> BMod(word).de() && BMod(word).fb(),
        word & (Ctrl::USE_INTERNAL_DMAC | Ctrl::INT_ENABLE) == Ctrl::USE_INTERNAL_DMAC
            | Ctrl::INT_ENABLE ==> Ctrl(word).use_internal_dmac() && Ctrl(word).int_enable(),
        (Ctrl::USE_INTERNAL_DMAC | Ctrl::INT_ENABLE) & Ctrl::USE_INTERNAL_DMAC != 0,
        IdIntEn(IdIntEn::ALL).all_enabled(),
{
    assert(word & (0x80u32 | 0x2) == 0x80u32 | 0x2 ==> word & 0x80 != 0 && word & 0x2 != 0)
        by (bit_vector);
    assert(word & (0x0200_0000u32 | 0x10) == 0x0200_0000u32 | 0x10 ==> word & 0x0200_0000 != 0
        && word & 0x10 != 0) by (bit_vector);
    assert((0x0200_0000u32 | 0x10) & 0x0200_0000 != 0 && 0x337u32 & 0x337 == 0x337)
        by (bit_vector);
}

proof fn lemma_enable_advances(
    buf_size: usize,
    state: IdmacState,
    trace: Seq<(Op, Reply)>,
    m: EnableIdmac,
    reply: Reply,
)
    requires
        EnableIdmac::layout_ok(buf_size, AHBDataWidth::Bits64),
        enable_advances(buf_size, state, trace, Step::Next(m)),
        !m.gives_up(reply),
    ensures
        enable_advances(buf_size, state, trace.push((m.op(), reply)), m.next(reply)),
{
    let after = trace.push((m.op(), reply));
    let now = trace.len() as int;
    if engine_willing(after) {
        assert forall|i: int| 0 <= i < trace.len() implies #[trigger] engine_agrees(trace, i) by {
            assert(engine_agrees(after, i));
            assert(after.take(i) =~= trace.take(i));
        }
        assert(after.drop_last() =~= trace);
        assert(after.take(now) =~= trace);
        assert(engine_agrees(after, now));
        lemma_kept_bits(reply.word());
        law_interrupt_mask();
        if let EnablePhase::Reset(reset) = m.phase {
            lemma_reset_progress(reset, reply);
            if let Step::Next(later) = reset.next(reply) {
                lemma_reset_progress(later, reply);
            }
        }
    }
}

/// No wait of the attempt is given up: the engine completes its reset before the deadline.
pub open spec fn enabled_in_time(
    start: Step<EnableIdmac, EnableEnd>,
    replies: Seq<Reply>,
) -> bool {
    never(start, replies, |m: EnableIdmac, reply: Reply| m.gives_up(reply))
}

/// Bringing the engine into service succeeds if nothing goes wrong: a buffer of the
/// wanted size can be described, memory and handler are granted, registers keep what is
/// written, the engine reports nothing abnormal once it is connected, and its reset is
/// completed before the deadline. Then all interrupts are enabled, and the number of
/// replies is limited but for the operations that delay the attempt.
pub proof fn law_willing_engine_is_enabled(
    buf_size: usize,
    expected: AHBDataWidth,
    state: IdmacState,
    replies: Seq<Reply>,
)
    requires
        EnableIdmac::layout_ok(buf_size, AHBDataWidth::Bits64),
    ensures
        ({
            let start = Step::Next(EnableIdmac::new(buf_size, expected, state));
            let done = run(start, replies);
            let limit = ENABLE_REPLIES + DELAY_COST * delay(done.trace);
            enabled_in_time(start, replies) && engine_willing(done.trace) ==> match done.at {
                Step::Next(_) => replies.len() < limit,
                Step::Done(end) => in_full_service(buf_size, state, end) && done.trace.len()
                    <= limit,
            }
        }),
{
    let start = Step::<EnableIdmac, EnableEnd>::Next(EnableIdmac::new(buf_size, expected, state));
    let bad = |m: EnableIdmac, reply: Reply| m.gives_up(reply);
    let inv = |trace: Seq<(Op, Reply)>, at: Step<EnableIdmac, EnableEnd>|
        enable_advances(buf_size, state, trace, at);
    assert forall|trace: Seq<(Op, Reply)>, m: EnableIdmac, reply: Reply|
        inv(trace, Step::Next(m)) && !bad(m, reply) implies #[trigger] inv(
        trace.push((m.op(), reply)),
        m.next(reply),
    ) by {
        lemma_enable_advances(buf_size, state, trace, m, reply);
    }
    if enabled_in_time(start, replies) {
        crate::io::lemma_run_invariant_without(start, replies, bad, inv);
        crate::io::lemma_unended(start, replies);
    }
}

/// The answer to a command of this kind is one that a supported card gives: it reports no
/// error, accepts application commands and the offered voltage, is of high capacity when
/// its power-up is complete, publishes an address, and has a CSD of version 2. The answer
/// to ACMD51 does not matter.
pub open spec fn supported_answer(kind: CommandKind, response: [u32; 4]) -> bool {
    &&& kind.has_r1_response() && kind != CommandKind::SendScr ==> r1_verdict(
        response[0],
        kind.requires_app_cmd_accepted(),
    ) is Ok
    &&& kind == CommandKind::SendIfCond ==> if_cond_accepted(response[0])
    &&& kind == CommandKind::SdSendOpCond ==> (power_up_complete(response[0]) ==> high_capacity(
        response[0],
    ))
    &&& kind == CommandKind::SendRelativeAddr ==> published_rca(response[0]) is Some
    &&& kind == CommandKind::SendCsd ==> csd_word(response).csd_structure() == 1
}

/// The command may fail without harm: ACMD41 is repeated, and ACMD51 can be done without.
pub open spec fn dispensable(cmd: Cmd) -> bool {
    cmd == CommandKind::SdSendOpCond.word() || cmd == CommandKind::SendScr.word()
}

/// The reply is that of a working controller with a supported card: no command fails that
/// may not, the card answers as it should, and the clock registers keep what is written.
pub open spec fn card_agrees(trace: Seq<(Op, Reply)>, i: int) -> bool {
    let reply = trace[i].1;
    let before = trace.take(i);
    &&& looks(trace[i].0, Reg::RIntSts) || judged(trace, i) ==> !RIntSts(reply.word()).error()
        || dispensable(submitted(before))
    &&& match trace[i].0 {
        Op::Response => forall|kind: CommandKind|
            submitted(before) == #[trigger] kind.word() ==> supported_answer(
                kind,
                reply.response(),
            ),
        Op::Read(Reg::ClkDiv) => last_written(before, Reg::ClkDiv) matches Some(word) ==> ClkDiv(
            reply.word(),
        ).clk_divider0() == ClkDiv(word).clk_divider0(),
        Op::Read(Reg::ClkEna) => last_written(before, Reg::ClkEna) matches Some(word) ==> ClkEna(
            reply.word(),
        ).card0_enabled() == ClkEna(word).card0_enabled(),
        _ => true,
    }
}

/// Every reply is that of a working controller with a supported card.
pub open spec fn card_willing(trace: Seq<(Op, Reply)>) -> bool {
    forall|i: int| 0 <= i < trace.len() ==> #[trigger] card_agrees(trace, i)
}

impl ProgramClock {
    /// The reply ends a wait for the controller without success.
    pub open spec fn gives_up(self, reply: Reply) -> bool {
        match self.phase {
            ProgramPhase::LatchDisabled(send) => send.gives_up(reply),
            ProgramPhase::LatchDivider(send) => send.gives_up(reply),
            ProgramPhase::LatchEnabled(send) => send.gives_up(reply),
            _ => false,
        }
    }
}

impl SwitchClock {
    /// The reply ends a wait without success.
    pub open spec fn gives_up(self, reply: Reply) -> bool {
        match self.phase {
            SwitchPhase::Deadline { deadline } => reply.time() >= deadline,
            SwitchPhase::Program { program, .. } => program.gives_up(reply),
            _ => false,
        }
    }
}

impl Init {
    /// The reply ends a wait without success, and the wait is one that matters: CMD0 may
    /// remain unanswered, ACMD41 is repeated until its own time is over, and ACMD51 can be
    /// done without.
    pub open spec fn gives_up(self, reply: Reply) -> bool {
        match self.phase {
            InitPhase::LatchOff(send) => send.gives_up(reply),
            InitPhase::LatchOn(send) => send.gives_up(reply),
            InitPhase::GoIdle(send) => send.gives_up(reply) && !(send.phase is ResponseClock),
            InitPhase::IfCond(send) => send.gives_up(reply),
            InitPhase::OpCondClock { deadline } => reply.time() >= deadline,
            InitPhase::AllSendCid(send) => send.gives_up(reply),
            InitPhase::RelativeAddr { send, .. } => send.gives_up(reply),
            InitPhase::SendCsd { send, .. } => send.gives_up(reply),
            InitPhase::Select { send, .. } => send.gives_up(reply),
            InitPhase::ScrApp { send, .. } => send.gives_up(reply),
            InitPhase::Switch { switch, .. } => switch.gives_up(reply),
            _ => false,
        }
    }
}

/// Replies that the programming of the clock takes at most from here on, if it need not
/// wait.
spec fn program_rank(program: ProgramClock) -> int {
    match program.phase {
        ProgramPhase::Disable => 125,
        ProgramPhase::LatchDisabled(send) => 84 + send.rank(),
        ProgramPhase::Divider => 84,
        ProgramPhase::LatchDivider(send) => 43 + send.rank(),
        ProgramPhase::Enable => 43,
        ProgramPhase::LatchEnabled(send) => 2 + send.rank(),
        ProgramPhase::CheckDivider => 2,
        ProgramPhase::CheckEnable { .. } => 1,
    }
}

/// Replies that the switch of the clock takes at most from here on, if it need not wait.
spec fn switch_rank(switch: SwitchClock) -> int {
    match switch.phase {
        SwitchPhase::Clock => 132,
        SwitchPhase::Command { again, .. } => if again {
            128
        } else {
            131
        },
        SwitchPhase::Data { .. } => 130,
        SwitchPhase::Deadline { .. } => 129,
        SwitchPhase::Previous => 127,
        SwitchPhase::Program { program, .. } => program_rank(program),
        SwitchPhase::Rollback(_) => 0,
    }
}

/// Replies that identification takes at most from here on, if it need not wait.
spec fn init_rank(m: Init) -> int {
    match m.phase {
        InitPhase::ClearStale => 755,
        InitPhase::ClockOff => 754,
        InitPhase::LatchOff(send) => 713 + send.rank(),
        InitPhase::Divider => 713,
        InitPhase::ClockOn => 712,
        InitPhase::LatchOn(send) => 671 + send.rank(),
        InitPhase::ClockSettle => 671,
        InitPhase::Power => 670,
        InitPhase::PowerSettle => 669,
        InitPhase::BusWidth => 668,
        InitPhase::StopEngine => 667,
        InitPhase::ResetInterface => 666,
        InitPhase::GoIdle(send) => 625 + send.rank(),
        InitPhase::IfCond(send) => 585 + send.rank(),
        InitPhase::OpCondStart => 585,
        InitPhase::OpCondClock { .. } => 584,
        InitPhase::OpCondApp { send, .. } => 543 + send.rank(),
        InitPhase::OpCond { send, .. } => 503 + send.rank(),
        InitPhase::OpCondPause { .. } => 503,
        InitPhase::AllSendCid(send) => 463 + send.rank(),
        InitPhase::RelativeAddr { send, .. } => 423 + send.rank(),
        InitPhase::SendCsd { send, .. } => 383 + send.rank(),
        InitPhase::Select { send, .. } => 343 + send.rank(),
        InitPhase::ScrApp { send, .. } => 303 + send.rank(),
        InitPhase::ScrBlockSize(_) => 303,
        InitPhase::ScrByteCount(_) => 302,
        InitPhase::Scr { send, .. } => 133 + send.rank(),
        InitPhase::ClearFinal(_) => 133,
        InitPhase::Switch { switch, .. } => switch_rank(switch),
    }
}

/// The submission is that of a command of this kind; the answer that it has got is one
/// that a supported card gives.
spec fn asked(trace: Seq<(Op, Reply)>, send: SendCmd, kind: CommandKind) -> bool {
    &&& send.request.kind == kind
    &&& !send.phase.before_submission() ==> submitted(trace) == kind.word()
    &&& send.phase matches SendPhase::ClearFinal { response } ==> {
        &&& supported_answer(kind, response)
        &&& trace.len() >= 1
        &&& op_back(trace, 0) == Op::Response
    }
}

/// The submission of a command without data.
spec fn asked_plainly(trace: Seq<(Op, Reply)>, send: SendCmd, kind: CommandKind) -> bool {
    asked(trace, send, kind) && send.request.data is Nothing
}

/// A submission on its way to success.
spec fn asked_well(trace: Seq<(Op, Reply)>, send: SendCmd, kind: CommandKind) -> bool {
    asked_plainly(trace, send, kind) && send.hopeful()
}

/// A step of a submission, whatever becomes of it: if there is a response at its end, it
/// is one that a supported card gives.
proof fn lemma_asked(trace: Seq<(Op, Reply)>, send: SendCmd, kind: CommandKind, reply: Reply)
    requires
        asked(trace, send, kind),
        card_agrees(trace.push((send.op(), reply)), trace.len() as int),
    ensures
        send.rank() > 0,
        match send.next(reply) {
            Step::Next(later) => {
                &&& asked(trace.push((send.op(), reply)), later, kind)
                &&& later.request == send.request
                &&& later.rank() > 0
                &&& later.rank() < send.rank() + (if delays(trace, send.op(), reply) {
                    2int
                } else {
                    0
                })
            },
            Step::Done(Ok(response)) => supported_answer(kind, response),
            Step::Done(Err(_)) => true,
        },
{
    let after = trace.push((send.op(), reply));
    assert(after.take(trace.len() as int) =~= trace);
    assert(after.drop_last() =~= trace);
    lemma_send_progress(send, reply);
    if let Step::Next(later) = send.next(reply) {
        lemma_send_progress(later, reply);
    }
}

/// A step of a submission that is not given up and may not fail: it goes on well and ends
/// in success.
proof fn lemma_asked_well(trace: Seq<(Op, Reply)>, send: SendCmd, kind: CommandKind, reply: Reply)
    requires
        asked(trace, send, kind),
        send.hopeful(),
        !send.gives_up(reply),
        !dispensable(kind.word()),
        card_agrees(trace.push((send.op(), reply)), trace.len() as int),
    ensures
        match send.next(reply) {
            Step::Next(later) => later.hopeful(),
            Step::Done(result) => result is Ok,
        },
{
    let after = trace.push((send.op(), reply));
    let now = trace.len() as int;
    assert(after.take(now) =~= trace);
    lemma_send_hopeful(send, reply);
    if send.phase is ClearFinal {
        assert(judged(after, now));
    }
}

/// The programming of the clock is going well.
spec fn program_sound(trace: Seq<(Op, Reply)>, program: ProgramClock) -> bool {
    &&& program_invariant(program.divider, trace, Step::Next(program))
    &&& match program.phase {
        ProgramPhase::LatchDisabled(send) => asked_well(trace, send, CommandKind::ResetClock),
        ProgramPhase::LatchDivider(send) => asked_well(trace, send, CommandKind::ResetClock),
        ProgramPhase::LatchEnabled(send) => asked_well(trace, send, CommandKind::ResetClock),
        ProgramPhase::CheckEnable { divider_kept } => divider_kept,
        _ => true,
    }
}

proof fn lemma_latch_begins(trace: Seq<(Op, Reply)>)
    ensures
        asked_well(trace, crate::clock::latch(), CommandKind::ResetClock),
        crate::clock::latch().rank() == 40,
        !dispensable(CommandKind::ResetClock.word()),
{
    reveal(moves_left);
}

proof fn lemma_program_sound(trace: Seq<(Op, Reply)>, program: ProgramClock, reply: Reply)
    requires
        program_sound(trace, program),
        !program.gives_up(reply),
        card_agrees(trace.push((program.op(), reply)), trace.len() as int),
    ensures
        program_rank(program) > 0,
        match program.next(reply) {
            Step::Next(later) => {
                &&& program_sound(trace.push((program.op(), reply)), later)
                &&& program_rank(later) > 0
                &&& program_rank(later) < program_rank(program) + (if delays(
                    trace,
                    program.op(),
                    reply,
                ) {
                    2int
                } else {
                    0
                })
            },
            Step::Done(set) => set,
        },
{
    let after = trace.push((program.op(), reply));
    let now = trace.len() as int;
    assert(after.take(now) =~= trace);
    crate::clock::lemma_program_step(program.divider, trace, program, reply);
    lemma_latch_begins(after);
    match program.phase {
        ProgramPhase::LatchDisabled(send) => {
            lemma_asked(trace, send, CommandKind::ResetClock, reply);
            lemma_asked_well(trace, send, CommandKind::ResetClock, reply);
        },
        ProgramPhase::LatchDivider(send) => {
            lemma_asked(trace, send, CommandKind::ResetClock, reply);
            lemma_asked_well(trace, send, CommandKind::ResetClock, reply);
        },
        ProgramPhase::LatchEnabled(send) => {
            lemma_asked(trace, send, CommandKind::ResetClock, reply);
            lemma_asked_well(trace, send, CommandKind::ResetClock, reply);
        },
        ProgramPhase::CheckDivider => {
            let divider = program.divider;
            assert(divider as u32 & 0xff == divider as u32) by (bit_vector);
        },
        ProgramPhase::CheckEnable { .. } => {
            assert(1u32 & 1 != 0) by (bit_vector);
        },
        _ => {},
    }
}

/// The switch of the clock is going well.
spec fn switch_sound(trace: Seq<(Op, Reply)>, switch: SwitchClock) -> bool {
    match switch.phase {
        SwitchPhase::Program { program, .. } => program_sound(trace, program),
        SwitchPhase::Rollback(_) => false,
        _ => true,
    }
}

proof fn lemma_switch_sound(trace: Seq<(Op, Reply)>, switch: SwitchClock, reply: Reply)
    requires
        switch_sound(trace, switch),
        !switch.gives_up(reply),
        card_agrees(trace.push((switch.op(), reply)), trace.len() as int),
    ensures
        switch_rank(switch) > 0,
        match switch.next(reply) {
            Step::Next(later) => {
                &&& switch_sound(trace.push((switch.op(), reply)), later)
                &&& switch_rank(later) > 0
                &&& switch_rank(later) < switch_rank(switch) + (if delays(
                    trace,
                    switch.op(),
                    reply,
                ) {
                    3int
                } else {
                    0
                })
            },
            Step::Done(switched) => switched,
        },
{
    if let SwitchPhase::Program { program, .. } = switch.phase {
        lemma_program_sound(trace, program, reply);
    }
}

/// Identification is going well.
spec fn init_sound(trace: Seq<(Op, Reply)>, m: Init) -> bool {
    match m.phase {
        InitPhase::LatchOff(send) => asked_well(trace, send, CommandKind::ResetClock),
        InitPhase::LatchOn(send) => asked_well(trace, send, CommandKind::ResetClock),
        InitPhase::GoIdle(send) => asked_plainly(trace, send, CommandKind::GoIdleState) && (
        send.hopeful() || send.phase is ResponseTimeout),
        InitPhase::IfCond(send) => asked_well(trace, send, CommandKind::SendIfCond),
        InitPhase::OpCondApp { send, .. } => asked_plainly(trace, send, CommandKind::AppCmd),
        InitPhase::OpCond { send, .. } => asked_plainly(trace, send, CommandKind::SdSendOpCond),
        InitPhase::AllSendCid(send) => asked_well(trace, send, CommandKind::AllSendCid),
        InitPhase::RelativeAddr { send, .. } => {
            asked_well(trace, send, CommandKind::SendRelativeAddr)
        },
        InitPhase::SendCsd { send, .. } => asked_well(trace, send, CommandKind::SendCsd),
        InitPhase::Select { send, .. } => asked_well(trace, send, CommandKind::SelectCard),
        InitPhase::ScrApp { send, .. } => asked_well(trace, send, CommandKind::AppCmd),
        InitPhase::Scr { send, .. } => asked(trace, send, CommandKind::SendScr),
        InitPhase::Switch { switch, .. } => switch_sound(trace, switch),
        _ => true,
    }
}

/// A command that begins is going well.
proof fn lemma_plain_begins(trace: Seq<(Op, Reply)>, kind: CommandKind, arg: u32)
    ensures
        asked_well(trace, crate::init::plain(kind, arg), kind),
        crate::init::plain(kind, arg).rank() == 40,
{
    reveal(moves_left);
}

proof fn lemma_scr_begins(trace: Seq<(Op, Reply)>)
    ensures
        asked(trace, Init::send_scr(), CommandKind::SendScr),
        Init::send_scr().rank() == 168,
{
    reveal(moves_left);
}

/// What is owed of a step of identification.
spec fn init_step_sound(trace: Seq<(Op, Reply)>, m: Init, reply: Reply) -> bool {
    &&& init_rank(m) > 0
    &&& match m.next(reply) {
        Step::Next(later) => {
            &&& init_sound(trace.push((m.op(), reply)), later)
            &&& init_rank(later) > 0
            &&& init_rank(later) < init_rank(m) + (if delays(trace, m.op(), reply) {
                100int
            } else {
                0
            })
        },
        Step::Done(result) => result is Ok,
    }
}

/// The command under way, its kind, and whether it may not fail.
spec fn under_way(m: Init) -> Option<(SendCmd, CommandKind, bool)> {
    match m.phase {
        InitPhase::LatchOff(send) => Some((send, CommandKind::ResetClock, true)),
        InitPhase::LatchOn(send) => Some((send, CommandKind::ResetClock, true)),
        InitPhase::GoIdle(send) => Some((send, CommandKind::GoIdleState, false)),
        InitPhase::IfCond(send) => Some((send, CommandKind::SendIfCond, true)),
        InitPhase::OpCondApp { send, .. } => Some((send, CommandKind::AppCmd, false)),
        InitPhase::OpCond { send, .. } => Some((send, CommandKind::SdSendOpCond, false)),
        InitPhase::AllSendCid(send) => Some((send, CommandKind::AllSendCid, true)),
        InitPhase::RelativeAddr { send, .. } => Some((send, CommandKind::SendRelativeAddr, true)),
        InitPhase::SendCsd { send, .. } => Some((send, CommandKind::SendCsd, true)),
        InitPhase::Select { send, .. } => Some((send, CommandKind::SelectCard, true)),
        InitPhase::ScrApp { send, .. } => Some((send, CommandKind::AppCmd, true)),
        InitPhase::Scr { send, .. } => Some((send, CommandKind::SendScr, false)),
        _ => None,
    }
}

/// After a command that was answered, or that may fail, identification goes on.
proof fn lemma_command_over(trace: Seq<(Op, Reply)>, m: Init, reply: Reply)
    requires
        init_sound(trace, m),
        under_way(m) matches Some((send, kind, vital)) && {
            &&& send.rank() > 0
            &&& send.next(reply) matches Step::Done(result) && {
                &&& vital ==> result is Ok
                &&& result matches Ok(response) ==> supported_answer(kind, response)
                &&& m.phase is GoIdle ==> (result matches Err(error) ==> error
                    is CommandTimeout)
            }
        },
    ensures
        init_step_sound(trace, m, reply),
{
    let after = trace.push((m.op(), reply));
    match m.phase {
        InitPhase::GoIdle(_) => {
            lemma_plain_begins(after, CommandKind::SendIfCond, crate::init::IF_COND);
        },
        InitPhase::OpCondApp { .. } => {
            lemma_plain_begins(after, CommandKind::SdSendOpCond, crate::init::OP_COND);
        },
        InitPhase::OpCond { .. } => {
            lemma_plain_begins(after, CommandKind::AllSendCid, 0);
        },
        InitPhase::AllSendCid(_) => {
            lemma_plain_begins(after, CommandKind::SendRelativeAddr, 0);
        },
        InitPhase::RelativeAddr { send, .. } => {
            let response = send.next(reply)->Done_0->Ok_0;
            if let Some(rca) = published_rca(response[0]) {
                lemma_plain_begins(after, CommandKind::SendCsd, crate::init::rca_arg(rca));
            }
        },
        InitPhase::SendCsd { rca, .. } => {
            lemma_plain_begins(after, CommandKind::SelectCard, crate::init::rca_arg(rca));
        },
        InitPhase::Select { card, .. } => {
            lemma_plain_begins(after, CommandKind::AppCmd, crate::init::rca_arg(card.rca));
        },
        _ => {},
    }
}

/// A step of a command under way.
proof fn lemma_command_step(trace: Seq<(Op, Reply)>, m: Init, reply: Reply)
    requires
        init_sound(trace, m),
        under_way(m) is Some,
        !m.gives_up(reply),
        card_agrees(trace.push((m.op(), reply)), trace.len() as int),
    ensures
        init_step_sound(trace, m, reply),
{
    let (send, kind, vital) = under_way(m)->0;
    lemma_asked(trace, send, kind, reply);
    if vital {
        lemma_asked_well(trace, send, kind, reply);
    } else if m.phase is GoIdle && send.hopeful() && !send.gives_up(reply) {
        lemma_asked_well(trace, send, kind, reply);
    }
    if send.next(reply) is Done {
        lemma_command_over(trace, m, reply);
    }
}

/// Replies that identification takes at most if nothing delays it.
pub const INIT_REPLIES: u32 = 755;

spec fn init_advances(trace: Seq<(Op, Reply)>, at: Step<Init, SdMmcResult<Card>>) -> bool {
    let allowed = INIT_REPLIES + DELAY_COST * delay(trace);
    card_willing(trace) ==> match at {
        Step::Next(m) => init_sound(trace, m) && init_rank(m) > 0 && trace.len() + init_rank(m)
            <= allowed,
        Step::Done(result) => result is Ok && trace.len() <= allowed,
    }
}

proof fn lemma_init_advances(trace: Seq<(Op, Reply)>, m: Init, reply: Reply)
    requires
        init_advances(trace, Step::Next(m)),
        !m.gives_up(reply),
    ensures
        init_advances(trace.push((m.op(), reply)), m.next(reply)),
{
    let after = trace.push((m.op(), reply));
    let now = trace.len() as int;
    if card_willing(after) {
        assert forall|i: int| 0 <= i < trace.len() implies #[trigger] card_agrees(trace, i) by {
            assert(card_agrees(after, i));
            assert(after.take(i) =~= trace.take(i));
        }
        assert(after.drop_last() =~= trace);
        assert(card_agrees(after, now));
        if under_way(m) is Some {
            lemma_command_step(trace, m, reply);
        } else {
            match m.phase {
                InitPhase::Switch { switch, .. } => lemma_switch_sound(trace, switch, reply),
                InitPhase::ClockOff | InitPhase::ClockOn => lemma_latch_begins(after),
                InitPhase::ResetInterface => lemma_plain_begins(
                    after,
                    CommandKind::GoIdleState,
                    0,
                ),
                InitPhase::OpCondClock { .. } => lemma_plain_begins(after, CommandKind::AppCmd, 0),
                InitPhase::ScrByteCount(_) => lemma_scr_begins(after),
                _ => {},
            }
            assert(init_step_sound(trace, m, reply));
        }
    }
}

/// No wait of identification that matters is given up: each ends before its deadline.
pub open spec fn identified_in_time(
    start: Step<Init, SdMmcResult<Card>>,
    replies: Seq<Reply>,
) -> bool {
    never(start, replies, |m: Init, reply: Reply| m.gives_up(reply))
}

/// Identification succeeds if nothing goes wrong: the card answers each command as a
/// supported card does and completes its power-up in time, no command fails but those
/// that may, and the clock registers keep what is written. The number of replies is
/// limited but for the operations that delay identification.
pub proof fn law_supported_card_is_identified(replies: Seq<Reply>)
    ensures
        ({
            let start = Step::Next(Init::new());
            let done = run(start, replies);
            let limit = INIT_REPLIES + DELAY_COST * delay(done.trace);
            identified_in_time(start, replies) && card_willing(done.trace) ==> match done.at {
                Step::Next(_) => replies.len() < limit,
                Step::Done(result) => result is Ok && done.trace.len() <= limit,
            }
        }),
{
    let start = Step::<Init, SdMmcResult<Card>>::Next(Init::new());
    let bad = |m: Init, reply: Reply| m.gives_up(reply);
    let inv = |trace: Seq<(Op, Reply)>, at: Step<Init, SdMmcResult<Card>>|
        init_advances(trace, at);
    assert forall|trace: Seq<(Op, Reply)>, m: Init, reply: Reply|
        inv(trace, Step::Next(m)) && !bad(m, reply) implies #[trigger] inv(
        trace.push((m.op(), reply)),
        m.next(reply),
    ) by {
        lemma_init_advances(trace, m, reply);
    }
    if identified_in_time(start, replies) {
        crate::io::lemma_run_invariant_without(start, replies, bad, inv);
        crate::io::lemma_unended(start, replies);
    }
}

} // verus!
