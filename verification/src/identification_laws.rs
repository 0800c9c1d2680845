//! What identification says to controller and card, word for word.

use vstd::prelude::*;

use crate::clock::{ProgramClock, ProgramPhase, SwitchPhase};
use crate::cmd::CommandKind;
use crate::error::SdMmcResult;
use crate::init::{cid_word, csd_word, published_rca, Card, Init, InitPhase};
use crate::io::{run, Machine, Op, Reply, Step};
use crate::regs::Reg;
use crate::send::{SendCmd, SendPhase};
use crate::trace::last_written;

verus! {

/// The clock in force: divider and enable bits as they were when the controller was last
/// told to take them over.
pub open spec fn clock_in_force(trace: Seq<(Op, Reply)>) -> Option<(Option<u32>, Option<u32>)>
    decreases trace.len(),
{
    if trace.len() == 0 {
        None
    } else {
        let before = trace.drop_last();
        match trace.last().0 {
            Op::Write(Reg::Cmd, word) => if word == 0x8020_0000 {
                Some((last_written(before, Reg::ClkDiv), last_written(before, Reg::ClkEna)))
            } else {
                clock_in_force(before)
            },
            _ => clock_in_force(before),
        }
    }
}

/// The operation changes a setting of the controller, or lets a change take effect:
/// anything that is written but commands, arguments and acknowledgements, and any delay.
pub open spec fn is_setting(op: Op) -> bool {
    match op {
        Op::Write(reg, _) => reg != Reg::Cmd && reg != Reg::CmdArg && reg != Reg::RIntSts,
        Op::Update { .. } => true,
        Op::Delay(_) => true,
        _ => false,
    }
}

/// The settings that were made, in order.
pub open spec fn settings(trace: Seq<(Op, Reply)>) -> Seq<Op>
    decreases trace.len(),
{
    if trace.len() == 0 {
        Seq::empty()
    } else if is_setting(trace.last().0) {
        settings(trace.drop_last()).push(trace.last().0)
    } else {
        settings(trace.drop_last())
    }
}

/// A command for the card and the circumstances in which it was sent.
pub ghost struct CardCommand {
    /// The word.
    pub word: u32,
    /// The argument.
    pub arg: Option<u32>,
    /// The clock in force.
    pub clock: Option<(Option<u32>, Option<u32>)>,
    /// The settings made before.
    pub settings: Seq<Op>,
}

/// The commands for the card, in order. Telling the controller to take over a clock is
/// none.
pub open spec fn card_commands(trace: Seq<(Op, Reply)>) -> Seq<CardCommand>
    decreases trace.len(),
{
    if trace.len() == 0 {
        Seq::empty()
    } else {
        let before = trace.drop_last();
        match trace.last().0 {
            Op::Write(Reg::Cmd, word) => if word == 0x8020_0000 {
                card_commands(before)
            } else {
                card_commands(before).push(
                    CardCommand {
                        word,
                        arg: last_written(before, Reg::CmdArg),
                        clock: clock_in_force(before),
                        settings: settings(before),
                    },
                )
            },
            _ => card_commands(before),
        }
    }
}

/// The last response to a command of this word.
pub open spec fn answer(trace: Seq<(Op, Reply)>, word: u32) -> Option<[u32; 4]>
    decreases trace.len(),
{
    if trace.len() == 0 {
        None
    } else {
        let before = trace.drop_last();
        if trace.last().0 == Op::Response && last_written(before, Reg::Cmd) == Some(word) {
            Some(trace.last().1.response())
        } else {
            answer(before, word)
        }
    }
}

/// What one more operation makes of the accounts.
proof fn lemma_push(trace: Seq<(Op, Reply)>, op: Op, reply: Reply)
    ensures
        ({
            let after = trace.push((op, reply));
            &&& clock_in_force(after) == (if op == Op::Write(Reg::Cmd, 0x8020_0000) {
                Some((last_written(trace, Reg::ClkDiv), last_written(trace, Reg::ClkEna)))
            } else {
                clock_in_force(trace)
            })
            &&& settings(after) == (if is_setting(op) {
                settings(trace).push(op)
            } else {
                settings(trace)
            })
            &&& card_commands(after) == (match op {
                Op::Write(Reg::Cmd, word) => if word == 0x8020_0000 {
                    card_commands(trace)
                } else {
                    card_commands(trace).push(
                        CardCommand {
                            word,
                            arg: last_written(trace, Reg::CmdArg),
                            clock: clock_in_force(trace),
                            settings: settings(trace),
                        },
                    )
                },
                _ => card_commands(trace),
            })
            &&& forall|word: u32| #[trigger]
                answer(after, word) == (if op == Op::Response && last_written(trace, Reg::Cmd)
                    == Some(word) {
                    Some(reply.response())
                } else {
                    answer(trace, word)
                })
        }),
{
    assert(trace.push((op, reply)).drop_last() =~= trace);
    crate::trace::lemma_accounts_push(trace, op, reply);
}

/// How the controller is set up before the first command: the clock is turned off, gets
/// its divider for identification and is turned on again, the card is powered, each with
/// time to settle; the bus is one bit wide, and the engine is stopped and disconnected.
pub open spec fn setup() -> Seq<Op> {
    seq![
        Op::Write(Reg::ClkEna, 0),
        Op::Write(Reg::ClkDiv, 100),
        Op::Write(Reg::ClkEna, 1),
        Op::Delay(10_000),
        Op::Write(Reg::PwrEn, 1),
        Op::Delay(100_000),
        Op::Write(Reg::CType, 0),
        Op::Update { reg: Reg::BMod, clear: 0x80, set: 0x1 },
        Op::Update { reg: Reg::Ctrl, clear: 0x0200_0000, set: 0x4 },
    ]
}

/// For the SCR register one block of eight bytes is announced.
pub open spec fn scr_setup() -> Seq<Op> {
    setup() + seq![
        Op::Update { reg: Reg::BlkSiz, clear: 0xffff, set: 8 },
        Op::Write(Reg::BytCnt, 8),
    ]
}

/// In the end the clock gets its divider for Default Speed, while it is off.
pub open spec fn full_setup() -> Seq<Op> {
    scr_setup() + seq![
        Op::Write(Reg::ClkEna, 0),
        Op::Write(Reg::ClkDiv, 1),
        Op::Write(Reg::ClkEna, 1),
    ]
}

/// A clock with this divider is in force and runs.
pub open spec fn clock_runs(trace: Seq<(Op, Reply)>, divider: u32) -> bool {
    clock_in_force(trace) == Some((Some(divider), Some(1u32)))
}

/// A command sent at the identification clock, with these settings.
pub open spec fn at_setup(word: u32, arg: u32, settings: Seq<Op>) -> CardCommand {
    CardCommand { word, arg: Some(arg), clock: Some((Some(100u32), Some(1u32))), settings }
}

/// CMD0, which lets the initialization sequence precede, and CMD8, which offers 2.7 to
/// 3.6 V and a check pattern.
pub open spec fn opening() -> Seq<CardCommand> {
    seq![at_setup(0xa000_8000, 0, setup()), at_setup(0xa000_0148, 0x1aa, setup())]
}

/// CMD55 for no address, or ACMD41, which offers high capacity support and the whole
/// voltage window.
pub open spec fn powers_up(command: CardCommand) -> bool {
    ||| command == at_setup(0xa000_0177, 0, setup())
    ||| command == at_setup(0xa000_0069, 0x40ff_8000, setup())
}

/// CMD2 and CMD3, and then, to the address that the card has published, CMD9, CMD7 and
/// CMD55, and ACMD51.
#[verifier::opaque]
pub open spec fn closing(rca: u16) -> Seq<CardCommand> {
    let address = (rca * 0x1_0000) as u32;
    seq![
        at_setup(0xa000_01c2, 0, setup()),
        at_setup(0xa000_0143, 0, setup()),
        at_setup(0xa000_01c9, address, setup()),
        at_setup(0xa000_0147, address, setup()),
        at_setup(0xa000_0177, address, setup()),
        at_setup(0xa000_0373, 0, scr_setup()),
    ]
}

/// The commands are the opening and inquiries while the card powers up.
pub open spec fn opens(commands: Seq<CardCommand>) -> bool {
    &&& commands.len() >= 2
    &&& commands.take(2) == opening()
    &&& forall|k: int| 2 <= k < commands.len() ==> powers_up(#[trigger] commands[k])
}

/// The last `n` commands are the first `n` of the closing, those before open.
#[verifier::opaque]
pub open spec fn script(commands: Seq<CardCommand>, n: int, rca: u16) -> bool {
    &&& 0 <= n <= 6
    &&& opens(commands.take(commands.len() - n))
    &&& commands.len() >= n
    &&& commands.skip(commands.len() - n) == closing(rca).take(n)
}

/// The commands are as many as were sent of those that identification consists of.
pub open spec fn keeps_to_script(commands: Seq<CardCommand>) -> bool {
    ||| commands == opening().take(0)
    ||| commands == opening().take(1)
    ||| exists|n: int, rca: u16| #[trigger] script(commands, n, rca)
}

proof fn lemma_script_starts(commands: Seq<CardCommand>)
    requires
        opens(commands),
    ensures
        forall|rca: u16| #[trigger] script(commands, 0, rca),
{
    reveal(script);
    assert(commands.take(commands.len() as int) =~= commands);
    assert forall|rca: u16| #[trigger] script(commands, 0, rca) by {
        assert(commands.skip(commands.len() as int) =~= closing(rca).take(0));
    }
}

/// The commands of the closing.
proof fn lemma_closing(rca: u16)
    ensures
        ({
            let address = (rca * 0x1_0000) as u32;
            &&& closing(rca)[0] == at_setup(0xa000_01c2, 0, setup())
            &&& closing(rca)[1] == at_setup(0xa000_0143, 0, setup())
            &&& closing(rca)[2] == at_setup(0xa000_01c9, address, setup())
            &&& closing(rca)[3] == at_setup(0xa000_0147, address, setup())
            &&& closing(rca)[4] == at_setup(0xa000_0177, address, setup())
            &&& closing(rca)[5] == at_setup(0xa000_0373, 0, scr_setup())
        }),
{
    reveal(closing);
}

proof fn lemma_script_goes_on(commands: Seq<CardCommand>, n: int, rca: u16, later: CardCommand)
    requires
        script(commands, n, rca),
        n < 6,
        later == closing(rca)[n],
    ensures
        script(commands.push(later), n + 1, rca),
{
    reveal(script);
    reveal(closing);
    let after = commands.push(later);
    assert(after.take(after.len() - (n + 1)) =~= commands.take(commands.len() - n));
    assert(after.skip(after.len() - (n + 1)) =~= commands.skip(commands.len() - n).push(later));
    assert(closing(rca).take(n + 1) =~= closing(rca).take(n).push(later));
}

/// The address does not matter before it is published.
proof fn lemma_script_of_any(commands: Seq<CardCommand>, n: int, rca: u16, other: u16)
    requires
        script(commands, n, rca),
        n <= 2,
    ensures
        script(commands, n, other),
{
    reveal(script);
    reveal(closing);
    assert(closing(rca).take(n) =~= closing(other).take(n));
}

/// The commands before the one under way.
spec fn before_it(trace: Seq<(Op, Reply)>, send: SendCmd) -> Seq<CardCommand> {
    if send.phase.before_submission() {
        card_commands(trace)
    } else {
        card_commands(trace).drop_last()
    }
}

/// The submission of a command: it is not among the commands sent, or it is the last of
/// them.
spec fn sending(
    trace: Seq<(Op, Reply)>,
    send: SendCmd,
    kind: CommandKind,
    arg: u32,
    earlier: Seq<CardCommand>,
    settings: Seq<Op>,
) -> bool {
    &&& send.request.kind == kind
    &&& send.request.arg == arg
    &&& self::settings(trace) == settings
    &&& clock_runs(trace, 100)
    &&& if send.phase.before_submission() {
        &&& card_commands(trace) == earlier
        &&& send.phase is WriteCmd ==> last_written(trace, Reg::CmdArg) == Some(arg)
    } else {
        &&& card_commands(trace) == earlier.push(at_setup(kind.word().0, arg, settings))
        &&& last_written(trace, Reg::Cmd) == Some(kind.word().0)
        &&& send.phase matches SendPhase::ClearFinal { response } ==> answer(trace, kind.word().0)
            == Some(response)
    }
}

proof fn lemma_sending(
    trace: Seq<(Op, Reply)>,
    send: SendCmd,
    kind: CommandKind,
    arg: u32,
    earlier: Seq<CardCommand>,
    settings: Seq<Op>,
    reply: Reply,
)
    requires
        sending(trace, send, kind, arg, earlier, settings),
        kind != CommandKind::ResetClock,
    ensures
        ({
            let after = trace.push((send.op(), reply));
            let sent = earlier.push(at_setup(kind.word().0, arg, settings));
            &&& self::settings(after) == settings
            &&& clock_runs(after, 100)
            &&& forall|word: u32|
                word != kind.word().0 ==> #[trigger] answer(after, word) == answer(trace, word)
            &&& match send.next(reply) {
                Step::Next(later) => sending(after, later, kind, arg, earlier, settings)
                    && before_it(after, later) == earlier,
                Step::Done(Ok(response)) => card_commands(after) == sent && answer(
                    after,
                    kind.word().0,
                ) == Some(response),
                Step::Done(Err(_)) => card_commands(after) == earlier || card_commands(after)
                    == sent,
            }
            &&& send.next(reply) is Done && !send.phase.before_submission() ==> card_commands(after)
                == sent
        }),
{
    lemma_push(trace, send.op(), reply);
    crate::trace::lemma_accounts_push(trace, send.op(), reply);
    assert(kind.word().0 != 0x8020_0000);
    assert(earlier.push(at_setup(kind.word().0, arg, settings)).drop_last() =~= earlier);
}

/// A latch of the clock registers: nothing is sent to the card, and the clock is in force
/// afterwards.
spec fn latching(
    trace: Seq<(Op, Reply)>,
    send: SendCmd,
    divider: Option<u32>,
    enable: u32,
    commands: Seq<CardCommand>,
    settings: Seq<Op>,
) -> bool {
    &&& send.request.kind == CommandKind::ResetClock
    &&& self::settings(trace) == settings
    &&& card_commands(trace) == commands
    &&& last_written(trace, Reg::ClkDiv) == divider
    &&& last_written(trace, Reg::ClkEna) == Some(enable)
    &&& !send.phase.before_submission() ==> {
        &&& clock_in_force(trace) == Some((divider, Some(enable)))
        &&& last_written(trace, Reg::Cmd) == Some(0x8020_0000u32)
    }
}

proof fn lemma_latching(
    trace: Seq<(Op, Reply)>,
    send: SendCmd,
    divider: Option<u32>,
    enable: u32,
    commands: Seq<CardCommand>,
    settings: Seq<Op>,
    reply: Reply,
)
    requires
        latching(trace, send, divider, enable, commands, settings),
    ensures
        ({
            let after = trace.push((send.op(), reply));
            &&& forall|word: u32|
                word != 0x8020_0000 ==> #[trigger] answer(after, word) == answer(trace, word)
            &&& self::settings(after) == settings
            &&& card_commands(after) == commands
            &&& last_written(after, Reg::ClkDiv) == divider
            &&& last_written(after, Reg::ClkEna) == Some(enable)
            &&& match send.next(reply) {
                Step::Next(later) => latching(after, later, divider, enable, commands, settings),
                Step::Done(result) => result is Ok ==> clock_in_force(after) == Some(
                    (divider, Some(enable)),
                ),
            }
        }),
{
    lemma_push(trace, send.op(), reply);
    crate::trace::lemma_accounts_push(trace, send.op(), reply);
}

/// The programming of the clock for Default Speed.
spec fn programming(
    trace: Seq<(Op, Reply)>,
    program: ProgramClock,
    commands: Seq<CardCommand>,
) -> bool {
    let full = full_setup();
    &&& program.divider == 1
    &&& card_commands(trace) == commands
    &&& match program.phase {
        ProgramPhase::Disable => settings(trace) == full.take(11),
        ProgramPhase::LatchDisabled(send) => latching(
            trace,
            send,
            last_written(trace, Reg::ClkDiv),
            0,
            commands,
            full.take(12),
        ),
        ProgramPhase::Divider => settings(trace) == full.take(12) && last_written(
            trace,
            Reg::ClkEna,
        ) == Some(0u32) && clock_is_off(trace),
        ProgramPhase::LatchDivider(send) => latching(
            trace,
            send,
            Some(1),
            0,
            commands,
            full.take(13),
        ),
        ProgramPhase::Enable => settings(trace) == full.take(13) && last_written(trace, Reg::ClkDiv)
            == Some(1u32),
        ProgramPhase::LatchEnabled(send) => latching(trace, send, Some(1), 1, commands, full),
        _ => settings(trace) == full && clock_runs(trace, 1),
    }
}

proof fn lemma_full_setup()
    ensures
        full_setup().take(0) == Seq::<Op>::empty(),
        full_setup().take(9) == setup(),
        full_setup().take(11) == scr_setup(),
        full_setup().take(14) == full_setup(),
{
    assert(full_setup().take(0) =~= Seq::<Op>::empty());
    assert(full_setup().take(9) =~= setup());
    assert(full_setup().take(11) =~= scr_setup());
    assert(full_setup().take(14) =~= full_setup());
}

/// One more setting is made.
proof fn lemma_next_setting(k: int)
    requires
        0 <= k < 14,
    ensures
        full_setup().take(k + 1) == full_setup().take(k).push(full_setup()[k]),
{
    assert(full_setup().take(k + 1) =~= full_setup().take(k).push(full_setup()[k]));
}

proof fn lemma_programming(
    trace: Seq<(Op, Reply)>,
    program: ProgramClock,
    commands: Seq<CardCommand>,
    reply: Reply,
)
    requires
        programming(trace, program, commands),
    ensures
        ({
            let after = trace.push((program.op(), reply));
            &&& card_commands(after) == commands
            &&& forall|word: u32|
                word != 0x8020_0000 ==> #[trigger] answer(after, word) == answer(trace, word)
            &&& program.op() matches Op::Write(Reg::ClkDiv, _) ==> (clock_in_force(trace) matches
                Some((_, enabled)) && enabled == Some(0u32))
            &&& match program.next(reply) {
                Step::Next(later) => programming(after, later, commands),
                Step::Done(set) => set ==> settings(after) == full_setup() && clock_runs(after, 1),
            }
        }),
{
    let after = trace.push((program.op(), reply));
    let full = full_setup();
    lemma_push(trace, program.op(), reply);
    crate::trace::lemma_accounts_push(trace, program.op(), reply);
    lemma_full_setup();
    lemma_next_setting(11);
    lemma_next_setting(12);
    lemma_next_setting(13);
    match program.phase {
        ProgramPhase::LatchDisabled(send) => {
            let divider = last_written(trace, Reg::ClkDiv);
            lemma_latching(trace, send, divider, 0, commands, full.take(12), reply);
        },
        ProgramPhase::LatchDivider(send) => {
            lemma_latching(trace, send, Some(1), 0, commands, full.take(13), reply);
        },
        ProgramPhase::LatchEnabled(send) => {
            lemma_latching(trace, send, Some(1), 1, commands, full, reply);
        },
        _ => {},
    }
}

/// What is known of the card is what it has answered: its address from CMD3, its
/// identification from CMD2.
spec fn answered(trace: Seq<(Op, Reply)>, rca: u16, cid: crate::card::Cid) -> bool {
    &&& answer(trace, 0xa000_0143) matches Some(response) && published_rca(response[0]) == Some(rca)
    &&& answer(trace, 0xa000_01c2) matches Some(response) && cid_word(response) == cid
}

/// The card is the one that has answered.
#[verifier::opaque]
pub open spec fn card_answered(trace: Seq<(Op, Reply)>, card: Card) -> bool {
    &&& answer(trace, 0xa000_0143) matches Some(response) && {
        &&& response[0] & 0xe000 == 0
        &&& response[0] / 0x1_0000 == card.rca
        &&& card.rca != 0
    }
    &&& answer(trace, 0xa000_01c2) matches Some(response) && card.cid == cid_word(response)
    &&& answer(trace, 0xa000_01c9) matches Some(response) && card.csd == csd_word(response)
    &&& card.num_blocks == (card.csd.c_size() + 1) * 1024
}

/// What the card has answered stays so while other commands are sent.
proof fn lemma_answers_stay(before: Seq<(Op, Reply)>, after: Seq<(Op, Reply)>, card: Card)
    requires
        card_answered(before, card),
        answer(after, 0xa000_0143) == answer(before, 0xa000_0143),
        answer(after, 0xa000_01c2) == answer(before, 0xa000_01c2),
        answer(after, 0xa000_01c9) == answer(before, 0xa000_01c9),
    ensures
        card_answered(after, card),
        card_answered(after, Card { scr_read: true, ..card }),
{
    reveal(card_answered);
}

/// The card is known once it has answered CMD9.
proof fn lemma_answers_complete(trace: Seq<(Op, Reply)>, card: Card, response: [u32; 4])
    requires
        answered(trace, card.rca, card.cid),
        answer(trace, 0xa000_01c9) == Some(response),
        card.csd == csd_word(response),
        card.num_blocks == (card.csd.c_size() + 1) * 1024,
    ensures
        card_answered(trace, card),
{
    reveal(card_answered);
}

/// What identification has said so far.
spec fn said(trace: Seq<(Op, Reply)>, m: Init) -> bool {
    let c = card_commands(trace);
    let none = Seq::<CardCommand>::empty();
    let s = settings(trace);
    let full = full_setup();
    match m.phase {
        InitPhase::ClearStale => s == full.take(0) && c == none && last_written(trace, Reg::ClkDiv)
            is None,
        InitPhase::ClockOff => s == full.take(0) && c == none && last_written(trace, Reg::ClkDiv)
            is None,
        InitPhase::LatchOff(send) => latching(trace, send, None, 0, none, full.take(1)),
        InitPhase::Divider => s == full.take(1) && c == none && clock_in_force(trace) == Some(
            (None::<u32>, Some(0u32)),
        ),
        InitPhase::ClockOn => s == full.take(2) && c == none && last_written(trace, Reg::ClkDiv)
            == Some(100u32),
        InitPhase::LatchOn(send) => latching(trace, send, Some(100), 1, none, full.take(3)),
        InitPhase::ClockSettle => s == full.take(3) && c == none && clock_runs(trace, 100),
        InitPhase::Power => s == full.take(4) && c == none && clock_runs(trace, 100),
        InitPhase::PowerSettle => s == full.take(5) && c == none && clock_runs(trace, 100),
        InitPhase::BusWidth => s == full.take(6) && c == none && clock_runs(trace, 100),
        InitPhase::StopEngine => s == full.take(7) && c == none && clock_runs(trace, 100),
        InitPhase::ResetInterface => s == full.take(8) && c == none && clock_runs(trace, 100),
        InitPhase::GoIdle(send) => sending(
            trace,
            send,
            CommandKind::GoIdleState,
            0,
            none,
            setup(),
        ),
        InitPhase::IfCond(send) => sending(
            trace,
            send,
            CommandKind::SendIfCond,
            0x1aa,
            opening().take(1),
            setup(),
        ),
        InitPhase::OpCondStart => s == setup() && clock_runs(trace, 100) && opens(c),
        InitPhase::OpCondClock { .. } => s == setup() && clock_runs(trace, 100) && opens(c),
        InitPhase::OpCondPause { .. } => s == setup() && clock_runs(trace, 100) && opens(c),
        InitPhase::OpCondApp { send, .. } => opens(before_it(trace, send)) && sending(
                trace,
                send,
                CommandKind::AppCmd,
                0,
                before_it(trace, send),
                setup(),
            ),
        InitPhase::OpCond { send, .. } => opens(before_it(trace, send)) && sending(
                trace,
                send,
                CommandKind::SdSendOpCond,
                0x40ff_8000,
                before_it(trace, send),
                setup(),
            ),
        InitPhase::AllSendCid(send) => script(before_it(trace, send), 0, 0) && sending(
                trace,
                send,
                CommandKind::AllSendCid,
                0,
                before_it(trace, send),
                setup(),
            ),
        InitPhase::RelativeAddr { send, cid } => {
            &&& answer(trace, 0xa000_01c2) matches Some(response) && cid_word(response) == cid
            &&& script(before_it(trace, send), 1, 0) && sending(
                    trace,
                    send,
                    CommandKind::SendRelativeAddr,
                    0,
                    before_it(trace, send),
                    setup(),
                )
        },
        InitPhase::SendCsd { send, cid, rca } => {
            &&& answered(trace, rca, cid)
            &&& script(before_it(trace, send), 2, rca) && sending(
                    trace,
                    send,
                    CommandKind::SendCsd,
                    (rca * 0x1_0000) as u32,
                    before_it(trace, send),
                    setup(),
                )
        },
        InitPhase::Select { send, card } => {
            &&& card_answered(trace, card)
            &&& script(before_it(trace, send), 3, card.rca) && sending(
                    trace,
                    send,
                    CommandKind::SelectCard,
                    (card.rca * 0x1_0000) as u32,
                    before_it(trace, send),
                    setup(),
                )
        },
        InitPhase::ScrApp { send, card } => {
            &&& card_answered(trace, card)
            &&& script(before_it(trace, send), 4, card.rca) && sending(
                    trace,
                    send,
                    CommandKind::AppCmd,
                    (card.rca * 0x1_0000) as u32,
                    before_it(trace, send),
                    setup(),
                )
        },
        InitPhase::ScrBlockSize(card) => card_answered(trace, card) && script(c, 5, card.rca) && s
            == full.take(9) && clock_runs(trace, 100),
        InitPhase::ScrByteCount(card) => card_answered(trace, card) && script(c, 5, card.rca) && s
            == full.take(10) && clock_runs(trace, 100),
        InitPhase::Scr { send, card } => {
            &&& card_answered(trace, card)
            &&& script(before_it(trace, send), 5, card.rca) && sending(
                    trace,
                    send,
                    CommandKind::SendScr,
                    0,
                    before_it(trace, send),
                    scr_setup(),
                )
        },
        InitPhase::ClearFinal(card) => card_answered(trace, card) && script_over(c, card.rca) && s
            == full.take(11),
        InitPhase::Switch { switch, card } => script_over(c, card.rca) && (switch.phase is Rollback
            || card_answered(trace, card)) && match switch.phase {
            SwitchPhase::Program { program, .. } => programming(trace, program, c),
            SwitchPhase::Rollback(program) => turned_off(trace, program),
            _ => s == full.take(11) && switch.divider == 1,
        },
    }
}

/// All commands were sent, but for ACMD51 if the controller did not take it.
pub open spec fn script_over(commands: Seq<CardCommand>, rca: u16) -> bool {
    script(commands, 5, rca) || script(commands, 6, rca)
}

/// What identification has said at every point.
spec fn identifies(trace: Seq<(Op, Reply)>, at: Step<Init, SdMmcResult<Card>>) -> bool {
    &&& keeps_to_script(card_commands(trace))
    &&& match at {
        Step::Next(m) => said(trace, m),
        Step::Done(Ok(card)) => well_identified(trace, card),
        Step::Done(Err(_)) => true,
    }
}

/// The card is the one that has answered, and the controller is set up for it.
pub open spec fn well_identified(trace: Seq<(Op, Reply)>, card: Card) -> bool {
    &&& card_answered(trace, card)
    &&& script_over(card_commands(trace), card.rca)
    &&& settings(trace) == full_setup()
    &&& clock_runs(trace, 1)
}

/// The settings before the first command.
proof fn lemma_setup_step(trace: Seq<(Op, Reply)>, m: Init, reply: Reply)
    requires
        said(trace, m),
        match m.phase {
            InitPhase::ClearStale => true,
            InitPhase::ClockOff => true,
            InitPhase::LatchOff(_) => true,
            InitPhase::Divider => true,
            InitPhase::ClockOn => true,
            InitPhase::LatchOn(_) => true,
            InitPhase::ClockSettle => true,
            InitPhase::Power => true,
            InitPhase::PowerSettle => true,
            InitPhase::BusWidth => true,
            InitPhase::StopEngine => true,
            InitPhase::ResetInterface => true,
            _ => false,
        },
    ensures
        identifies(trace.push((m.op(), reply)), m.next(reply)),
        m.op() matches Op::Write(Reg::ClkDiv, _) ==> clock_is_off(trace),
{
    let none = Seq::<CardCommand>::empty();
    let full = full_setup();
    lemma_push(trace, m.op(), reply);
    crate::trace::lemma_accounts_push(trace, m.op(), reply);
    lemma_full_setup();
    assert(opening().take(0) =~= none);
    match m.phase {
        InitPhase::ClockOff => lemma_next_setting(0),
        InitPhase::LatchOff(send) => {
            lemma_latching(trace, send, None, 0, none, full.take(1), reply);
        },
        InitPhase::Divider => lemma_next_setting(1),
        InitPhase::ClockOn => lemma_next_setting(2),
        InitPhase::LatchOn(send) => {
            lemma_latching(trace, send, Some(100), 1, none, full.take(3), reply);
        },
        InitPhase::ClockSettle => lemma_next_setting(3),
        InitPhase::Power => lemma_next_setting(4),
        InitPhase::PowerSettle => lemma_next_setting(5),
        InitPhase::BusWidth => lemma_next_setting(6),
        InitPhase::StopEngine => lemma_next_setting(7),
        InitPhase::ResetInterface => lemma_next_setting(8),
        _ => {},
    }
}

/// The card's clock is off.
pub open spec fn clock_is_off(trace: Seq<(Op, Reply)>) -> bool {
    clock_in_force(trace) matches Some((_, enabled)) && enabled == Some(0u32)
}

/// Any programming of the clock sends nothing to the card, and sets the divider while the
/// clock is off.
spec fn turned_off(trace: Seq<(Op, Reply)>, program: ProgramClock) -> bool {
    &&& crate::clock::programming(program)
    &&& match program.phase {
        ProgramPhase::LatchDisabled(send) => last_written(trace, Reg::ClkEna) == Some(0u32) && (
        !send.phase.before_submission() ==> clock_is_off(trace)),
        ProgramPhase::Divider => clock_is_off(trace),
        _ => true,
    }
}

proof fn lemma_turned_off(trace: Seq<(Op, Reply)>, program: ProgramClock, reply: Reply)
    requires
        turned_off(trace, program),
    ensures
        ({
            let after = trace.push((program.op(), reply));
            &&& card_commands(after) == card_commands(trace)
            &&& program.op() matches Op::Write(Reg::ClkDiv, _) ==> clock_is_off(trace)
            &&& program.next(reply) matches Step::Next(later) ==> turned_off(after, later)
        }),
{
    lemma_push(trace, program.op(), reply);
    crate::trace::lemma_accounts_push(trace, program.op(), reply);
}

/// A command that was sent goes on the script.
proof fn lemma_script_sent(
    earlier: Seq<CardCommand>,
    n: int,
    rca: u16,
    sent: CardCommand,
)
    requires
        script(earlier, n, rca),
        0 <= n < 6,
        sent == closing(rca)[n],
    ensures
        script(earlier.push(sent), n + 1, rca),
        keeps_to_script(earlier),
        keeps_to_script(earlier.push(sent)),
{
    lemma_script_goes_on(earlier, n, rca, sent);
}

proof fn lemma_opening_step(trace: Seq<(Op, Reply)>, m: Init, reply: Reply)
    requires
        said(trace, m),
        m.phase is GoIdle || m.phase is IfCond,
    ensures
        identifies(trace.push((m.op(), reply)), m.next(reply)),
{
    let none = Seq::<CardCommand>::empty();
    let after = trace.push((m.op(), reply));
    assert(opening().take(0) =~= none);
    assert(opening().take(1) =~= none.push(opening()[0]));
    assert(opening().take(2) =~= opening());
    let both = opening().take(1).push(opening()[1]);
    assert(both =~= opening());
    assert(both.take(2) =~= opening());
    assert(opens(both));
    lemma_script_starts(both);
    assert(script(both, 0, 0));
    match m.phase {
        InitPhase::GoIdle(send) => {
            lemma_sending(trace, send, CommandKind::GoIdleState, 0, none, setup(), reply);
        },
        InitPhase::IfCond(send) => {
            lemma_sending(
                trace,
                send,
                CommandKind::SendIfCond,
                0x1aa,
                opening().take(1),
                setup(),
                reply,
            );
        },
        _ => {},
    }
}

/// One more inquiry while the card powers up.
proof fn lemma_inquiry(earlier: Seq<CardCommand>, inquiry: CardCommand)
    requires
        opens(earlier),
        powers_up(inquiry),
    ensures
        opens(earlier.push(inquiry)),
        keeps_to_script(earlier),
        keeps_to_script(earlier.push(inquiry)),
{
    let later = earlier.push(inquiry);
    assert(later.take(2) =~= earlier.take(2));
    lemma_script_starts(earlier);
    lemma_script_starts(later);
    assert(script(earlier, 0, 0) && script(later, 0, 0));
}

proof fn lemma_power_up_step(trace: Seq<(Op, Reply)>, m: Init, reply: Reply)
    requires
        said(trace, m),
        match m.phase {
            InitPhase::OpCondStart => true,
            InitPhase::OpCondClock { .. } => true,
            InitPhase::OpCondPause { .. } => true,
            InitPhase::OpCondApp { .. } => true,
            InitPhase::OpCond { .. } => true,
            _ => false,
        },
    ensures
        identifies(trace.push((m.op(), reply)), m.next(reply)),
{
    let after = trace.push((m.op(), reply));
    lemma_push(trace, m.op(), reply);
    match m.phase {
        InitPhase::OpCondApp { send, .. } => {
            let earlier = before_it(trace, send);
            lemma_sending(trace, send, CommandKind::AppCmd, 0, earlier, setup(), reply);
            lemma_inquiry(earlier, at_setup(0xa000_0177, 0, setup()));
            if let Step::Next(Init { phase: InitPhase::OpCond { send: later, .. } }) = m.next(
                reply,
            ) {
                assert(sending(
                    after,
                    later,
                    CommandKind::SdSendOpCond,
                    0x40ff_8000,
                    earlier.push(at_setup(0xa000_0177, 0, setup())),
                    setup(),
                ));
            }
        },
        InitPhase::OpCond { send, .. } => {
            let earlier = before_it(trace, send);
            lemma_sending(
                trace,
                send,
                CommandKind::SdSendOpCond,
                0x40ff_8000,
                earlier,
                setup(),
                reply,
            );
            let sent = earlier.push(at_setup(0xa000_0069, 0x40ff_8000, setup()));
            lemma_inquiry(earlier, at_setup(0xa000_0069, 0x40ff_8000, setup()));
            lemma_script_starts(sent);
            assert(script(sent, 0, 0));
            if let Step::Next(Init { phase: InitPhase::AllSendCid(later) }) = m.next(reply) {
                assert(sending(after, later, CommandKind::AllSendCid, 0, sent, setup()));
            }
        },
        _ => {
            let c = card_commands(trace);
            lemma_script_starts(c);
            assert(script(c, 0, 0));
            if let Step::Next(Init { phase: InitPhase::OpCondApp { send, .. } }) = m.next(reply) {
                assert(sending(after, send, CommandKind::AppCmd, 0, c, setup()));
            }
        },
    }
}

proof fn lemma_naming_step(trace: Seq<(Op, Reply)>, m: Init, reply: Reply)
    requires
        said(trace, m),
        m.phase is AllSendCid || m.phase is RelativeAddr,
    ensures
        identifies(trace.push((m.op(), reply)), m.next(reply)),
{
    let after = trace.push((m.op(), reply));
    match m.phase {
        InitPhase::AllSendCid(send) => {
            let earlier = before_it(trace, send);
            let sent = at_setup(0xa000_01c2, 0, setup());
            lemma_sending(trace, send, CommandKind::AllSendCid, 0, earlier, setup(), reply);
            lemma_closing(0);
            lemma_script_sent(earlier, 0, 0, sent);
            if let Step::Next(Init { phase: InitPhase::RelativeAddr { send: later, .. } }) = m.next(
                reply,
            ) {
                assert(sending(
                    after,
                    later,
                    CommandKind::SendRelativeAddr,
                    0,
                    earlier.push(sent),
                    setup(),
                ));
            }
        },
        InitPhase::RelativeAddr { send, .. } => {
            let earlier = before_it(trace, send);
            let sent = at_setup(0xa000_0143, 0, setup());
            lemma_sending(trace, send, CommandKind::SendRelativeAddr, 0, earlier, setup(), reply);
            lemma_closing(0);
            lemma_script_sent(earlier, 1, 0, sent);
            if let Step::Next(Init { phase: InitPhase::SendCsd { send: later, rca, .. } }) = m.next(
                reply,
            ) {
                lemma_script_of_any(earlier.push(sent), 2, 0, rca);
                assert(sending(
                    after,
                    later,
                    CommandKind::SendCsd,
                    (rca * 0x1_0000) as u32,
                    earlier.push(sent),
                    setup(),
                ));
            }
        },
        _ => {},
    }
}

proof fn lemma_csd_step(trace: Seq<(Op, Reply)>, m: Init, reply: Reply)
    requires
        said(trace, m),
        m.phase is SendCsd,
    ensures
        identifies(trace.push((m.op(), reply)), m.next(reply)),
{
    let after = trace.push((m.op(), reply));
    if let InitPhase::SendCsd { send, rca, .. } = m.phase {
        let address = (rca * 0x1_0000) as u32;
        let earlier = before_it(trace, send);
        let sent = at_setup(0xa000_01c9, address, setup());
        lemma_sending(trace, send, CommandKind::SendCsd, address, earlier, setup(), reply);
        lemma_closing(rca);
            lemma_script_sent(earlier, 2, rca, sent);
        if let Step::Next(Init { phase: InitPhase::Select { send: later, card } }) = m.next(reply) {
            lemma_answers_complete(after, card, send.next(reply)->Done_0->Ok_0);
            assert(sending(
                after,
                later,
                CommandKind::SelectCard,
                address,
                earlier.push(sent),
                setup(),
            ));
        }
    }
}

proof fn lemma_select_step(trace: Seq<(Op, Reply)>, m: Init, reply: Reply)
    requires
        said(trace, m),
        m.phase is Select || m.phase is ScrApp,
    ensures
        identifies(trace.push((m.op(), reply)), m.next(reply)),
{
    let after = trace.push((m.op(), reply));
    lemma_full_setup();
    match m.phase {
        InitPhase::Select { send, card } => {
            let address = (card.rca * 0x1_0000) as u32;
            let earlier = before_it(trace, send);
            let sent = at_setup(0xa000_0147, address, setup());
            lemma_sending(trace, send, CommandKind::SelectCard, address, earlier, setup(), reply);
            lemma_answers_stay(trace, after, card);
            lemma_closing(card.rca);
            lemma_script_sent(earlier, 3, card.rca, sent);
            if let Step::Next(Init { phase: InitPhase::ScrApp { send: later, .. } }) = m.next(
                reply,
            ) {
                assert(sending(
                    after,
                    later,
                    CommandKind::AppCmd,
                    address,
                    earlier.push(sent),
                    setup(),
                ));
            }
        },
        InitPhase::ScrApp { send, card } => {
            let address = (card.rca * 0x1_0000) as u32;
            let earlier = before_it(trace, send);
            let sent = at_setup(0xa000_0177, address, setup());
            lemma_sending(trace, send, CommandKind::AppCmd, address, earlier, setup(), reply);
            lemma_answers_stay(trace, after, card);
            lemma_closing(card.rca);
            lemma_script_sent(earlier, 4, card.rca, sent);
        },
        _ => {},
    }
}

proof fn lemma_scr_step(trace: Seq<(Op, Reply)>, m: Init, reply: Reply)
    requires
        said(trace, m),
        match m.phase {
            InitPhase::ScrBlockSize(_) => true,
            InitPhase::ScrByteCount(_) => true,
            InitPhase::Scr { .. } => true,
            InitPhase::ClearFinal(_) => true,
            _ => false,
        },
    ensures
        identifies(trace.push((m.op(), reply)), m.next(reply)),
{
    let after = trace.push((m.op(), reply));
    let c = card_commands(trace);
    lemma_full_setup();
    lemma_push(trace, m.op(), reply);
    crate::trace::lemma_accounts_push(trace, m.op(), reply);
    lemma_next_setting(9);
    lemma_next_setting(10);
    assert(full_setup()[9] == Op::Update { reg: Reg::BlkSiz, clear: 0xffff, set: 8 });
    assert(full_setup()[10] == Op::Write(Reg::BytCnt, 8));
    match m.phase {
        InitPhase::ScrBlockSize(card) => {
            lemma_answers_stay(trace, after, card);
            assert(script(c, 5, card.rca));
        },
        InitPhase::ScrByteCount(card) => {
            lemma_answers_stay(trace, after, card);
            assert(script(c, 5, card.rca));
            if let Step::Next(Init { phase: InitPhase::Scr { send, .. } }) = m.next(reply) {
                assert(sending(after, send, CommandKind::SendScr, 0, c, scr_setup()));
            }
        },
        InitPhase::Scr { send, card } => {
            let earlier = before_it(trace, send);
            let sent = at_setup(0xa000_0373, 0, scr_setup());
            lemma_sending(trace, send, CommandKind::SendScr, 0, earlier, scr_setup(), reply);
            lemma_answers_stay(trace, after, card);
            lemma_closing(card.rca);
            lemma_script_sent(earlier, 5, card.rca, sent);
        },
        InitPhase::ClearFinal(card) => {
            lemma_answers_stay(trace, after, card);
            assert(script(c, 5, card.rca) || script(c, 6, card.rca));
        },
        _ => {},
    }
}

proof fn lemma_switch_step(trace: Seq<(Op, Reply)>, m: Init, reply: Reply)
    requires
        said(trace, m),
        m.phase is Switch,
    ensures
        identifies(trace.push((m.op(), reply)), m.next(reply)),
        m.op() matches Op::Write(Reg::ClkDiv, _) ==> clock_is_off(trace),
{
    let c = card_commands(trace);
    let after = trace.push((m.op(), reply));
    lemma_push(trace, m.op(), reply);
    crate::trace::lemma_accounts_push(trace, m.op(), reply);
    lemma_full_setup();
    if let InitPhase::Switch { switch, card } = m.phase {
        assert(script(c, 5, card.rca) || script(c, 6, card.rca));
        match switch.phase {
            SwitchPhase::Program { program, .. } => {
                lemma_programming(trace, program, c, reply);
                lemma_answers_stay(trace, after, card);
            },
            SwitchPhase::Rollback(program) => {
                lemma_turned_off(trace, program, reply);
            },
            _ => {
                lemma_answers_stay(trace, after, card);
            },
        }
    }
}

proof fn lemma_identifies(trace: Seq<(Op, Reply)>, m: Init, reply: Reply)
    requires
        identifies(trace, Step::Next(m)),
    ensures
        identifies(trace.push((m.op(), reply)), m.next(reply)),
        m.op() matches Op::Write(Reg::ClkDiv, _) ==> clock_is_off(trace),
{
    match m.phase {
        InitPhase::GoIdle(_) => lemma_opening_step(trace, m, reply),
        InitPhase::IfCond(_) => lemma_opening_step(trace, m, reply),
        InitPhase::OpCondStart => lemma_power_up_step(trace, m, reply),
        InitPhase::OpCondClock { .. } => lemma_power_up_step(trace, m, reply),
        InitPhase::OpCondPause { .. } => lemma_power_up_step(trace, m, reply),
        InitPhase::OpCondApp { .. } => lemma_power_up_step(trace, m, reply),
        InitPhase::OpCond { .. } => lemma_power_up_step(trace, m, reply),
        InitPhase::AllSendCid(_) => lemma_naming_step(trace, m, reply),
        InitPhase::RelativeAddr { .. } => lemma_naming_step(trace, m, reply),
        InitPhase::SendCsd { .. } => lemma_csd_step(trace, m, reply),
        InitPhase::Select { .. } => lemma_select_step(trace, m, reply),
        InitPhase::ScrApp { .. } => lemma_select_step(trace, m, reply),
        InitPhase::ScrBlockSize(_) => lemma_scr_step(trace, m, reply),
        InitPhase::ScrByteCount(_) => lemma_scr_step(trace, m, reply),
        InitPhase::Scr { .. } => lemma_scr_step(trace, m, reply),
        InitPhase::ClearFinal(_) => lemma_scr_step(trace, m, reply),
        InitPhase::Switch { .. } => lemma_switch_step(trace, m, reply),
        _ => lemma_setup_step(trace, m, reply),
    }
}

/// Whatever is replied, identification keeps to its script: each command is sent with the
/// argument that the protocol asks for, after the controller was set up, and at the
/// identification clock of 49.5 MHz / 200, which is below 400 kHz. The divider is changed
/// only while the clock is off. When identification succeeds, every command was sent, but
/// for ACMD51 if the controller did not take it; the card is the one that has answered;
/// and the clock in force is that of Default Speed, with divider 1.
pub proof fn law_identification_keeps_to_its_script(replies: Seq<Reply>)
    ensures
        ({
            let done = run(Step::Next(Init::new()), replies);
            &&& keeps_to_script(card_commands(done.trace))
            &&& match done.at {
                Step::Next(m) => m.op() matches Op::Write(Reg::ClkDiv, _) ==> clock_is_off(
                    done.trace,
                ),
                Step::Done(Ok(card)) => well_identified(done.trace, card),
                Step::Done(Err(_)) => true,
            }
        }),
{
    let start = Step::<Init, SdMmcResult<Card>>::Next(Init::new());
    let inv = |trace: Seq<(Op, Reply)>, at: Step<Init, SdMmcResult<Card>>| identifies(trace, at);
    assert forall|trace: Seq<(Op, Reply)>, m: Init, reply: Reply|
        inv(trace, Step::Next(m)) implies #[trigger] inv(
        trace.push((m.op(), reply)),
        m.next(reply),
    ) by {
        lemma_identifies(trace, m, reply);
    }
    assert(inv(Seq::empty(), start)) by {
        lemma_full_setup();
        assert(opening().take(0) =~= Seq::<CardCommand>::empty());
    }
    crate::io::lemma_run_invariant(start, replies, inv);
    let done = run(start, replies);
    if let Step::Next(m) = done.at {
        lemma_identifies(done.trace, m, Reply::Done);
    }
}

} // verus!
