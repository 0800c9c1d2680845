//! What the recorders keep is what happened, each thing in its place.

use crate::bench::stage::{
    after_all, DriverStageObservation, Stage, StageEvent, StageRecorder,
};
use crate::bench::write_seen::{
    write_after_all, RequestObservation, WriteEvent, WriteRecorder,
};
use vstd::prelude::*;

verus! {

/// Bits of all words together.
pub open spec fn gathered(words: Seq<u32>) -> u32
    decreases words.len(),
{
    if words.len() == 0 {
        0
    } else {
        gathered(words.drop_last()) | words.last()
    }
}

/// An interrupt: its time and both statuses.
pub ghost struct Interrupt {
    /// Time of its arrival.
    pub now: u64,
    /// Raw status.
    pub rintsts: u32,
    /// DMA status.
    pub idsts: u32,
}

/// The interrupts of a transfer, as the recorder of writes is told of them.
pub open spec fn write_interrupts(generation: usize, irqs: Seq<Interrupt>) -> Seq<WriteEvent> {
    Seq::new(
        irqs.len(),
        |i: int|
            WriteEvent::Irq {
                generation,
                now: irqs[i].now,
                rintsts: irqs[i].rintsts,
                idsts: irqs[i].idsts,
            },
    )
}

/// The interrupts of a running transfer count.
proof fn lemma_write_interrupts(start: WriteRecorder, generation: usize, irqs: Seq<Interrupt>)
    requires
        start.active && !start.transfer_over,
        start.seen.generation == generation,
        start.seen.irq_events == 0 && start.seen.irq_entry_ns == 0,
        start.seen.irq_rintsts_bits == 0 && start.seen.irq_idsts_bits == 0,
        irqs.len() <= usize::MAX,
    ensures
        ({
            let end = write_after_all(start, write_interrupts(generation, irqs));
            &&& end == (WriteRecorder { seen: end.seen, ..start })
            &&& end.seen == (RequestObservation {
                irq_events: irqs.len() as usize,
                irq_entry_ns: if irqs.len() == 0 {
                    0
                } else {
                    irqs.last().now
                },
                irq_rintsts_bits: gathered(irqs.map_values(|irq: Interrupt| irq.rintsts)),
                irq_idsts_bits: gathered(irqs.map_values(|irq: Interrupt| irq.idsts)),
                ..start.seen
            })
        }),
    decreases irqs.len(),
{
    let events = write_interrupts(generation, irqs);
    let raw = irqs.map_values(|irq: Interrupt| irq.rintsts);
    let id = irqs.map_values(|irq: Interrupt| irq.idsts);
    if irqs.len() > 0 {
        lemma_write_interrupts(start, generation, irqs.drop_last());
        assert(events.drop_last() =~= write_interrupts(generation, irqs.drop_last()));
        assert(raw.drop_last() =~= irqs.drop_last().map_values(|irq: Interrupt| irq.rintsts));
        assert(id.drop_last() =~= irqs.drop_last().map_values(|irq: Interrupt| irq.idsts));
        vstd::arithmetic::div_mod::lemma_small_mod(irqs.len(), usize::MAX as nat + 1);
    }
}

/// Recording one list of events after another.
proof fn lemma_write_concat(start: WriteRecorder, a: Seq<WriteEvent>, b: Seq<WriteEvent>)
    ensures
        write_after_all(start, a + b) == write_after_all(write_after_all(start, a), b),
    decreases b.len(),
{
    if b.len() == 0 {
        assert(a + b =~= a);
    } else {
        assert((a + b).drop_last() =~= a + b.drop_last());
        assert((a + b).last() == b.last());
        lemma_write_concat(start, a, b.drop_last());
    }
}

/// What is seen of a write: when it was called, when its transfer started, what interrupts
/// it had and when the last of them came, when and how its transfer ended, which for a task
/// that slept is when it resumed, how the wait for the card went, and when the call
/// returned. Interrupts that come once the transfer is over do not count.
pub proof fn law_write_is_observed_as_it_went(
    called: u64,
    generation: usize,
    started: u64,
    irqs: Seq<Interrupt>,
    asleep: bool,
    ended: u64,
    timed_out: bool,
    rintsts: u32,
    idsts: u32,
    late: Interrupt,
    busy_from: u64,
    busy_to: u64,
    attempts: usize,
    r1: u32,
    success: bool,
    returned: u64,
)
    requires
        irqs.len() <= usize::MAX,
    ensures
        ({
            let end = if asleep {
                WriteEvent::Resume { generation, now: ended, timed_out, rintsts, idsts }
            } else {
                WriteEvent::SyncTerminal { generation, now: ended, rintsts, idsts }
            };
            let events = seq![WriteEvent::Started { generation, now: started }] + write_interrupts(
                generation,
                irqs,
            ) + seq![
                end,
                WriteEvent::Irq {
                    generation,
                    now: late.now,
                    rintsts: late.rintsts,
                    idsts: late.idsts,
                },
                WriteEvent::BusyEnd {
                    asynchronous: asleep,
                    started_ns: busy_from,
                    now: busy_to,
                    attempts,
                    r1,
                    success,
                },
            ];
            let last = write_after_all(WriteRecorder::begin(called), events).finish(returned);
            let seen = last.seen;
            &&& !last.active
            &&& seen.api_start_ns == called && seen.api_end_ns == returned
            &&& seen.generation == generation && seen.transfer_start_ns == started
            &&& seen.irq_events == irqs.len()
            &&& seen.irq_entry_ns == (if irqs.len() == 0 {
                0
            } else {
                irqs.last().now
            })
            &&& seen.irq_rintsts_bits == gathered(irqs.map_values(|irq: Interrupt| irq.rintsts))
            &&& seen.irq_idsts_bits == gathered(irqs.map_values(|irq: Interrupt| irq.idsts))
            &&& seen.dma_terminal_ns == ended
            &&& seen.dma_terminal_rintsts_bits == rintsts && seen.dma_terminal_idsts_bits == idsts
            &&& seen.dma_resume_ns == (if asleep {
                ended
            } else {
                0
            })
            &&& seen.dma_timed_out == (asleep && timed_out)
            &&& seen.busy_ready && seen.busy_async == asleep
            &&& seen.busy_start_ns == busy_from && seen.busy_end_ns == busy_to
            &&& seen.busy_attempts == attempts && seen.busy_r1 == r1
            &&& seen.busy_success == success
        }),
{
    let first = seq![WriteEvent::Started { generation, now: started }];
    let end = if asleep {
        WriteEvent::Resume { generation, now: ended, timed_out, rintsts, idsts }
    } else {
        WriteEvent::SyncTerminal { generation, now: ended, rintsts, idsts }
    };
    let irq = WriteEvent::Irq {
        generation,
        now: late.now,
        rintsts: late.rintsts,
        idsts: late.idsts,
    };
    let busy = WriteEvent::BusyEnd {
        asynchronous: asleep,
        started_ns: busy_from,
        now: busy_to,
        attempts,
        r1,
        success,
    };
    let start = WriteRecorder::begin(called);
    let a = first + write_interrupts(generation, irqs);
    let tail = seq![end, irq, busy];
    assert(first.drop_last() =~= Seq::empty());
    assert(write_after_all(start, Seq::empty()) == start);
    assert(write_after_all(start, first) == start.after(first[0]));
    lemma_write_concat(start, first, write_interrupts(generation, irqs));
    lemma_write_interrupts(start.after(first[0]), generation, irqs);
    let running = write_after_all(start, a);
    lemma_write_concat(start, a, tail);
    assert(tail.drop_last() =~= seq![end, irq] && seq![end, irq].drop_last() =~= seq![end]);
    assert(seq![end].drop_last() =~= Seq::empty());
    assert(write_after_all(running, Seq::empty()) == running);
    assert(write_after_all(running, seq![end]) == running.after(end));
    assert(write_after_all(running, seq![end, irq]) == running.after(end).after(irq));
}

/// The time at which a stage was reached.
pub open spec fn stamp_of(seen: DriverStageObservation, stage: Stage) -> u64 {
    match stage {
        Stage::PrepareStart => seen.prepare_start_ns,
        Stage::PrepareEnd => seen.prepare_end_ns,
        Stage::CmdWrite => seen.cmd_write_ns,
        Stage::SubmitEnd => seen.submit_end_ns,
        Stage::CommandSeen => seen.command_seen_ns,
        Stage::TerminalSeen => seen.terminal_seen_ns,
        Stage::ValidationEnd => seen.validation_end_ns,
        Stage::CleanupStart => seen.cleanup_start_ns,
        Stage::CleanupEnd => seen.cleanup_end_ns,
    }
}

/// The stage that an event stamps, for the transfer of a generation.
pub open spec fn stamps(event: StageEvent, generation: usize) -> Option<(Stage, u64)> {
    match event {
        StageEvent::Reached { stage, now } => Some((stage, now)),
        StageEvent::ReachedBy { stage, generation: of, now } => if of == generation {
            Some((stage, now))
        } else {
            None
        },
        _ => None,
    }
}

/// The time with which a stage was stamped last.
pub open spec fn last_stamp(events: Seq<StageEvent>, generation: usize, stage: Stage) -> u64
    decreases events.len(),
{
    if events.len() == 0 {
        0
    } else {
        match stamps(events.last(), generation) {
            Some((at, now)) => if at == stage {
                now
            } else {
                last_stamp(events.drop_last(), generation, stage)
            },
            None => last_stamp(events.drop_last(), generation, stage),
        }
    }
}

/// The time of the first interrupt of a transfer with one of these bits; 0 without one.
pub open spec fn first_interrupt(
    events: Seq<StageEvent>,
    generation: usize,
    raw: u32,
    id: u32,
) -> u64
    decreases events.len(),
{
    if events.len() == 0 {
        0
    } else {
        let before = first_interrupt(events.drop_last(), generation, raw, id);
        match events.last() {
            StageEvent::Irq { generation: of, now, rintsts, idsts } => if of == generation && before
                == 0 && (rintsts & raw != 0 || idsts & id != 0) {
                now
            } else {
                before
            },
            _ => before,
        }
    }
}

/// The time of the first interrupt of a transfer; 0 without one.
pub open spec fn first_of_all(events: Seq<StageEvent>, generation: usize) -> u64
    decreases events.len(),
{
    if events.len() == 0 {
        0
    } else {
        let before = first_of_all(events.drop_last(), generation);
        match events.last() {
            StageEvent::Irq { generation: of, now, .. } => if of == generation && before == 0 {
                now
            } else {
                before
            },
            _ => before,
        }
    }
}

/// Statuses of the interrupts of a transfer.
pub open spec fn statuses(events: Seq<StageEvent>, generation: usize, raw: bool) -> Seq<u32>
    decreases events.len(),
{
    if events.len() == 0 {
        Seq::empty()
    } else {
        let before = statuses(events.drop_last(), generation, raw);
        match events.last() {
            StageEvent::Irq { generation: of, rintsts, idsts, .. } => if of == generation {
                before.push(
                    if raw {
                        rintsts
                    } else {
                        idsts
                    },
                )
            } else {
                before
            },
            _ => before,
        }
    }
}

/// What is seen of a transfer from the moment that it has its generation: each stage has the
/// time at which it was reached last, the first interrupts that showed anything, the end of
/// the command, of the data or of the automatic stop have theirs, and the statuses of all
/// its interrupts are gathered.
pub proof fn law_stages_are_observed_as_they_went(
    called: u64,
    generation: usize,
    events: Seq<StageEvent>,
    returned: u64,
    stage: Stage,
)
    requires
        forall|i: int| 0 <= i < events.len() ==> !(#[trigger] events[i] is Generation),
    ensures
        ({
            let start = StageRecorder::begin(called).after(StageEvent::Generation(generation));
            let last = after_all(start, events).finish(returned);
            let seen = last.seen;
            &&& !last.active && seen.generation == generation
            &&& seen.api_start_ns == called && seen.api_end_ns == returned
            &&& stamp_of(seen, stage) == last_stamp(events, generation, stage)
            &&& seen.first_irq_ns == first_of_all(events, generation)
            &&& seen.irq_command_ns == first_interrupt(events, generation, 0x4, 0)
            &&& seen.irq_data_done_ns == first_interrupt(events, generation, 0x8, 0x3)
            &&& seen.irq_acd_ns == first_interrupt(events, generation, 0x4000, 0)
            &&& seen.irq_rintsts_bits == gathered(statuses(events, generation, true))
            &&& seen.irq_idsts_bits == gathered(statuses(events, generation, false))
        }),
{
    let start = StageRecorder::begin(called).after(StageEvent::Generation(generation));
    lemma_stages(start, generation, events, stage);
}

proof fn lemma_stages(
    start: StageRecorder,
    generation: usize,
    events: Seq<StageEvent>,
    stage: Stage,
)
    requires
        start.active,
        start.seen == (DriverStageObservation {
            generation,
            api_start_ns: start.seen.api_start_ns,
            ..DriverStageObservation::empty()
        }),
        forall|i: int| 0 <= i < events.len() ==> !(#[trigger] events[i] is Generation),
    ensures
        ({
            let last = after_all(start, events);
            let seen = last.seen;
            &&& last.active && seen.generation == generation
            &&& seen.api_start_ns == start.seen.api_start_ns
            &&& stamp_of(seen, stage) == last_stamp(events, generation, stage)
            &&& seen.first_irq_ns == first_of_all(events, generation)
            &&& seen.irq_command_ns == first_interrupt(events, generation, 0x4, 0)
            &&& seen.irq_data_done_ns == first_interrupt(events, generation, 0x8, 0x3)
            &&& seen.irq_acd_ns == first_interrupt(events, generation, 0x4000, 0)
            &&& seen.irq_rintsts_bits == gathered(statuses(events, generation, true))
            &&& seen.irq_idsts_bits == gathered(statuses(events, generation, false))
        }),
    decreases events.len(),
{
    if events.len() > 0 {
        let before = events.drop_last();
        lemma_stages(start, generation, before, stage);
        assert(!(events[events.len() - 1] is Generation));
        if let StageEvent::Irq { generation: of, rintsts, idsts, .. } = events.last() {
            assert((idsts & 0x2 != 0 || idsts & 0x1 != 0) == (idsts & 0x3 != 0) && idsts & 0 == 0)
                by (bit_vector);
            if of == generation {
                let raw = statuses(events, generation, true);
                let id = statuses(events, generation, false);
                assert(raw.drop_last() =~= statuses(before, generation, true));
                assert(id.drop_last() =~= statuses(before, generation, false));
            }
        }
    }
}

} // verus!
