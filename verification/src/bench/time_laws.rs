//! Times that are measured lie between the readings that they are measured by.

use crate::bench::points::resumption;
use crate::bench::read::ComputeResult;
use crate::bench::read_laws::time_between;
use crate::bench::wake::{wake_after_all, AsyncObservation, WakeEvent, WakeRecorder};
use crate::bench::write_measure::write_rate_of;
use crate::completion::IdmacStatus;
use crate::io::Until;
use vstd::prelude::*;

verus! {

/// The rate is the largest number of thousandths of units per second that does not exceed
/// what was done.
pub open spec fn is_rate(units: u64, elapsed_ns: int, rate: int) -> bool {
    rate * elapsed_ns <= units * 1_000_000_000_000 < (rate + 1) * elapsed_ns
}

/// A quotient lies between its multiples.
proof fn lemma_quotient(whole: int, part: int)
    requires
        0 < part,
        0 <= whole,
        whole / part <= u64::MAX,
    ensures
        (whole / part) * part <= whole < (whole / part + 1) * part,
        0 <= whole / part,
        crate::bench::stats::low64(whole / part) == whole / part,
{
    let ratio = whole / part;
    vstd::arithmetic::div_mod::lemma_fundamental_div_mod(whole, part);
    vstd::arithmetic::div_mod::lemma_div_pos_is_pos(whole, part);
    vstd::arithmetic::div_mod::lemma_small_mod(ratio as nat, u64::MAX as nat + 1);
    assert(ratio * part <= whole < (ratio + 1) * part) by (nonlinear_arith)
        requires
            whole == part * ratio + whole % part,
            0 <= whole % part < part,
    ;
}

/// A computation beside reads took the time from its start to its end, and its rate is what
/// it did in that time.
pub proof fn law_computation_is_measured_from_start_to_end(
    started_ns: u64,
    finished_ns: u64,
    units: u64,
    digest: u64,
    window_completed: bool,
)
    ensures
        ({
            let result = ComputeResult::of(
                started_ns,
                finished_ns,
                units,
                digest,
                window_completed,
            );
            let elapsed = result.elapsed_ns as int;
            &&& elapsed == time_between(started_ns, finished_ns)
            &&& result.units == units && result.digest == digest
            &&& result.window_completed == window_completed
            &&& elapsed > 0 && units * 1_000_000_000_000int / elapsed <= u64::MAX ==> is_rate(
                units,
                elapsed,
                result.work_per_s_milli as int,
            )
        }),
{
    let elapsed = time_between(started_ns, finished_ns);
    if elapsed > 0 && units * 1_000_000_000_000int / elapsed <= u64::MAX {
        lemma_quotient(units * 1_000_000_000_000int, elapsed);
    }
}

/// The rate of a computation beside writes is what it did in its time.
pub proof fn law_write_rate_is_work_in_time(units: u64, elapsed_ns: u64)
    requires
        elapsed_ns > 0,
        units * 1_000_000_000_000int / elapsed_ns as int <= u64::MAX,
    ensures
        is_rate(units, elapsed_ns as int, write_rate_of(units, elapsed_ns) as int),
{
    lemma_quotient(units * 1_000_000_000_000int, elapsed_ns as int);
}

/// What is noted of a wait is its time, how it ended and, for the data, what was seen then.
pub proof fn law_resumption_is_measured_from_the_start(
    until: Until,
    generation: usize,
    timed_out: bool,
    started: u64,
    now: u64,
    status: IdmacStatus,
)
    ensures
        match resumption(until, generation, timed_out, started, now, status) {
            WakeEvent::CommandWait { generation: of, timed_out: late, elapsed_ns } => {
                &&& until is CommandDone
                &&& of == generation && late == timed_out
                &&& elapsed_ns == time_between(started, now)
            },
            WakeEvent::Resume {
                generation: of,
                now: at,
                timed_out: late,
                elapsed_ns,
                rintsts,
                idsts,
            } => {
                &&& until is Terminal
                &&& of == generation && late == timed_out && at == now
                &&& elapsed_ns == time_between(started, now)
                &&& rintsts == status.rintsts.0 && idsts == status.idsts.0
            },
            _ => false,
        },
{
}

/// Interrupts of a transfer.
pub open spec fn interrupts(generation: usize, times: Seq<(u64, u64)>) -> Seq<WakeEvent> {
    Seq::new(
        times.len(),
        |i: int| WakeEvent::Irq { generation, entry_ns: times[i].0, notify_ns: times[i].1 },
    )
}

/// Interrupts that come in time count, and the last of them gives the times.
proof fn lemma_interrupts(recorder: WakeRecorder, generation: usize, times: Seq<(u64, u64)>)
    requires
        recorder.enabled,
        recorder.seen.generation == generation,
        !recorder.closed,
        !recorder.seen.ready,
        recorder.seen.irq_events + times.len() <= usize::MAX,
    ensures
        ({
            let after = wake_after_all(recorder, interrupts(generation, times));
            &&& after == (WakeRecorder {
                entry_ns: if times.len() == 0 {
                    recorder.entry_ns
                } else {
                    times.last().0
                },
                notify_ns: if times.len() == 0 {
                    recorder.notify_ns
                } else {
                    times.last().1
                },
                seen: after.seen,
                ..recorder
            })
            &&& after.seen == (AsyncObservation {
                irq_events: (recorder.seen.irq_events + times.len()) as usize,
                ..recorder.seen
            })
        }),
    decreases times.len(),
{
    let events = interrupts(generation, times);
    if times.len() > 0 {
        lemma_interrupts(recorder, generation, times.drop_last());
        assert(events.drop_last() =~= interrupts(generation, times.drop_last()));
        vstd::arithmetic::div_mod::lemma_small_mod(
            (recorder.seen.irq_events + times.len()) as nat,
            usize::MAX as nat + 1,
        );
    }
}

/// Recording one list of events after another.
proof fn lemma_concat(recorder: WakeRecorder, a: Seq<WakeEvent>, b: Seq<WakeEvent>)
    ensures
        wake_after_all(recorder, a + b) == wake_after_all(wake_after_all(recorder, a), b),
    decreases b.len(),
{
    if b.len() == 0 {
        assert(a + b =~= a);
    } else {
        assert((a + b).drop_last() =~= a + b.drop_last());
        assert((a + b).last() == b.last());
        lemma_concat(recorder, a, b.drop_last());
    }
}

/// The time from a stamp to now, if there was one.
pub open spec fn time_since(stamp: u64, now: u64) -> int {
    if stamp == 0 {
        0
    } else {
        time_between(stamp, now)
    }
}

/// What is seen of an asynchronous transfer: how many interrupts it had; how long it took
/// from the last of them, and from its notification, to the resumption; how long the waits
/// for the command and for the data took, and the status in the end. It was ended by a
/// deadline if a wait ran out of time, or if, without an interrupt so far, the wait for the
/// command took a second and a half, or that for the data three and three quarters.
pub proof fn law_transfer_is_observed_as_it_went(
    recorder: WakeRecorder,
    generation: usize,
    early: Seq<(u64, u64)>,
    command_late: bool,
    command_ns: u64,
    late: Seq<(u64, u64)>,
    now: u64,
    data_late: bool,
    data_ns: u64,
    rintsts: u32,
    idsts: u32,
)
    requires
        recorder.enabled,
        early.len() + late.len() <= usize::MAX,
    ensures
        ({
            let events = seq![WakeEvent::Begin(generation)] + interrupts(generation, early) + seq![
                WakeEvent::CommandWait {
                    generation,
                    timed_out: command_late,
                    elapsed_ns: command_ns,
                },
            ] + interrupts(generation, late) + seq![
                WakeEvent::Resume {
                    generation,
                    now,
                    timed_out: data_late,
                    elapsed_ns: data_ns,
                    rintsts,
                    idsts,
                },
            ];
            let all = early + late;
            let seen = wake_after_all(recorder, events).seen;
            &&& seen.ready && seen.generation == generation
            &&& seen.irq_events == all.len()
            &&& seen.entry_to_resume_ns == (if all.len() == 0 {
                0
            } else {
                time_since(all.last().0, now)
            })
            &&& seen.notify_to_resume_ns == (if all.len() == 0 {
                0
            } else {
                time_since(all.last().1, now)
            })
            &&& seen.command_wait_elapsed_ns == command_ns
            &&& seen.data_wait_elapsed_ns == data_ns
            &&& seen.rintsts_bits == rintsts && seen.idsts_bits == idsts
            &&& seen.deadline_fallback == {
                ||| command_late || (early.len() == 0 && command_ns >= 1_500_000_000)
                ||| data_late || (all.len() == 0 && data_ns >= 3_750_000_000)
            }
        }),
{
    let begin = seq![WakeEvent::Begin(generation)];
    let wait = WakeEvent::CommandWait {
        generation,
        timed_out: command_late,
        elapsed_ns: command_ns,
    };
    let resume = WakeEvent::Resume {
        generation,
        now,
        timed_out: data_late,
        elapsed_ns: data_ns,
        rintsts,
        idsts,
    };
    let a = begin + interrupts(generation, early);
    let b = a + seq![wait];
    let c = b + interrupts(generation, late);
    let d = c + seq![resume];
    let all = early + late;
    assert(begin.drop_last() =~= Seq::empty());
    assert(wake_after_all(recorder, Seq::empty()) == recorder);
    let begun = recorder.after(WakeEvent::Begin(generation));
    assert(wake_after_all(recorder, begin) == begun);
    lemma_concat(recorder, begin, interrupts(generation, early));
    lemma_interrupts(begun, generation, early);
    assert(b.drop_last() =~= a && b.last() == wait);
    let waited = wake_after_all(recorder, b);
    assert(waited == wake_after_all(recorder, a).after(wait));
    lemma_concat(recorder, b, interrupts(generation, late));
    lemma_interrupts(waited, generation, late);
    assert(d.drop_last() =~= c && d.last() == resume);
    if late.len() > 0 {
        assert(all.last() == late.last());
    } else if early.len() > 0 {
        assert(all.last() == early.last());
    }
}

} // verus!
