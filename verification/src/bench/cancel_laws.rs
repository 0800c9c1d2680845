//! What the test of asynchronous reads and their cancellation keeps to.

use crate::bench::cancel::{
    cancel_blocks, cancellation_ok, size_report, terminal_irq_ok, CancelAct, CancelOut,
    CancelPhase, CancelReply, CancelTest, SizeReport, ROUNDS_PER_SIZE,
};
use crate::bench::data::TEST_START_LBA;
use crate::bench::measure::TEST_ROUNDS;
use crate::bench::probe::{Aftermath, READ_REGION_BLOCKS};
use crate::bench::read::{IoMode, ReadWorkload, WorkloadName};
use crate::bench::read_laws::lemma_place;
use crate::error::{SdMmcError, SdMmcResult};
use crate::io::{lemma_run_invariant, run, Machine, Step};
use crate::transfer::MAX_DMA_BLOCKS;
use vstd::prelude::*;

verus! {

/// A course of operations and replies.
pub type CancelCourse = Seq<(CancelAct, CancelReply)>;

/// Rounds of the test: two looks, then ten rounds of each size of requests.
pub const CANCEL_ROUNDS: usize = 32;

/// Blocks of a request of a round.
pub open spec fn blocks_of(round: int) -> int {
    if round < 2 {
        32
    } else {
        cancel_blocks(((round - 2) / ROUNDS_PER_SIZE as int) as usize) as int
    }
}

/// How the requests of a round are waited for: of each size, the first five rounds
/// poll.
pub open spec fn mode_of(round: int) -> IoMode {
    if round < 2 || ((round - 2) % ROUNDS_PER_SIZE as int) < TEST_ROUNDS {
        IoMode::Sync
    } else {
        IoMode::Async
    }
}

/// A read of a round: its part of the region, to the same place in the buffer.
pub open spec fn read_of(round: int, request: int) -> CancelAct {
    CancelAct::Read {
        mode: mode_of(round),
        lba: (TEST_START_LBA + request * blocks_of(round)) as u32,
        offset: (request * blocks_of(round) * 512) as usize,
        len: (blocks_of(round) * 512) as usize,
    }
}

/// The reads of a round, which cover the region.
pub open spec fn reads_of(round: int) -> Seq<CancelAct> {
    Seq::new(
        (READ_REGION_BLOCKS as int / blocks_of(round)) as nat,
        |request: int| read_of(round, request),
    )
}

/// A round: the buffer is cleared and filled; the first time it is saved, later it is
/// compared with that.
pub open spec fn round_script(round: int) -> Seq<CancelAct> {
    seq![CancelAct::Clear] + reads_of(round) + seq![
        if round == 0 {
            CancelAct::Save
        } else {
            CancelAct::Compare
        },
    ]
}

/// The first rounds of the test.
pub open spec fn script(rounds: nat) -> Seq<CancelAct>
    decreases rounds,
{
    if rounds == 0 {
        Seq::empty()
    } else {
        script((rounds - 1) as nat) + round_script(rounds - 1)
    }
}

/// The operation fills, saves or compares the buffer.
pub open spec fn handles_data(act: CancelAct) -> bool {
    act is Clear || act is Read || act is Save || act is Compare
}

/// What a course does with the buffer, in order.
pub open spec fn data_steps(trace: CancelCourse) -> Seq<CancelAct>
    decreases trace.len(),
{
    if trace.len() == 0 {
        Seq::empty()
    } else if handles_data(trace.last().0) {
        data_steps(trace.drop_last()).push(trace.last().0)
    } else {
        data_steps(trace.drop_last())
    }
}

/// The operation at `i` went well: a read succeeded, an asynchronous one was then seen
/// to end as it should for its size and was recorded, and a comparison found no
/// difference. What the course does not reach counts as well.
pub open spec fn went_well(trace: CancelCourse, i: int) -> bool {
    match trace[i].0 {
        CancelAct::Read { mode, len, .. } => {
            &&& trace[i].1.outcome() is Ok
            &&& mode is Async && i + 1 < trace.len() ==> {
                &&& trace[i + 1].0 is Observe
                &&& terminal_irq_ok(trace[i + 1].1.seen(), (len / 512) as usize)
                &&& i + 2 < trace.len() ==> trace[i + 2].0 == CancelAct::Record(
                    trace[i + 1].1.seen(),
                )
            }
        },
        CancelAct::Compare => trace[i].1.mismatch() is None,
        _ => true,
    }
}

/// Everything went well.
pub open spec fn all_well(trace: CancelCourse) -> bool {
    forall|i: int| 0 <= i < trace.len() ==> #[trigger] went_well(trace, i)
}

/// Time at which the last round began.
pub open spec fn round_start(trace: CancelCourse) -> u64
    decreases trace.len(),
{
    if trace.len() < 2 {
        0
    } else if trace.last().0 is Now && trace[trace.len() - 2].0 is Clear {
        trace.last().1.time()
    } else {
        round_start(trace.drop_last())
    }
}

/// Times of the rounds that were compared.
pub open spec fn durations(trace: CancelCourse) -> Seq<u64>
    decreases trace.len(),
{
    if trace.len() == 0 {
        Seq::empty()
    } else if trace.last().0 is Compare && trace.len() >= 2 {
        durations(trace.drop_last()).push(
            trace[trace.len() - 2].1.time().saturating_sub(round_start(trace.drop_last())),
        )
    } else {
        durations(trace.drop_last())
    }
}

/// A sum that stays at the largest number.
pub open spec fn capped_total(times: Seq<u64>) -> u64
    decreases times.len(),
{
    if times.len() == 0 {
        0
    } else {
        capped_total(times.drop_last()).saturating_add(times.last())
    }
}

/// Times from one round on, and not from a later one on.
pub open spec fn times_between(times: Seq<u64>, from: int, to: int) -> Seq<u64> {
    if times.len() <= from {
        Seq::empty()
    } else if times.len() < to {
        times.subrange(from, times.len() as int)
    } else {
        times.subrange(from, to)
    }
}

/// The report on a size of requests: five polled rounds and the five asynchronous ones
/// that follow.
pub open spec fn report_of(times: Seq<u64>, size: int) -> SizeReport {
    size_report(
        cancel_blocks(size as usize),
        capped_total(times_between(times, 10 * size + 1, 10 * size + 6)),
        capped_total(times_between(times, 10 * size + 6, 10 * size + 11)),
    )
}

/// The reports of a course.
pub open spec fn size_reports(trace: CancelCourse) -> Seq<SizeReport>
    decreases trace.len(),
{
    if trace.len() == 0 {
        Seq::empty()
    } else {
        match trace.last().0 {
            CancelAct::Report(report) => size_reports(trace.drop_last()).push(report),
            _ => size_reports(trace.drop_last()),
        }
    }
}

/// The reports are those of the first sizes.
pub open spec fn reported(trace: CancelCourse, sizes: int) -> bool {
    &&& size_reports(trace).len() == sizes
    &&& forall|k: int|
        0 <= k < sizes ==> #[trigger] size_reports(trace)[k] == report_of(durations(trace), k)
}

/// All reports found both ways of waiting about as fast.
pub open spec fn all_consistent(reports: Seq<SizeReport>) -> bool {
    forall|k: int| 0 <= k < reports.len() ==> (#[trigger] reports[k]).consistent
}

/// The course of a round before its end.
spec fn filled(round: int, requests: int) -> Seq<CancelAct> {
    script(round as nat).push(CancelAct::Clear) + reads_of(round).take(requests)
}

/// The time that the rounds of the current size have taken.
spec fn tallied(trace: CancelCourse, m: CancelTest) -> bool {
    let times = durations(trace);
    if m.round < 2 {
        m.sync_elapsed_ns == 0 && m.async_elapsed_ns == 0
    } else {
        let size = (m.round - 2) / 10;
        &&& m.sync_elapsed_ns == capped_total(
            times_between(times, 10 * size + 1, 10 * size + 6),
        )
        &&& m.async_elapsed_ns == capped_total(
            times_between(times, 10 * size + 6, 10 * size + 11),
        )
    }
}

/// Rounds that were compared where a round has not ended.
spec fn compared_before(round: int) -> int {
    if round == 0 {
        0
    } else {
        round - 1
    }
}

/// Sizes that were reported before a round.
spec fn sizes_before(round: int) -> int {
    if round < 2 {
        0
    } else {
        (round - 2) / 10
    }
}

/// The operation is an asynchronous read.
spec fn sleeps(act: CancelAct) -> bool {
    act matches CancelAct::Read { mode, .. } && mode is Async
}

/// Everything went well so far, and whoever slept is about to be looked at and
/// recorded.
spec fn well_so_far(trace: CancelCourse, at: Step<CancelTest, CancelOut>) -> bool {
    let n = trace.len() as int;
    match at {
        Step::Next(m) => {
            let round = m.round as int;
            &&& all_well(trace)
            &&& n >= 1 && sleeps(trace[n - 1].0) ==> m.phase is Observe
            &&& n >= 2 && sleeps(trace[n - 2].0) ==> m.phase is Record
            &&& match m.phase {
                CancelPhase::Observe(_, request) => {
                    &&& round < CANCEL_ROUNDS && mode_of(round) is Async
                    &&& request < reads_of(round).len()
                    &&& n >= 1 && trace[n - 1].0 == read_of(round, request as int)
                },
                CancelPhase::Record(_, request, seen) => {
                    &&& round < CANCEL_ROUNDS
                    &&& n >= 2 && trace[n - 1].0 is Observe && trace[n - 1].1.seen() == seen
                },
                CancelPhase::Read(_, request) => round < CANCEL_ROUNDS && request < reads_of(
                    round,
                ).len(),
                CancelPhase::Cancel => round == CANCEL_ROUNDS,
                CancelPhase::Aftermath => round == CANCEL_ROUNDS && ends_cancelled(trace, 1),
                CancelPhase::NextRead(after) => round == CANCEL_ROUNDS && ends_cancelled(trace, 2)
                    && trace[n - 1].0 is Aftermath && trace[n - 1].1.aftermath() == after,
                _ => round < CANCEL_ROUNDS,
            }
        },
        Step::Done(Ok(end)) => {
            &&& all_well(trace)
            &&& ends_cancelled(trace, 3)
            &&& trace[n - 2].0 is Aftermath && trace[n - 2].1.aftermath() == end.after
            &&& trace[n - 1].0 == CancelAct::NextRead { lba: TEST_START_LBA }
            &&& trace[n - 1].1.outcome() == end.next_read
            &&& end.cancellation_ok == cancellation_ok(end.after, end.next_read)
        },
        Step::Done(Err(_)) => true,
    }
}

/// How far the rounds have come with the buffer.
spec fn steps_so_far(trace: CancelCourse, at: Step<CancelTest, CancelOut>) -> bool {
    let steps = data_steps(trace);
    match at {
        Step::Next(m) => {
            let round = m.round as int;
            let whole = reads_of(round).len() as int;
            match m.phase {
                CancelPhase::Card => trace.len() == 0 && round == 0,
                CancelPhase::Clear => steps == script(round as nat),
                CancelPhase::Start => steps == script(round as nat).push(CancelAct::Clear),
                CancelPhase::Read(_, request) => steps == filled(round, request as int),
                CancelPhase::Observe(_, request) => request < whole && steps == filled(
                    round,
                    request + 1,
                ),
                CancelPhase::Record(_, request, _) => request < whole && steps == filled(
                    round,
                    request + 1,
                ),
                CancelPhase::End(_) => steps == filled(round, whole),
                CancelPhase::Save => round == 0 && steps == filled(round, whole),
                CancelPhase::Compare(_) => round > 0 && steps == filled(round, whole),
                CancelPhase::Report => steps == script((round + 1) as nat),
                _ => steps == script(32),
            }
        },
        Step::Done(Ok(_)) => steps == script(32),
        Step::Done(Err(_)) => true,
    }
}

/// How the times of the rounds have been summed up.
spec fn times_so_far(trace: CancelCourse, at: Step<CancelTest, CancelOut>) -> bool {
    let n = trace.len() as int;
    let rounds = durations(trace).len();
    match at {
        Step::Next(m) => {
            let round = m.round as int;
            &&& m.consistent == all_consistent(size_reports(trace))
            &&& match m.phase {
                CancelPhase::Report => {
                    &&& 2 <= round && (round - 2) % 10 == 9
                    &&& rounds == round
                    &&& tallied(trace, m)
                    &&& reported(trace, sizes_before(round))
                },
                CancelPhase::Cancel | CancelPhase::Aftermath | CancelPhase::NextRead(_) => {
                    rounds == 31 && reported(trace, 3)
                },
                _ => {
                    &&& rounds == compared_before(round)
                    &&& tallied(trace, m)
                    &&& reported(trace, sizes_before(round))
                    &&& match m.phase {
                        CancelPhase::Card => n == 0 && round == 0,
                        CancelPhase::Start => n >= 1 && trace[n - 1].0 is Clear,
                        CancelPhase::Read(started, _) => started == round_start(trace),
                        CancelPhase::Observe(started, _) => started == round_start(trace),
                        CancelPhase::Record(started, _, _) => started == round_start(trace),
                        CancelPhase::End(started) => started == round_start(trace) && n >= 1
                            && !(trace[n - 1].0 is Clear),
                        CancelPhase::Save => round == 0,
                        CancelPhase::Compare(elapsed) => round > 0 && n >= 1 && elapsed == trace[n
                            - 1].1.time().saturating_sub(round_start(trace)),
                        _ => true,
                    }
                },
            }
        },
        Step::Done(Ok(end)) => {
            &&& rounds == 31 && reported(trace, 3)
            &&& end.throughput_consistent == all_consistent(size_reports(trace))
        },
        Step::Done(Err(_)) => true,
    }
}

/// So many operations ago an asynchronous read of the largest size was begun, found
/// pending and dropped.
pub open spec fn ends_cancelled(trace: CancelCourse, back: int) -> bool {
    let i = trace.len() - back;
    &&& i >= 0
    &&& trace[i].0 == CancelAct::CancelRead { lba: TEST_START_LBA, blocks: MAX_DMA_BLOCKS }
    &&& trace[i].1.pending()
}

/// The machine reads what belongs to its round.
proof fn lemma_read(m: CancelTest, request: usize)
    requires
        m.round < CANCEL_ROUNDS,
        request < reads_of(m.round as int).len(),
        m.phase matches CancelPhase::Read(_, q) && q == request,
    ensures
        m.op() == read_of(m.round as int, request as int),
{
    lemma_round(m);
    let workload = ReadWorkload {
        name: WorkloadName::RangeCmd17,
        request_blocks: m.request_blocks(),
        total_blocks: READ_REGION_BLOCKS,
    };
    lemma_place(workload, request);
    let place = request * m.request_blocks();
    assert((request + 1) * m.request_blocks() == place + m.request_blocks()) by (nonlinear_arith)
        requires
            place == request * m.request_blocks(),
    ;
    assert(place >= 0) by (nonlinear_arith)
        requires
            place == request * m.request_blocks(),
    ;
    vstd::arithmetic::div_mod::lemma_small_mod(place as nat, usize::MAX as nat + 1);
    vstd::arithmetic::div_mod::lemma_small_mod((place * 512) as nat, usize::MAX as nat + 1);
    assert(m.op()->Read_offset == place * 512);
    assert(m.op()->Read_lba == TEST_START_LBA + place);
}

/// What the machine knows of its round.
proof fn lemma_round(m: CancelTest)
    requires
        m.round < CANCEL_ROUNDS,
    ensures
        m.request_blocks() == blocks_of(m.round as int),
        m.mode() == mode_of(m.round as int),
        blocks_of(m.round as int) == 1 || blocks_of(m.round as int) == 4 || blocks_of(
            m.round as int,
        ) == 32,
        reads_of(m.round as int).len() == READ_REGION_BLOCKS / m.request_blocks(),
        0 < reads_of(m.round as int).len() <= 256,
{
    if m.round >= 2 {
        vstd::arithmetic::div_mod::lemma_small_mod((m.round - 2) as nat, usize::MAX as nat + 1);
        assert(m.round.wrapping_sub(2) == m.round - 2);
    }
    let blocks = blocks_of(m.round as int);
    if blocks == 1 {
        assert(READ_REGION_BLOCKS as int / blocks == 256);
    } else if blocks == 4 {
        assert(READ_REGION_BLOCKS as int / blocks == 64);
    } else {
        assert(READ_REGION_BLOCKS as int / blocks == 8);
    }
}

/// What goes well goes on to be well.
proof fn lemma_well(trace: CancelCourse, act: CancelAct, reply: CancelReply)
    requires
        all_well(trace),
        went_well(trace.push((act, reply)), trace.len() as int),
        trace.len() >= 1 ==> went_well(trace.push((act, reply)), trace.len() - 1),
        trace.len() >= 2 ==> went_well(trace.push((act, reply)), trace.len() - 2),
    ensures
        all_well(trace.push((act, reply))),
{
    let after = trace.push((act, reply));
    assert forall|i: int| 0 <= i < after.len() implies #[trigger] went_well(after, i) by {
        if i < trace.len() - 2 {
            assert(went_well(trace, i));
            assert(after[i] == trace[i] && after[i + 1] == trace[i + 1] && after[i + 2] == trace[i
                + 2]);
        }
    }
}

/// One more round adds its time to its own kind.
proof fn lemma_times(times: Seq<u64>, time: u64, from: int, to: int)
    requires
        0 <= from <= to,
    ensures
        times_between(times.push(time), from, to) == (if from <= times.len() < to {
            times_between(times, from, to).push(time)
        } else {
            times_between(times, from, to)
        }),
        capped_total(times_between(times.push(time), from, to)) == (if from <= times.len() < to {
            capped_total(times_between(times, from, to)).saturating_add(time)
        } else {
            capped_total(times_between(times, from, to))
        }),
{
    let (old_times, new_times) = (
        times_between(times, from, to),
        times_between(times.push(time), from, to),
    );
    if from <= times.len() < to {
        assert(new_times =~= old_times.push(time));
        assert(new_times.drop_last() =~= old_times);
    } else {
        assert(new_times =~= old_times);
    }
}

/// Reports on sizes that are over do not change with later rounds.
proof fn lemma_reported(trace: CancelCourse, act: CancelAct, reply: CancelReply, sizes: int)
    requires
        0 <= sizes,
        reported(trace, sizes),
        durations(trace).len() >= 10 * sizes + 1 || sizes == 0,
        !(act is Report),
    ensures
        reported(trace.push((act, reply)), sizes),
        size_reports(trace.push((act, reply))) == size_reports(trace),
{
    let after = trace.push((act, reply));
    assert(after.drop_last() =~= trace);
    let (times, later) = (durations(trace), durations(after));
    assert forall|k: int| 0 <= k < sizes implies #[trigger] size_reports(after)[k] == report_of(
        later,
        k,
    ) by {
        assert(size_reports(trace)[k] == report_of(times, k));
        if later != times {
            let time = later.last();
            assert(later == times.push(time));
            lemma_times(times, time, 10 * k + 1, 10 * k + 6);
            lemma_times(times, time, 10 * k + 6, 10 * k + 11);
        }
    }
}

/// Comparing a round adds its time to the times of its size.
proof fn lemma_tally(trace: CancelCourse, m: CancelTest, elapsed: u64)
    requires
        0 < m.round < CANCEL_ROUNDS,
        tallied(trace, m),
        durations(trace).len() == m.round - 1,
    ensures
        forall|after: CancelCourse| #[trigger]
            durations(after) == durations(trace).push(elapsed) ==> (m.after_round(elapsed)
                matches Step::Next(later) && tallied(after, later)),
{
    lemma_round(m);
    vstd::arithmetic::div_mod::lemma_small_mod(m.round as nat + 1, usize::MAX as nat + 1);
    let times = durations(trace);
    if m.round >= 2 {
        vstd::arithmetic::div_mod::lemma_small_mod((m.round - 2) as nat, usize::MAX as nat + 1);
        let size = (m.round - 2) / 10;
        lemma_times(times, elapsed, 10 * size + 1, 10 * size + 6);
        lemma_times(times, elapsed, 10 * size + 6, 10 * size + 11);
    }
}

/// A report is that of its size.
proof fn lemma_report(trace: CancelCourse, m: CancelTest, reply: CancelReply)
    requires
        well_so_far(trace, Step::Next(m)),
        times_so_far(trace, Step::Next(m)),
        m.phase is Report,
    ensures
        ({
            let after = trace.push((m.op(), reply));
            &&& reported(after, sizes_before(m.round as int) + 1)
            &&& m.next(reply) matches Step::Next(later) && later.consistent == all_consistent(
                size_reports(after),
            )
        }),
{
    let after = trace.push((m.op(), reply));
    assert(after.drop_last() =~= trace);
    lemma_round(m);
    let size = sizes_before(m.round as int);
    let report = size_report(m.request_blocks(), m.sync_elapsed_ns, m.async_elapsed_ns);
    assert(m.op() == CancelAct::Report(report));
    assert(report == report_of(durations(trace), size));
    assert(size_reports(after) == size_reports(trace).push(report));
    let (old_reports, new_reports) = (size_reports(trace), size_reports(after));
    assert forall|k: int| 0 <= k < size + 1 implies #[trigger] new_reports[k] == report_of(
        durations(after),
        k,
    ) by {
        if k < size {
            assert(old_reports[k] == report_of(durations(trace), k));
        }
    }
    if all_consistent(new_reports) {
        assert(new_reports[size].consistent);
        assert forall|k: int| 0 <= k < old_reports.len() implies (
        #[trigger] old_reports[k]).consistent by {
            assert(new_reports[k].consistent);
        }
    }
}

proof fn lemma_well_step(trace: CancelCourse, m: CancelTest, reply: CancelReply)
    requires
        well_so_far(trace, Step::Next(m)),
    ensures
        well_so_far(trace.push((m.op(), reply)), m.next(reply)),
{
    let after = trace.push((m.op(), reply));
    let n = trace.len() as int;
    assert(after[n] == (m.op(), reply));
    assert(forall|i: int| 0 <= i < n ==> #[trigger] after[i] == trace[i]);
    if m.round < CANCEL_ROUNDS {
        lemma_round(m);
        vstd::arithmetic::div_mod::lemma_small_mod(m.round as nat + 1, usize::MAX as nat + 1);
    }
    if n >= 1 {
        assert(went_well(trace, n - 1));
    }
    if n >= 2 {
        assert(went_well(trace, n - 2));
    }
    if let CancelPhase::Read(_, request) = m.phase {
        lemma_read(m, request);
    }
    if m.next(reply) is Next || m.next(reply) matches Step::Done(Ok(_)) {
        lemma_well(trace, m.op(), reply);
    }
}

proof fn lemma_steps_step(trace: CancelCourse, m: CancelTest, reply: CancelReply)
    requires
        well_so_far(trace, Step::Next(m)),
        steps_so_far(trace, Step::Next(m)),
    ensures
        steps_so_far(trace.push((m.op(), reply)), m.next(reply)),
{
    let after = trace.push((m.op(), reply));
    let round = m.round as int;
    assert(after.drop_last() =~= trace);
    assert(after.last() == (m.op(), reply));
    if round < CANCEL_ROUNDS {
        lemma_round(m);
        vstd::arithmetic::div_mod::lemma_small_mod(m.round as nat + 1, usize::MAX as nat + 1);
    }
    let reads = reads_of(round);
    match m.phase {
        CancelPhase::Card => {
            assert(data_steps(trace) =~= Seq::empty());
            assert(script(0) =~= Seq::empty());
        },
        CancelPhase::Read(_, request) => {
            lemma_read(m, request);
            assert(reads.take(request as int).push(reads[request as int]) =~= reads.take(
                request + 1,
            ));
            assert(filled(round, request as int).push(m.op()) =~= filled(round, request + 1));
            vstd::arithmetic::div_mod::lemma_small_mod(
                request as nat + 1,
                usize::MAX as nat + 1,
            );
        },
        CancelPhase::Record(_, request, _) => {
            vstd::arithmetic::div_mod::lemma_small_mod(
                request as nat + 1,
                usize::MAX as nat + 1,
            );
        },
        CancelPhase::Start => {
            assert(filled(round, 0) =~= script(round as nat).push(CancelAct::Clear));
        },
        CancelPhase::Save | CancelPhase::Compare(_) => {
            assert(reads.take(reads.len() as int) =~= reads);
            assert(filled(round, reads.len() as int).push(m.op()) =~= script(round as nat)
                + round_script(round));
            assert(script((round + 1) as nat) == script(round as nat) + round_script(round));
        },
        _ => {},
    }
}

proof fn lemma_times_step(trace: CancelCourse, m: CancelTest, reply: CancelReply)
    requires
        well_so_far(trace, Step::Next(m)),
        times_so_far(trace, Step::Next(m)),
    ensures
        times_so_far(trace.push((m.op(), reply)), m.next(reply)),
{
    let after = trace.push((m.op(), reply));
    let n = trace.len() as int;
    let round = m.round as int;
    assert(after.drop_last() =~= trace);
    assert(after.last() == (m.op(), reply));
    if n >= 1 {
        assert(after[n - 1] == trace[n - 1]);
    }
    if round < CANCEL_ROUNDS {
        lemma_round(m);
        vstd::arithmetic::div_mod::lemma_small_mod(m.round as nat + 1, usize::MAX as nat + 1);
    }
    if m.phase is Report {
        lemma_report(trace, m, reply);
    } else {
        lemma_reported(
            trace,
            m.op(),
            reply,
            if round == CANCEL_ROUNDS {
                3
            } else {
                sizes_before(round)
            },
        );
    }
    if let CancelPhase::Compare(elapsed) = m.phase {
        lemma_tally(trace, m, elapsed);
        assert(durations(after) == durations(trace).push(elapsed));
    }
}

/// The test comes to its end only if everything went well: in 32 rounds, of which the
/// first two and then five of each size poll and the other five of each size sleep, the
/// whole region is read request by request; no read fails; each asynchronous read is
/// seen to end by an interrupt as its size demands, and is recorded; and each round
/// after the first reads the same data as it. Three reports, one for each size, sum up
/// the times of the rounds. Then a read is cancelled while it is pending, and what is
/// found after it and how the next read ends decide the verdict.
pub proof fn law_cancel_test_compares_every_round(replies: Seq<CancelReply>)
    ensures
        ({
            let done = run(Step::Next(CancelTest::new()), replies);
            let trace = done.trace;
            let n = trace.len() as int;
            done.at matches Step::Done(Ok(end)) ==> {
                &&& all_well(trace)
                &&& data_steps(trace) == script(CANCEL_ROUNDS as nat)
                &&& durations(trace).len() == 31 && reported(trace, 3)
                &&& end.throughput_consistent == all_consistent(size_reports(trace))
                &&& ends_cancelled(trace, 3)
                &&& trace[n - 2].0 is Aftermath && trace[n - 2].1.aftermath() == end.after
                &&& trace[n - 1].0 == CancelAct::NextRead { lba: TEST_START_LBA }
                &&& trace[n - 1].1.outcome() == end.next_read
                &&& end.cancellation_ok == cancellation_ok(end.after, end.next_read)
            }
        }),
{
    let start = Step::<CancelTest, CancelOut>::Next(CancelTest::new());
    let inv = |trace: CancelCourse, at: Step<CancelTest, CancelOut>|
        well_so_far(trace, at) && steps_so_far(trace, at) && times_so_far(trace, at);
    assert forall|trace: CancelCourse, m: CancelTest, reply: CancelReply|
        inv(trace, Step::Next(m)) implies #[trigger] inv(
        trace.push((m.op(), reply)),
        m.next(reply),
    ) by {
        lemma_well_step(trace, m, reply);
        lemma_steps_step(trace, m, reply);
        lemma_times_step(trace, m, reply);
    }
    lemma_run_invariant(start, replies, inv);
}

/// A cancellation went well if the driver is out of service but could stop the engine, the
/// engine is neither enabled nor in reset and cut off together with its interrupts, and the
/// next read is refused because of that.
pub proof fn law_cancellation_is_judged_bit_by_bit(after: Aftermath, next_read: SdMmcResult)
    ensures
        cancellation_ok(after, next_read) == {
            &&& after.faulted && !after.reset_failed
            &&& after.bmod & 0x81 == 0
            &&& after.ctrl & 0x0200_0014 == 0
            &&& after.intmask == 0 && after.idinten == 0
            &&& next_read == Err::<(), _>(SdMmcError::DriverFaulted)
        },
{
    let bmod = after.bmod;
    let ctrl = after.ctrl;
    assert({
        &&& (bmod & 0x80 == 0 && bmod & 0x1 == 0) == (bmod & 0x81 == 0)
        &&& (ctrl & 0x0200_0000 == 0 && ctrl & 0x4 == 0 && ctrl & 0x10 == 0) == (ctrl
            & 0x0200_0014 == 0)
    }) by (bit_vector);
}

/// Ten rounds of a size are compared by the time that they took: 1000 times the time of the
/// polled ones, divided by that of the asynchronous ones, lies between 850 and 1150 if both
/// ways are about as fast.
pub proof fn law_sizes_are_compared_by_time(blocks: usize, polled: u64, asleep: u64)
    requires
        0 < asleep,
        polled * 1_000 / asleep as int <= u64::MAX,
    ensures
        ({
            let report = size_report(blocks, polled, asleep);
            let ratio = report.async_vs_sync_milli as int;
            &&& report.request_blocks == blocks
            &&& report.sync_elapsed_ns == polled && report.async_elapsed_ns == asleep
            &&& ratio * asleep <= polled * 1_000 < (ratio + 1) * asleep
            &&& report.consistent == (850 * asleep <= polled * 1_000 < 1151 * asleep)
        }),
{
    let whole = polled * 1_000int;
    let ratio = whole / asleep as int;
    vstd::arithmetic::div_mod::lemma_fundamental_div_mod(whole, asleep as int);
    vstd::arithmetic::div_mod::lemma_small_mod(ratio as nat, u64::MAX as nat + 1);
    assert(ratio * asleep <= whole < (ratio + 1) * asleep) by (nonlinear_arith)
        requires
            whole == asleep * ratio + whole % (asleep as int),
            0 <= whole % (asleep as int) < asleep,
    ;
    assert((850 <= ratio) == (850 * asleep <= whole)) by (nonlinear_arith)
        requires
            ratio * asleep <= whole < (ratio + 1) * asleep,
            0 < asleep,
    ;
    assert((ratio <= 1150) == (whole < 1151 * asleep)) by (nonlinear_arith)
        requires
            ratio * asleep <= whole < (ratio + 1) * asleep,
            0 < asleep,
    ;
}

} // verus!
