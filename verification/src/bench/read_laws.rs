//! What every pass over a region keeps to.

use crate::bench::data::{should_sample_latency, TEST_START_LBA};
use crate::bench::read::{
    IoMode, ReadAct, ReadEvent, ReadPhase, ReadRequests, ReadRound, ReadWorkload, RequestRecord,
    RoundEnd, RoundPhase, RoundPlan, TestFailure,
};
use crate::bench::stage::{StageDurations, StageFault};
use crate::io::{lemma_run_invariant, run, Machine, Step};
use vstd::prelude::*;

verus! {

/// The reads of a trace: first block, place in the buffer and length.
pub open spec fn reads(trace: Seq<(ReadAct, ReadEvent)>) -> Seq<(u32, usize, usize)>
    decreases trace.len(),
{
    if trace.len() == 0 {
        Seq::empty()
    } else {
        match trace.last().0 {
            ReadAct::Read { lba, offset, len, .. } => reads(trace.drop_last()).push(
                (lba, offset, len),
            ),
            _ => reads(trace.drop_last()),
        }
    }
}

/// How often it was asked how a read was woken.
pub open spec fn observations(trace: Seq<(ReadAct, ReadEvent)>) -> int
    decreases trace.len(),
{
    if trace.len() == 0 {
        0
    } else {
        observations(trace.drop_last()) + (if trace.last().0 is Observe {
            1int
        } else {
            0int
        })
    }
}

/// Computations that were started and not stopped.
pub open spec fn computations(trace: Seq<(ReadAct, ReadEvent)>) -> int
    decreases trace.len(),
{
    if trace.len() == 0 {
        0
    } else {
        computations(trace.drop_last()) + (match trace.last().0 {
            ReadAct::Spawn(_) => 1int,
            ReadAct::StopCompute => -1int,
            _ => 0int,
        })
    }
}

/// Every read succeeded and every observed one counts.
pub open spec fn flawless(trace: Seq<(ReadAct, ReadEvent)>, request_blocks: usize) -> bool
    decreases trace.len(),
{
    trace.len() == 0 || {
        &&& flawless(trace.drop_last(), request_blocks)
        &&& trace.last().0 is Read ==> trace.last().1.outcome() is Ok
        &&& trace.last().0 is Observe ==> trace.last().1.seen().fault(request_blocks) is None
    }
}

/// The reads are the first requests of the workload, in order.
pub open spec fn follows(done: Seq<(u32, usize, usize)>, workload: ReadWorkload) -> bool {
    forall|i: int|
        0 <= i < done.len() ==> {
            &&& (#[trigger] done[i]).0 == TEST_START_LBA + i * workload.request_blocks
            &&& done[i].1 == i * workload.request_blocks * 512
            &&& done[i].2 == workload.request_blocks * 512
        }
}

proof fn lemma_push(trace: Seq<(ReadAct, ReadEvent)>, op: ReadAct, reply: ReadEvent)
    ensures
        trace.push((op, reply)).drop_last() == trace,
        trace.push((op, reply)).last() == (op, reply),
{
    assert(trace.push((op, reply)).drop_last() =~= trace);
}

/// Where a request of a workload lies.
pub proof fn lemma_place(workload: ReadWorkload, request: usize)
    requires
        workload.wf(),
        request < workload.request_count(),
    ensures
        workload.lba(request) == TEST_START_LBA + request * workload.request_blocks,
        workload.offset(request) == request * workload.request_blocks * 512,
        workload.request_bytes() == workload.request_blocks * 512,
        (request + 1) * workload.request_blocks <= workload.total_blocks,
{
    let (r, b, t) = (request as int, workload.request_blocks as int, workload.total_blocks as int);
    vstd::arithmetic::div_mod::lemma_fundamental_div_mod(t, b);
    assert((r + 1) * b <= t) by (nonlinear_arith)
        requires
            r + 1 <= t / b,
            t == b * (t / b) + t % b,
            t % b >= 0,
            b > 0,
    ;
    assert((r + 1) * b == r * b + b) by (nonlinear_arith);
    assert(r * b >= 0) by (nonlinear_arith)
        requires
            r >= 0,
            b > 0,
    ;
    assert(r * (b * 512) == r * b * 512) by (nonlinear_arith);
    vstd::arithmetic::div_mod::lemma_small_mod((r * b) as nat, usize::MAX as nat + 1);
    vstd::arithmetic::div_mod::lemma_small_mod((b * 512) as nat, usize::MAX as nat + 1);
    vstd::arithmetic::div_mod::lemma_small_mod((r * b * 512) as nat, usize::MAX as nat + 1);
    vstd::arithmetic::div_mod::lemma_small_mod(
        (TEST_START_LBA + r * b) as nat,
        u32::MAX as nat + 1,
    );
}

/// What holds while the requests of a workload run.
pub open spec fn requests_invariant(
    workload: ReadWorkload,
    mode: IoMode,
    trace: Seq<(ReadAct, ReadEvent)>,
    at: Step<ReadRequests, Result<(), TestFailure>>,
) -> bool {
    let done = reads(trace).len();
    &&& follows(reads(trace), workload)
    &&& done <= workload.request_count()
    &&& match at {
        Step::Next(m) => {
            let open = m.phase is Start || m.phase is Read;
            &&& m.workload == workload && m.mode == mode && m.request < workload.request_count()
            &&& done == m.request + (if open {
                0int
            } else {
                1int
            })
            &&& flawless(trace, workload.request_blocks)
            &&& mode is Async ==> observations(trace) == m.request + (if m.phase is Stages
                || m.phase is Record {
                1int
            } else {
                0int
            })
        },
        Step::Done(Ok(_)) => {
            &&& done == workload.request_count()
            &&& flawless(trace, workload.request_blocks)
            &&& mode is Async ==> observations(trace) == done
        },
        Step::Done(Err(_)) => true,
    }
}

proof fn lemma_requests_step(
    workload: ReadWorkload,
    mode: IoMode,
    trace: Seq<(ReadAct, ReadEvent)>,
    m: ReadRequests,
    reply: ReadEvent,
)
    requires
        workload.wf(),
        requests_invariant(workload, mode, trace, Step::Next(m)),
    ensures
        requests_invariant(workload, mode, trace.push((m.op(), reply)), m.next(reply)),
{
    lemma_push(trace, m.op(), reply);
    lemma_place(workload, m.request);
    assert(m.request.wrapping_add(1) == m.request + 1) by {
        vstd::arithmetic::div_mod::lemma_small_mod(m.request as nat + 1, usize::MAX as nat + 1);
    }
    assert(workload.request_count() <= workload.total_blocks) by {
        vstd::arithmetic::div_mod::lemma_div_is_ordered_by_denominator(
            workload.total_blocks as int,
            1,
            workload.request_blocks as int,
        );
    }
}

/// What holds while a pass runs.
spec fn round_invariant(
    plan: RoundPlan,
    trace: Seq<(ReadAct, ReadEvent)>,
    at: Step<ReadRound, Result<RoundEnd, TestFailure>>,
) -> bool {
    let busy = if plan.compute is Some {
        1int
    } else {
        0int
    };
    match at {
        Step::Next(m) => m.plan == plan && match m.phase {
            RoundPhase::Clear => {
                &&& reads(trace).len() == 0 && observations(trace) == 0
                &&& flawless(trace, plan.workload.request_blocks)
                &&& computations(trace) == 0
            },
            RoundPhase::Spawn(mode) => {
                &&& reads(trace).len() == 0 && observations(trace) == 0
                &&& flawless(trace, plan.workload.request_blocks)
                &&& computations(trace) == 0 && plan.compute == Some(mode)
            },
            RoundPhase::Start => {
                &&& reads(trace).len() == 0 && observations(trace) == 0
                &&& flawless(trace, plan.workload.request_blocks)
                &&& computations(trace) == busy
            },
            RoundPhase::Release(_) => {
                &&& reads(trace).len() == 0 && observations(trace) == 0
                &&& flawless(trace, plan.workload.request_blocks)
                &&& computations(trace) == busy
            },
            RoundPhase::Requests(_, requests) => {
                &&& requests_invariant(plan.workload, plan.mode, trace, Step::Next(requests))
                &&& computations(trace) == busy
            },
            RoundPhase::End(_, result) => {
                &&& requests_invariant(plan.workload, plan.mode, trace, Step::Done(result))
                &&& computations(trace) == busy
                &&& result is Err ==> plan.compute is Some
            },
            RoundPhase::Stop(_, result) => {
                &&& requests_invariant(plan.workload, plan.mode, trace, Step::Done(result))
                &&& computations(trace) == 1
            },
            RoundPhase::Sum(_, _) => {
                &&& requests_invariant(plan.workload, plan.mode, trace, Step::Done(Ok(())))
                &&& computations(trace) == 0
            },
        },
        Step::Done(result) => {
            &&& computations(trace) == 0
            &&& result matches Ok(end) ==> {
                &&& requests_invariant(plan.workload, plan.mode, trace, Step::Done(Ok(())))
                &&& plan.expected matches Some(expected) ==> end.checksum == expected
            }
        },
    }
}

proof fn lemma_round_step(
    plan: RoundPlan,
    trace: Seq<(ReadAct, ReadEvent)>,
    m: ReadRound,
    reply: ReadEvent,
)
    requires
        plan.workload.wf(),
        round_invariant(plan, trace, Step::Next(m)),
    ensures
        round_invariant(plan, trace.push((m.op(), reply)), m.next(reply)),
{
    lemma_push(trace, m.op(), reply);
    if let RoundPhase::Requests(_, requests) = m.phase {
        lemma_requests_step(plan.workload, plan.mode, trace, requests, reply);
        assert(m.op() == requests.op());
        assert(!(m.op() is Spawn) && !(m.op() is StopCompute));
    }
}

/// A pass that ends well has read the whole region: the requests of the
/// workload, each once and in order, none of which failed. Each asynchronous one
/// was seen to end as it should, and the data has the expected checksum. However
/// a pass ends, the computation beside it has been stopped.
pub proof fn law_round_reads_the_region(plan: RoundPlan, replies: Seq<ReadEvent>)
    requires
        plan.workload.wf(),
    ensures
        ({
            let done = run(Step::Next(ReadRound::new(plan)), replies);
            done.at matches Step::Done(result) ==> {
                &&& computations(done.trace) == 0
                &&& result matches Ok(end) ==> {
                    &&& reads(done.trace).len() == plan.workload.total_blocks
                        / plan.workload.request_blocks
                    &&& follows(reads(done.trace), plan.workload)
                    &&& flawless(done.trace, plan.workload.request_blocks)
                    &&& plan.mode is Async ==> observations(done.trace) == reads(done.trace).len()
                    &&& plan.expected matches Some(expected) ==> end.checksum == expected
                }
            }
        }),
{
    let start = Step::<ReadRound, Result<RoundEnd, TestFailure>>::Next(ReadRound::new(plan));
    let inv = |
        trace: Seq<(ReadAct, ReadEvent)>,
        at: Step<ReadRound, Result<RoundEnd, TestFailure>>,
    |
        round_invariant(plan, trace, at);
    assert forall|trace: Seq<(ReadAct, ReadEvent)>, m: ReadRound, reply: ReadEvent|
        inv(trace, Step::Next(m)) implies #[trigger] inv(
        trace.push((m.op(), reply)),
        m.next(reply),
    ) by {
        lemma_round_step(plan, trace, m, reply);
    }
    lemma_run_invariant(start, replies, inv);
}

/// Every read of a pass lies within the region of its workload, whatever the
/// replies are.
pub proof fn law_round_stays_in_the_region(plan: RoundPlan, replies: Seq<ReadEvent>, i: int)
    requires
        plan.workload.wf(),
        0 <= i < reads(run(Step::Next(ReadRound::new(plan)), replies).trace).len(),
    ensures
        ({
            let read = reads(run(Step::Next(ReadRound::new(plan)), replies).trace)[i];
            &&& TEST_START_LBA <= read.0
            &&& read.0 + plan.workload.request_blocks <= TEST_START_LBA
                + plan.workload.total_blocks
            &&& read.1 + read.2 <= plan.workload.total_blocks * 512
        }),
{
    let start = Step::<ReadRound, Result<RoundEnd, TestFailure>>::Next(ReadRound::new(plan));
    let inv = |
        trace: Seq<(ReadAct, ReadEvent)>,
        at: Step<ReadRound, Result<RoundEnd, TestFailure>>,
    |
        {
            &&& at is Next ==> round_invariant(plan, trace, at)
            &&& follows(reads(trace), plan.workload)
            &&& reads(trace).len() <= plan.workload.request_count()
        };
    assert forall|trace: Seq<(ReadAct, ReadEvent)>, m: ReadRound, reply: ReadEvent|
        inv(trace, Step::Next(m)) implies #[trigger] inv(
        trace.push((m.op(), reply)),
        m.next(reply),
    ) by {
        lemma_round_step(plan, trace, m, reply);
        lemma_push(trace, m.op(), reply);
        if let RoundPhase::Requests(_, requests) = m.phase {
            lemma_requests_step(plan.workload, plan.mode, trace, requests, reply);
        }
    }
    lemma_run_invariant(start, replies, inv);
    lemma_place(plan.workload, i as usize);
    let b = plan.workload.request_blocks;
    assert((i + 1) * b == i * b + b) by (nonlinear_arith);
    assert(0 <= i * b) by (nonlinear_arith)
        requires
            0 <= i,
            0 <= b,
    ;
}

/// The time from one clock reading to a later one; none if the clock went back.
pub open spec fn time_between(from: u64, to: u64) -> int {
    if from <= to {
        to - from
    } else {
        0
    }
}

/// The request is timed as a whole: not if its stages are, and else one of each group.
pub open spec fn is_timed(plan: RoundPlan, request: int) -> bool {
    !plan.staged && (plan.stride matches Some(stride) && should_sample_latency(
        request as usize,
        stride,
    ))
}

/// Something of the request is recorded.
pub open spec fn is_recorded(plan: RoundPlan, request: int) -> bool {
    plan.mode is Async || plan.staged || is_timed(plan, request)
}

/// Records that are owed of so many requests.
pub open spec fn owed(plan: RoundPlan, requests: nat) -> int
    decreases requests,
{
    if requests == 0 {
        0
    } else {
        owed(plan, (requests - 1) as nat) + (if is_recorded(plan, requests - 1) {
            1int
        } else {
            0
        })
    }
}

/// Records that were made.
pub open spec fn records(trace: Seq<(ReadAct, ReadEvent)>) -> int
    decreases trace.len(),
{
    if trace.len() == 0 {
        0
    } else {
        records(trace.drop_last()) + (if trace.last().0 is Record {
            1int
        } else {
            0
        })
    }
}

/// The act is a read as the plan wants it.
pub open spec fn reads_as_planned(plan: RoundPlan, act: ReadAct) -> bool {
    act matches ReadAct::Read { mode, staged, .. } && mode == plan.mode && staged == plan.staged
}

/// The course ends with a read of the request and, if the request is timed, clock
/// readings directly before and after it, which are this time apart.
pub open spec fn read_took(
    plan: RoundPlan,
    course: Seq<(ReadAct, ReadEvent)>,
    request: int,
    elapsed: Option<u64>,
) -> bool {
    let n = course.len() as int;
    match elapsed {
        None => !is_timed(plan, request) && n >= 1 && reads_as_planned(plan, course[n - 1].0),
        Some(ns) => {
            &&& is_timed(plan, request)
            &&& n >= 3
            &&& course[n - 3].0 is Now
            &&& reads_as_planned(plan, course[n - 2].0)
            &&& course[n - 1].0 is Now
            &&& ns == time_between(course[n - 3].1.time(), course[n - 1].1.time())
        },
    }
}

/// The course ends with what the record says of the request: how long it took, if it was
/// timed; how it was woken, if it has slept; and its time stamps, if they were wanted.
pub open spec fn record_holds(
    plan: RoundPlan,
    course: Seq<(ReadAct, ReadEvent)>,
    request: int,
    record: RequestRecord,
) -> bool {
    let n = course.len() as int;
    match record {
        RequestRecord::Timed { latency_ns, observation } => !plan.staged && match observation {
            None => plan.mode is Sync && read_took(plan, course, request, latency_ns),
            Some(seen) => {
                &&& plan.mode is Async
                &&& n >= 1 && course[n - 1].0 is Observe && course[n - 1].1.seen() == seen
                &&& read_took(plan, course.drop_last(), request, latency_ns)
            },
        },
        RequestRecord::Staged(sample) => {
            let seen = course[n - 1].1.stages();
            &&& plan.staged
            &&& n >= 1 && course[n - 1].0 is Stages
            &&& sample.request == request
            &&& sample.lba == TEST_START_LBA + request * plan.workload.request_blocks
            &&& StageDurations::judged(seen, plan.workload.request_blocks) == Ok::<
                StageDurations,
                StageFault,
            >(sample.durations)
            &&& sample.irq_rintsts_bits == seen.irq_rintsts_bits
            &&& sample.irq_idsts_bits == seen.irq_idsts_bits
            &&& if plan.mode is Async {
                n >= 2 && course[n - 2].0 is Observe && read_took(
                    plan,
                    course.drop_last().drop_last(),
                    request,
                    None,
                )
            } else {
                read_took(plan, course.drop_last(), request, None)
            }
        },
    }
}

/// Every read is as planned, and every record holds of the request before it.
pub open spec fn records_hold(plan: RoundPlan, course: Seq<(ReadAct, ReadEvent)>) -> bool
    decreases course.len(),
{
    course.len() == 0 || {
        let before = course.drop_last();
        &&& records_hold(plan, before)
        &&& course.last().0 is Read ==> reads_as_planned(plan, course.last().0)
        &&& course.last().0 matches ReadAct::Record(record) ==> record_holds(
            plan,
            before,
            reads(before).len() - 1,
            record,
        )
    }
}

/// The course ends with what the failure says of its last request: it was not read, it was
/// not woken as it should, or its time stamps do not fit.
pub open spec fn request_failed(
    plan: RoundPlan,
    course: Seq<(ReadAct, ReadEvent)>,
    failure: TestFailure,
) -> bool {
    let last = course.last();
    let number = reads(course).len() - 1;
    &&& course.len() >= 1
    &&& match failure {
        TestFailure::Io { mode, request, error } => {
            &&& mode == plan.mode && request == number
            &&& last.0 is Read && last.1.outcome() == Err::<(), _>(error)
        },
        TestFailure::AsyncTerminal { request, reason, observation } => {
            &&& plan.mode is Async && request == number
            &&& last.0 is Observe && last.1.seen() == observation
            &&& observation.fault(plan.workload.request_blocks) == Some(reason)
        },
        TestFailure::StageObservation { workload, mode, request, fault, stages } => {
            &&& plan.staged && workload == plan.workload.name
            &&& mode == plan.mode && request == number
            &&& last.0 is Stages && last.1.stages() == stages
            &&& StageDurations::judged(stages, plan.workload.request_blocks) == Err::<
                StageDurations,
                StageFault,
            >(fault)
        },
        _ => false,
    }
}

/// What a pass that did not go well reports is what its course shows: a request that failed,
/// after which nothing happens but that the computation is stopped, if there is one, or a
/// checksum that is not the expected one.
pub open spec fn failure_told(
    plan: RoundPlan,
    course: Seq<(ReadAct, ReadEvent)>,
    failure: TestFailure,
) -> bool {
    let n = course.len() as int;
    let before = course.drop_last();
    match failure {
        TestFailure::DataMismatch { workload, expected, actual } => {
            &&& n >= 1
            &&& course[n - 1].0 is Checksum && course[n - 1].1.checksum() == actual
            &&& workload == plan.workload.name
            &&& plan.expected == Some(expected) && expected != actual
            &&& plan.compute is Some ==> n >= 2 && course[n - 2].0 is StopCompute
        },
        _ => if plan.compute is Some {
            &&& n >= 3
            &&& course[n - 1].0 is StopCompute && course[n - 2].0 is Now
            &&& request_failed(plan, before.drop_last(), failure)
        } else {
            request_failed(plan, course, failure)
        },
    }
}

/// What the requests have told so far.
spec fn telling(
    plan: RoundPlan,
    course: Seq<(ReadAct, ReadEvent)>,
    at: Step<ReadRequests, Result<(), TestFailure>>,
) -> bool {
    let n = course.len() as int;
    &&& requests_invariant(plan.workload, plan.mode, course, at)
    &&& records_hold(plan, course)
    &&& match at {
        Step::Next(m) => {
            let k = m.request as int;
            &&& m.staged == plan.staged && m.stride == plan.stride
            &&& records(course) == owed(plan, m.request as nat)
            &&& match m.phase {
                ReadPhase::Start => is_timed(plan, k),
                ReadPhase::Read(None) => !is_timed(plan, k),
                ReadPhase::Read(Some(started)) => is_timed(plan, k) && n >= 1 && course[n - 1].0
                    is Now && course[n - 1].1.time() == started,
                ReadPhase::End(started) => is_timed(plan, k) && n >= 2 && course[n - 2].0 is Now
                    && course[n - 2].1.time() == started && reads_as_planned(
                    plan,
                    course[n - 1].0,
                ),
                ReadPhase::Observe(elapsed) => plan.mode is Async && read_took(
                    plan,
                    course,
                    k,
                    elapsed,
                ),
                ReadPhase::Stages => plan.staged && if plan.mode is Async {
                    n >= 1 && course[n - 1].0 is Observe && read_took(
                        plan,
                        course.drop_last(),
                        k,
                        None,
                    )
                } else {
                    read_took(plan, course, k, None)
                },
                ReadPhase::Record(record) => is_recorded(plan, k) && record_holds(
                    plan,
                    course,
                    k,
                    record,
                ),
            }
        },
        Step::Done(Ok(_)) => records(course) == owed(
            plan,
            plan.workload.request_count() as nat,
        ),
        Step::Done(Err(failure)) => request_failed(plan, course, failure),
    }
}

/// The next request begins with nothing told of it.
proof fn lemma_next_told(plan: RoundPlan, course: Seq<(ReadAct, ReadEvent)>, m: ReadRequests)
    requires
        plan.workload.wf(),
        m.workload == plan.workload && m.mode == plan.mode,
        m.staged == plan.staged && m.stride == plan.stride,
        m.request < plan.workload.request_count(),
        requests_invariant(
            plan.workload,
            plan.mode,
            course,
            m.at_request(m.request.wrapping_add(1)),
        ),
        records_hold(plan, course),
        records(course) == owed(plan, m.request as nat + 1),
    ensures
        telling(plan, course, m.at_request(m.request.wrapping_add(1))),
{
    vstd::arithmetic::div_mod::lemma_small_mod(m.request as nat + 1, usize::MAX as nat + 1);
}

proof fn lemma_telling(
    plan: RoundPlan,
    course: Seq<(ReadAct, ReadEvent)>,
    m: ReadRequests,
    reply: ReadEvent,
)
    requires
        plan.workload.wf(),
        telling(plan, course, Step::Next(m)),
    ensures
        telling(plan, course.push((m.op(), reply)), m.next(reply)),
{
    let after = course.push((m.op(), reply));
    let k = m.request as int;
    lemma_push(course, m.op(), reply);
    lemma_requests_step(plan.workload, plan.mode, course, m, reply);
    lemma_place(plan.workload, m.request);
    assert(owed(plan, m.request as nat + 1) == owed(plan, m.request as nat) + (if is_recorded(
        plan,
        k,
    ) {
        1int
    } else {
        0
    }));
    match m.phase {
        ReadPhase::Record(_) => {
            lemma_next_told(plan, after, m);
        },
        ReadPhase::Read(None) => {
            if reply.outcome() is Ok && !is_recorded(plan, k) {
                lemma_next_told(plan, after, m);
            }
        },
        _ => {},
    }
}

/// What a pass has shown so far: the computation was let go at the clock reading with
/// which the time begins, and nothing but requests comes before the reading with which it
/// ends.
spec fn round_telling(
    plan: RoundPlan,
    course: Seq<(ReadAct, ReadEvent)>,
    at: Step<ReadRound, Result<RoundEnd, TestFailure>>,
) -> bool {
    let n = course.len() as int;
    match at {
        Step::Next(m) => m.plan == plan && match m.phase {
            RoundPhase::Clear => n == 0,
            RoundPhase::Spawn(mode) => plan.compute == Some(mode) && n == 1 && course[0].0 is Clear,
            RoundPhase::Start => prepared(plan, course) && n == first_clock(plan),
            RoundPhase::Release(started) => {
                &&& plan.compute is Some && begun(plan, course, started)
                &&& n == first_clock(plan) + 1
            },
            RoundPhase::Requests(started, requests) => begun(plan, course, started) && telling(
                plan,
                course,
                Step::Next(requests),
            ) && (plan.compute is Some ==> n > first_clock(plan) + 1 && released(plan, course)),
            RoundPhase::End(started, result) => (plan.compute is None ==> result is Ok) && begun(
                plan,
                course,
                started,
            ) && telling(
                plan,
                course,
                Step::Done(result),
            ) && (plan.compute is Some ==> n > first_clock(plan) + 1 && released(plan, course)),
            RoundPhase::Stop(elapsed, Ok(_)) => plan.compute is Some && timed_round(
                plan,
                course,
                elapsed,
            ),
            RoundPhase::Stop(_, Err(failure)) => {
                &&& plan.compute is Some
                &&& n >= 2 && course[n - 1].0 is Now
                &&& request_failed(plan, course.drop_last(), failure)
            },
            RoundPhase::Sum(elapsed, compute) => match plan.compute {
                None => compute is None && timed_round(plan, course, elapsed),
                Some(_) => n >= 1 && course[n - 1].0 is StopCompute && compute == course[n
                    - 1].1.compute() && timed_round(plan, course.drop_last(), elapsed),
            },
        },
        Step::Done(Ok(end)) => round_told(plan, course, end),
        Step::Done(Err(failure)) => failure_told(plan, course, failure),
    }
}

/// Where the clock is read with which the time begins.
pub open spec fn first_clock(plan: RoundPlan) -> int {
    if plan.compute is Some {
        2
    } else {
        1
    }
}

/// The buffer was cleared, and the computation that is wanted beside the reads waits.
pub open spec fn prepared(plan: RoundPlan, course: Seq<(ReadAct, ReadEvent)>) -> bool {
    &&& course.len() >= first_clock(plan)
    &&& course[0].0 is Clear
    &&& plan.compute matches Some(mode) ==> course[1].0 == ReadAct::Spawn(mode)
}

/// The time has begun.
pub open spec fn begun(plan: RoundPlan, course: Seq<(ReadAct, ReadEvent)>, started: u64) -> bool {
    &&& prepared(plan, course)
    &&& course.len() > first_clock(plan)
    &&& course[first_clock(plan)].0 is Now
    &&& course[first_clock(plan)].1.time() == started
}

/// The computation was let go at the time that has begun.
pub open spec fn released(plan: RoundPlan, course: Seq<(ReadAct, ReadEvent)>) -> bool {
    course[first_clock(plan) + 1].0 == ReadAct::StartCompute(course[first_clock(plan)].1.time())
}

/// The course is that of requests which went well, with a clock reading directly before
/// and one directly after them, which are this time apart.
pub open spec fn timed_round(
    plan: RoundPlan,
    course: Seq<(ReadAct, ReadEvent)>,
    elapsed: u64,
) -> bool {
    let n = course.len() as int;
    let requests = course.drop_last();
    &&& n > first_clock(plan) + 1
    &&& prepared(plan, course)
    &&& course[first_clock(plan)].0 is Now
    &&& plan.compute is Some ==> released(plan, course)
    &&& course[n - 1].0 is Now
    &&& elapsed == time_between(course[first_clock(plan)].1.time(), course[n - 1].1.time())
    &&& records_hold(plan, requests)
    &&& records(requests) == owed(plan, plan.workload.request_count() as nat)
}

/// What a pass that went well reports is what its course shows: the time between the clock
/// readings around its requests, what the computation has answered when it was stopped
/// after that, and the checksum that was computed last.
pub open spec fn round_told(
    plan: RoundPlan,
    course: Seq<(ReadAct, ReadEvent)>,
    end: RoundEnd,
) -> bool {
    let n = course.len() as int;
    let before = course.drop_last();
    &&& n >= 1
    &&& course[n - 1].0 is Checksum
    &&& end.checksum == course[n - 1].1.checksum()
    &&& plan.expected matches Some(expected) ==> end.checksum == expected
    &&& match plan.compute {
        None => end.compute is None && timed_round(plan, before, end.elapsed_ns),
        Some(_) => {
            &&& n >= 2
            &&& course[n - 2].0 is StopCompute
            &&& end.compute == course[n - 2].1.compute()
            &&& timed_round(plan, before.drop_last(), end.elapsed_ns)
        },
    }
}

/// Nothing was read or recorded yet.
proof fn lemma_requests_begin(
    plan: RoundPlan,
    course: Seq<(ReadAct, ReadEvent)>,
    m: ReadRound,
    started: u64,
)
    requires
        plan.workload.wf(),
        m.plan == plan,
        prepared(plan, course),
        begun(plan, course, started),
        course.len() == (if plan.compute is Some {
            first_clock(plan) + 2
        } else {
            first_clock(plan) + 1
        }),
        plan.compute is Some ==> released(plan, course),
    ensures
        round_telling(plan, course, m.at_requests(started)),
{
    reveal_with_fuel(reads, 5);
    reveal_with_fuel(records, 5);
    reveal_with_fuel(records_hold, 5);
    reveal_with_fuel(observations, 5);
    reveal_with_fuel(flawless, 5);
    assert(owed(plan, 0) == 0);
    assert(reads(course) =~= Seq::empty());
}

proof fn lemma_round_telling(
    plan: RoundPlan,
    course: Seq<(ReadAct, ReadEvent)>,
    m: ReadRound,
    reply: ReadEvent,
)
    requires
        plan.workload.wf(),
        round_telling(plan, course, Step::Next(m)),
    ensures
        round_telling(plan, course.push((m.op(), reply)), m.next(reply)),
{
    let after = course.push((m.op(), reply));
    lemma_push(course, m.op(), reply);
    match m.phase {
        RoundPhase::Start => {
            if plan.compute is None {
                lemma_requests_begin(plan, after, m, reply.time());
            }
        },
        RoundPhase::Release(started) => {
            lemma_requests_begin(plan, after, m, started);
        },
        RoundPhase::Requests(_, requests) => {
            lemma_telling(plan, course, requests, reply);
        },
        _ => {},
    }
}

/// What a pass that ends well reports is what was measured: the time that its requests
/// took, from a clock reading directly before the first to one directly after the last;
/// what the computation beside them achieved, which ran from that first reading on; and
/// the checksum of the data. Of each request that is to be recorded there is one record,
/// with the time between clock readings directly before and after the read. A pass that does
/// not end well reports what went wrong.
pub proof fn law_round_tells_what_it_measured(plan: RoundPlan, replies: Seq<ReadEvent>)
    requires
        plan.workload.wf(),
    ensures
        ({
            let done = run(Step::Next(ReadRound::new(plan)), replies);
            match done.at {
                Step::Next(_) => true,
                Step::Done(Ok(end)) => round_told(plan, done.trace, end),
                Step::Done(Err(failure)) => failure_told(plan, done.trace, failure),
            }
        }),
{
    let start = Step::<ReadRound, Result<RoundEnd, TestFailure>>::Next(ReadRound::new(plan));
    let inv = |
        trace: Seq<(ReadAct, ReadEvent)>,
        at: Step<ReadRound, Result<RoundEnd, TestFailure>>,
    |
        round_telling(plan, trace, at);
    assert forall|trace: Seq<(ReadAct, ReadEvent)>, m: ReadRound, reply: ReadEvent|
        inv(trace, Step::Next(m)) implies #[trigger] inv(
        trace.push((m.op(), reply)),
        m.next(reply),
    ) by {
        lemma_round_telling(plan, trace, m, reply);
    }
    lemma_run_invariant(start, replies, inv);
}

} // verus!
