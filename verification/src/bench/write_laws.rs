//! What the write benchmark keeps to, whatever happens.

use crate::bench::data::TEST_START_LBA;
use crate::bench::measure::Case;
use crate::bench::write::{
    CaseEnd, CasePhase, RestorePhase, RestoreRegion, RestoreStage, WriteAct, WriteCase,
    WriteFailure, WriteReply, WriteRequests, WriteWorkload, TEST_REGION_BYTES,
};
use crate::bench::write_plan::{WriteBench, WriteBenchPhase};
use crate::io::{lemma_run_invariant, run, Machine, Step};
use vstd::prelude::*;

verus! {

/// A course of operations and replies.
pub type Course = Seq<(WriteAct, WriteReply)>;

/// The whole region is read and saved.
pub open spec fn save_all() -> WriteAct {
    WriteAct::ReadBackup { lba: TEST_START_LBA, len: TEST_REGION_BYTES }
}

/// The whole region is read.
pub open spec fn read_all() -> WriteAct {
    WriteAct::ReadRegion { lba: TEST_START_LBA, len: TEST_REGION_BYTES }
}

/// What was saved is written to the whole region.
pub open spec fn restore_all() -> WriteAct {
    WriteAct::WriteBackup { lba: TEST_START_LBA, len: TEST_REGION_BYTES }
}

/// The operation changes the region.
pub open spec fn touches(op: WriteAct) -> bool {
    op is Write || op is WriteBackup
}

/// Some operation changed the region.
pub open spec fn touched(trace: Course) -> bool
    decreases trace.len(),
{
    trace.len() > 0 && (touches(trace.last().0) || touched(trace.drop_last()))
}

/// Whatever changed the region last was putting it back in order.
pub open spec fn tidied(trace: Course) -> bool
    decreases trace.len(),
{
    trace.len() == 0 || trace.last().0 is WriteBackup || (!(trace.last().0 is Write) && tidied(
        trace.drop_last(),
    ))
}

/// The region was saved first and read the same twice, on a machine that suits
/// the benchmark.
pub open spec fn saved(trace: Course) -> bool {
    &&& trace.len() >= 4
    &&& trace[0].0 is Environment && trace[0].1.obstacle() is None
    &&& trace[1].0 == save_all() && trace[1].1.outcome() is Ok
    &&& trace[2].0 == read_all() && trace[2].1.outcome() is Ok
    &&& trace[3].0 is CompareBackup && trace[3].1.comparison().same
}

/// The course ends with what was saved being written back, read and found in
/// order.
pub open spec fn restored(trace: Course) -> bool {
    let n = trace.len();
    &&& n >= 3
    &&& trace[n - 3].0 == restore_all() && trace[n - 3].1.outcome() is Ok
    &&& trace[n - 2].0 == read_all() && trace[n - 2].1.outcome() is Ok
    &&& trace[n - 1].0 is CompareBackup && trace[n - 1].1.comparison().same
}

/// Cases whose results were kept.
pub open spec fn kept(trace: Course) -> int
    decreases trace.len(),
{
    if trace.len() == 0 {
        0
    } else {
        kept(trace.drop_last()) + (if trace.last().0 is Keep {
            1int
        } else {
            0int
        })
    }
}

/// A write within the region, of the data that belongs there: of a part of the pattern
/// to its place, or of all that was saved.
pub open spec fn within_region(op: WriteAct) -> bool {
    match op {
        WriteAct::Write { lba, offset, len, .. } => {
            &&& TEST_START_LBA <= lba
            &&& offset == (lba - TEST_START_LBA) * 512
            &&& len > 0 && len % 512 == 0
            &&& offset + len <= TEST_REGION_BYTES
        },
        WriteAct::WriteBackup { .. } => op == restore_all(),
        _ => true,
    }
}

/// Every write of a course stays within the region.
pub open spec fn stays_within_region(trace: Course) -> bool
    decreases trace.len(),
{
    trace.len() == 0 || (within_region(trace.last().0) && stays_within_region(trace.drop_last()))
}

proof fn lemma_push(trace: Course, op: WriteAct, reply: WriteReply)
    ensures
        trace.push((op, reply)).drop_last() == trace,
        trace.push((op, reply)).last() == (op, reply),
        forall|i: int|
            0 <= i < trace.len() ==> #[trigger] trace.push((op, reply))[i] == trace[i],
        saved(trace) ==> saved(trace.push((op, reply))),
{
    assert(trace.push((op, reply)).drop_last() =~= trace);
}

/// Any request of a workload lies within the region.
proof fn lemma_requests_within_region(m: WriteRequests)
    ensures
        within_region(m.op()),
{
    let place = (m.request % m.workload.requests_per_region()) as int;
    let size = m.workload.request_bytes() as int;
    let blocks = m.workload.request_blocks() as int;
    match m.workload {
        WriteWorkload::Cmd24 => {
            assert(place * size == place * 512 && place * blocks == place * 1);
        },
        WriteWorkload::Cmd25x8 => {
            assert(place * size == place * 4096 && place * blocks == place * 8);
        },
        WriteWorkload::Cmd25x32 => {
            assert(place * size == place * 16384 && place * blocks == place * 32);
        },
    }
    vstd::arithmetic::div_mod::lemma_small_mod((place * size) as nat, usize::MAX as nat + 1);
    vstd::arithmetic::div_mod::lemma_small_mod((place * blocks) as nat, usize::MAX as nat + 1);
    vstd::arithmetic::div_mod::lemma_small_mod(
        (TEST_START_LBA + place * blocks) as nat,
        u32::MAX as nat + 1,
    );
}

/// The end of putting the region back in order, step by step.
spec fn restoring(trace: Course, restore: RestoreRegion) -> bool {
    let n = trace.len();
    match restore.phase {
        RestorePhase::Write => true,
        RestorePhase::Read => {
            &&& n >= 1
            &&& trace[n - 1].0 == restore_all() && trace[n - 1].1.outcome() is Ok
        },
        RestorePhase::Compare => {
            &&& n >= 2
            &&& trace[n - 2].0 == restore_all() && trace[n - 2].1.outcome() is Ok
            &&& trace[n - 1].0 == read_all() && trace[n - 1].1.outcome() is Ok
        },
    }
}

/// What holds while the benchmark runs.
spec fn bench_invariant(trace: Course, at: Step<WriteBench, Result<(), WriteFailure>>) -> bool {
    &&& touched(trace) ==> saved(trace)
    &&& stays_within_region(trace)
    &&& match at {
        Step::Next(m) => match m.phase {
            WriteBenchPhase::Environment => trace.len() == 0,
            WriteBenchPhase::Backup => {
                &&& trace.len() == 1 && !touched(trace)
                &&& trace[0].0 is Environment && trace[0].1.obstacle() is None
            },
            WriteBenchPhase::Verify => {
                &&& trace.len() == 2 && !touched(trace)
                &&& trace[0].0 is Environment && trace[0].1.obstacle() is None
                &&& trace[1].0 == save_all() && trace[1].1.outcome() is Ok
            },
            WriteBenchPhase::Compare => {
                &&& trace.len() == 3 && !touched(trace)
                &&& trace[0].0 is Environment && trace[0].1.obstacle() is None
                &&& trace[1].0 == save_all() && trace[1].1.outcome() is Ok
                &&& trace[2].0 == read_all() && trace[2].1.outcome() is Ok
            },
            WriteBenchPhase::Final(restore, _) => {
                &&& saved(trace)
                &&& restore.stage == RestoreStage::Final
                &&& restoring(trace, restore)
                &&& restore.phase is Write || tidied(trace)
            },
            _ => saved(trace),
        },
        Step::Done(result) => saved(trace) ==> {
            &&& tidied(trace)
            &&& restored(trace) || match result {
                Err(WriteFailure::RestoreIo { stage, .. }) => stage == RestoreStage::Final,
                Err(WriteFailure::RestoreMismatch { stage, .. }) => stage == RestoreStage::Final,
                _ => false,
            }
        },
    }
}

/// Any write of a case stays within the region.
proof fn lemma_case_within_region(m: WriteCase)
    ensures
        within_region(m.op()),
{
    if let CasePhase::Requests(requests) = m.phase {
        lemma_requests_within_region(requests);
    }
}

proof fn lemma_bench_step(trace: Course, m: WriteBench, reply: WriteReply)
    requires
        bench_invariant(trace, Step::Next(m)),
    ensures
        bench_invariant(trace.push((m.op(), reply)), m.next(reply)),
{
    lemma_push(trace, m.op(), reply);
    if let WriteBenchPhase::Case(_, _, case) = m.phase {
        lemma_case_within_region(case);
    }
}

proof fn lemma_bench(replies: Seq<WriteReply>)
    ensures
        ({
            let done = run(Step::Next(WriteBench::new()), replies);
            bench_invariant(done.trace, done.at)
        }),
{
    let start = Step::<WriteBench, Result<(), WriteFailure>>::Next(WriteBench::new());
    let inv = |trace: Course, at: Step<WriteBench, Result<(), WriteFailure>>|
        bench_invariant(trace, at);
    assert forall|trace: Course, m: WriteBench, reply: WriteReply|
        inv(trace, Step::Next(m)) implies #[trigger] inv(
        trace.push((m.op(), reply)),
        m.next(reply),
    ) by {
        lemma_bench_step(trace, m, reply);
    }
    lemma_run_invariant(start, replies, inv);
}

/// Nothing is written before the region has been saved and has read the same
/// twice, and every write stays within the region.
pub proof fn law_only_a_saved_region_is_written(replies: Seq<WriteReply>)
    ensures
        ({
            let done = run(Step::Next(WriteBench::new()), replies);
            &&& touched(done.trace) ==> saved(done.trace)
            &&& stays_within_region(done.trace)
        }),
{
    lemma_bench(replies);
}

/// However the benchmark ends, once the region was saved it is written back, and
/// that is the last change to it. The region is then found in order, unless just
/// this has failed, and then that is the result.
pub proof fn law_region_is_put_back(replies: Seq<WriteReply>)
    ensures
        ({
            let done = run(Step::Next(WriteBench::new()), replies);
            done.at matches Step::Done(result) ==> saved(done.trace) ==> {
                &&& tidied(done.trace)
                &&& restored(done.trace) || match result {
                    Err(WriteFailure::RestoreIo { stage, .. }) => stage == RestoreStage::Final,
                    Err(WriteFailure::RestoreMismatch { stage, .. }) => stage
                        == RestoreStage::Final,
                    _ => false,
                }
            }
        }),
{
    lemma_bench(replies);
}

/// Cases before those of a workload.
spec fn cases_before(workload: WriteWorkload) -> int {
    match workload {
        WriteWorkload::Cmd24 => 0,
        WriteWorkload::Cmd25x8 => 30,
        WriteWorkload::Cmd25x32 => 60,
    }
}

/// How many cases have been kept where the benchmark stands.
spec fn kept_invariant(trace: Course, at: Step<WriteBench, Result<(), WriteFailure>>) -> bool {
    match at {
        Step::Next(m) => match m.phase {
            WriteBenchPhase::Case(workload, index, _) => index < 30 && kept(trace) == cases_before(
                workload,
            ) + index,
            WriteBenchPhase::Keep(workload, index, _, _) => index < 30 && kept(trace)
                == cases_before(workload) + index,
            WriteBenchPhase::Report(workload) => kept(trace) == cases_before(workload) + 30,
            WriteBenchPhase::Final(_, result) => result is Ok ==> kept(trace) == 90,
            _ => kept(trace) == 0,
        },
        Step::Done(result) => result is Ok ==> kept(trace) == 90 && restored(trace),
    }
}

/// A case asks for nothing that only the benchmark itself asks for.
proof fn lemma_case_keeps_nothing(m: WriteCase)
    ensures
        !(m.op() is Keep),
{
}

/// The benchmark passes only if all of its 90 cases have passed and the region
/// is back in order.
pub proof fn law_pass_needs_every_case(replies: Seq<WriteReply>)
    ensures
        ({
            let done = run(Step::Next(WriteBench::new()), replies);
            done.at matches Step::Done(Ok(_)) ==> kept(done.trace) == 90 && restored(done.trace)
                && saved(done.trace)
        }),
{
    let start = Step::<WriteBench, Result<(), WriteFailure>>::Next(WriteBench::new());
    let inv = |trace: Course, at: Step<WriteBench, Result<(), WriteFailure>>|
        {
            &&& bench_invariant(trace, at)
            &&& kept_invariant(trace, at)
            &&& at matches Step::Done(Ok(_)) ==> saved(trace)
        };
    assert forall|trace: Course, m: WriteBench, reply: WriteReply|
        inv(trace, Step::Next(m)) implies #[trigger] inv(
        trace.push((m.op(), reply)),
        m.next(reply),
    ) by {
        lemma_bench_step(trace, m, reply);
        lemma_push(trace, m.op(), reply);
        if let WriteBenchPhase::Case(_, _, case) = m.phase {
            lemma_case_keeps_nothing(case);
        }
    }
    lemma_run_invariant(start, replies, inv);
}

/// Computations of a case that were started and not waited for.
pub open spec fn running(trace: Course) -> int
    decreases trace.len(),
{
    if trace.len() == 0 {
        0
    } else {
        running(trace.drop_last()) + (match trace.last().0 {
            WriteAct::Spawn(_) => 1int,
            WriteAct::JoinCompute { .. } => -1int,
            _ => 0int,
        })
    }
}

/// The region was compared with what so many requests should have left, and held
/// just that.
pub open spec fn checked(trace: Course, workload: WriteWorkload, requests: usize) -> bool {
    exists|i: int|
        0 <= i < trace.len() && (#[trigger] trace[i]).0 == (WriteAct::CompareExpected {
            workload,
            requests,
        }) && trace[i].1.comparison().same
}

/// Every request of a course succeeded and went as it should.
pub open spec fn flawless(trace: Course, case: Case) -> bool
    decreases trace.len(),
{
    trace.len() == 0 || {
        &&& flawless(trace.drop_last(), case)
        &&& trace.last().0 is Write ==> trace.last().1.outcome() is Ok
        &&& trace.last().0 is Observe ==> trace.last().1.seen().fault(case.io_mode) is None
    }
}

spec fn case_invariant(
    first: WriteCase,
    trace: Course,
    at: Step<WriteCase, CaseEnd>,
) -> bool {
    let busy = if first.case.compute_mode is Some {
        1int
    } else {
        0int
    };
    match at {
        Step::Next(m) => {
            &&& m.workload == first.workload && m.case == first.case && m.round == first.round
            &&& match m.phase {
                CasePhase::Prepare(_) => {
                    &&& running(trace) == 0 && tidied(trace) && flawless(trace, first.case)
                },
                CasePhase::Fill | CasePhase::Spawn(_) => {
                    &&& running(trace) == 0 && flawless(trace, first.case)
                    &&& m.phase is Spawn ==> first.case.compute_mode is Some
                },
                CasePhase::Start | CasePhase::Release(_) => {
                    &&& running(trace) == busy && flawless(trace, first.case)
                },
                CasePhase::Requests(requests) => {
                    &&& running(trace) == busy && flawless(trace, first.case)
                    &&& requests.mode == first.case.io_mode
                },
                CasePhase::Join(written) => {
                    &&& running(trace) == 1
                    &&& written is Ok ==> flawless(trace, first.case)
                },
                CasePhase::Read(_, _, _) | CasePhase::Compare(_, _, _) => {
                    &&& running(trace) == 0 && flawless(trace, first.case)
                },
                CasePhase::Complete(restore, findings) => {
                    &&& running(trace) == 0
                    &&& restoring(trace, restore)
                    &&& restore.phase is Write || tidied(trace)
                    &&& findings.written matches Ok(written) ==> {
                        &&& flawless(trace, first.case)
                        &&& findings.data matches Ok(data) ==> data.same ==> checked(
                            trace,
                            first.workload,
                            written.1,
                        )
                    }
                },
            }
        },
        Step::Done(result) => {
            &&& running(trace) == 0
            &&& tidied(trace)
            &&& result matches Ok((run, _)) ==> {
                &&& restored(trace)
                &&& flawless(trace, first.case)
                &&& checked(trace, first.workload, run.requests)
            }
        },
    }
}

proof fn lemma_checked_kept(
    trace: Course,
    op: WriteAct,
    reply: WriteReply,
    workload: WriteWorkload,
    requests: usize,
)
    ensures
        checked(trace, workload, requests) ==> checked(
            trace.push((op, reply)),
            workload,
            requests,
        ),
        op == (WriteAct::CompareExpected { workload, requests }) && reply.comparison().same
            ==> checked(trace.push((op, reply)), workload, requests),
{
    let after = trace.push((op, reply));
    if checked(trace, workload, requests) {
        let i = choose|i: int|
            0 <= i < trace.len() && (#[trigger] trace[i]).0 == (WriteAct::CompareExpected {
                workload,
                requests,
            }) && trace[i].1.comparison().same;
        assert(after[i] == trace[i]);
    }
    assert(after[trace.len() as int] == (op, reply));
}

proof fn lemma_case_step(first: WriteCase, trace: Course, m: WriteCase, reply: WriteReply)
    requires
        case_invariant(first, trace, Step::Next(m)),
    ensures
        case_invariant(first, trace.push((m.op(), reply)), m.next(reply)),
{
    lemma_push(trace, m.op(), reply);
    match m.phase {
        CasePhase::Requests(requests) => {
            assert(m.op() == requests.op());
            assert(!(m.op() is Spawn) && !(m.op() is JoinCompute));
        },
        CasePhase::Compare(_, requests, _) => {
            lemma_checked_kept(trace, m.op(), reply, first.workload, requests);
        },
        CasePhase::Complete(_, findings) => {
            if let Ok((_, requests)) = findings.written {
                lemma_checked_kept(trace, m.op(), reply, first.workload, requests);
            }
        },
        _ => {},
    }
}

/// However a case ends, its computation is over, and if the region was changed,
/// writing back what was saved was the last change. A case passes only if no
/// request failed, the region was seen to hold exactly what the requests wrote,
/// and it was then found back in order.
pub proof fn law_case_is_checked_and_tidied(
    workload: WriteWorkload,
    round: usize,
    case: Case,
    replies: Seq<WriteReply>,
)
    ensures
        ({
            let done = run(Step::Next(WriteCase::new(workload, round, case)), replies);
            done.at matches Step::Done(result) ==> {
                &&& running(done.trace) == 0
                &&& tidied(done.trace)
                &&& result matches Ok((run, _)) ==> {
                    &&& restored(done.trace)
                    &&& flawless(done.trace, case)
                    &&& checked(done.trace, workload, run.requests)
                }
            }
        }),
{
    let first = WriteCase::new(workload, round, case);
    let start = Step::<WriteCase, CaseEnd>::Next(first);
    let inv = |trace: Course, at: Step<WriteCase, CaseEnd>| case_invariant(first, trace, at);
    assert forall|trace: Course, m: WriteCase, reply: WriteReply|
        inv(trace, Step::Next(m)) implies #[trigger] inv(
        trace.push((m.op(), reply)),
        m.next(reply),
    ) by {
        lemma_case_step(first, trace, m, reply);
    }
    lemma_run_invariant(start, replies, inv);
}

} // verus!
