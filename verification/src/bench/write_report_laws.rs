//! What a case of the write benchmark reports is what its course has shown.

use crate::bench::measure::Case;
use crate::bench::read::{ComputeMode, ComputeResult, IoMode};
use crate::bench::read_laws::time_between;
use crate::bench::write::{
    CaseEnd, CaseFindings, CasePhase, Comparison, ComputePlace, RestorePhase, RestoreRegion,
    RestoreStage, WriteAct, WriteCase, WriteFailure, WritePhase, WriteReply, WriteRequests,
    WriteWorkload, Written,
};
use crate::bench::write_laws::Course;
use crate::bench::write_measure::WriteRun;
use crate::bench::write_plan::{WriteBench, WriteBenchPhase};
use crate::io::{lemma_run_invariant, run, Machine, Step};
use vstd::prelude::*;

verus! {

/// Blocks of a request.
pub open spec fn blocks_of(workload: WriteWorkload) -> int {
    match workload {
        WriteWorkload::Cmd24 => 1,
        WriteWorkload::Cmd25x8 => 8,
        WriteWorkload::Cmd25x32 => 32,
    }
}

/// The region is read.
pub open spec fn region_read() -> WriteAct {
    WriteAct::ReadRegion { lba: 2_099_200, len: 32_768 }
}

/// What was saved is written to the region.
pub open spec fn region_put_back() -> WriteAct {
    WriteAct::WriteBackup { lba: 2_099_200, len: 32_768 }
}

/// Writes of a course.
pub open spec fn writes(course: Course) -> int
    decreases course.len(),
{
    if course.len() == 0 {
        0
    } else {
        writes(course.drop_last()) + (if course.last().0 is Write {
            1int
        } else {
            0
        })
    }
}

/// Records of a course.
pub open spec fn records(course: Course) -> int
    decreases course.len(),
{
    if course.len() == 0 {
        0
    } else {
        records(course.drop_last()) + (if course.last().0 is Record {
            1int
        } else {
            0
        })
    }
}

/// The requests follow each other through the region of 64 blocks, again and again, each
/// with the part of the pattern that belongs to its place.
pub open spec fn placed(
    workload: WriteWorkload,
    io_mode: IoMode,
    request: int,
    act: WriteAct,
) -> bool {
    act matches WriteAct::Write { mode, lba, offset, len } && {
        &&& mode == io_mode
        &&& len == blocks_of(workload) * 512
        &&& lba == 2_099_200 + request * blocks_of(workload) % 64
        &&& offset == request * blocks_of(workload) % 64 * 512
    }
}

/// Every write is in its place, and every record is of what was seen of the write right
/// before.
pub open spec fn writes_hold(workload: WriteWorkload, io_mode: IoMode, course: Course) -> bool
    decreases course.len(),
{
    course.len() == 0 || {
        let before = course.drop_last();
        let n = before.len() as int;
        &&& writes_hold(workload, io_mode, before)
        &&& course.last().0 is Write ==> placed(
            workload,
            io_mode,
            writes(before),
            course.last().0,
        )
        &&& course.last().0 matches WriteAct::Record(mode, seen) ==> {
            &&& mode == io_mode
            &&& n >= 2
            &&& before[n - 2].0 is Write
            &&& before[n - 1].0 is Observe && before[n - 1].1.seen() == seen
        }
    }
}

/// Every write but the first began right after the clock showed less than the limit.
pub open spec fn in_time(course: Course, limit: int) -> bool
    decreases course.len(),
{
    course.len() == 0 || {
        let before = course.drop_last();
        &&& in_time(before, limit)
        &&& course.last().0 is Write ==> writes(before) == 0 || (before.last().0 is Now
            && before.last().1.time() < limit)
    }
}

/// Whether a computation runs beside the requests.
pub open spec fn beside(case: Case) -> int {
    if case.compute_mode is Some {
        1
    } else {
        0
    }
}

/// The region is in order: what was saved was written to it, and read from it.
pub open spec fn in_order(course: Course) -> bool {
    let n = course.len() as int;
    &&& n >= 3
    &&& course[n - 3].0 == region_put_back() && course[n - 3].1.outcome() is Ok
    &&& course[n - 2].0 == region_read() && course[n - 2].1.outcome() is Ok
    &&& course[n - 1].0 is CompareBackup && course[n - 1].1.comparison().same
}

/// The pattern of the round was made over a region in order, and the computation that is
/// wanted beside the requests waits.
pub open spec fn made_ready(first: WriteCase, course: Course) -> bool {
    let blocks = blocks_of(first.workload) as u64;
    &&& course.len() >= 4
    &&& in_order(course.take(3))
    &&& course[3].0 == WriteAct::FillPattern(
        0x7f4a_7c15_6a09_e667u64 ^ ((first.round as u64) << 32u64) ^ (blocks << 16u64),
    )
    &&& first.case.compute_mode matches Some(mode) ==> course.len() >= 5 && course[4].0
        == WriteAct::Spawn(mode)
}

/// Where the clock is read with which the time begins.
pub open spec fn first_clock(case: Case) -> int {
    4 + beside(case)
}

/// The clock reading with which the time begins.
pub open spec fn started(case: Case, course: Course) -> u64 {
    course[first_clock(case)].1.time()
}

/// Beside a computation requests begin for two seconds.
pub open spec fn limit(case: Case, course: Course) -> int {
    if started(case, course) + 2_000_000_000 <= u64::MAX {
        started(case, course) + 2_000_000_000
    } else {
        u64::MAX as int
    }
}

/// The time has begun, and with it the computation.
pub open spec fn begun(first: WriteCase, course: Course) -> bool {
    &&& made_ready(first, course)
    &&& course.len() >= 5 + 2 * beside(first.case)
    &&& course[first_clock(first.case)].0 is Now
    &&& first.case.compute_mode is Some ==> course[6].0 == WriteAct::StartCompute(
        started(first.case, course),
    )
}

/// The requests so far.
pub open spec fn requests_hold(first: WriteCase, course: Course) -> bool {
    &&& begun(first, course)
    &&& writes_hold(first.workload, first.case.io_mode, course)
    &&& first.case.compute_mode is Some ==> in_time(course, limit(first.case, course))
}

/// How the requests went, by their course. If all went well, every one was recorded, the
/// time is that from the clock reading before the first to one after the last, and they
/// were 512, or as many as began before the limit.
#[verifier::opaque]
pub open spec fn written_told(first: WriteCase, course: Course, written: Written) -> bool {
    let n = course.len() as int;
    &&& requests_hold(first, course)
    &&& match written {
        Ok((elapsed_ns, requests)) => {
            &&& n >= 2
            &&& course[n - 1].0 is Now
            &&& elapsed_ns == time_between(started(first.case, course), course[n - 1].1.time())
            &&& requests == writes(course)
            &&& requests == records(course)
            &&& if first.case.compute_mode is Some {
                course[n - 2].0 is Now && course[n - 2].1.time() >= limit(first.case, course)
            } else {
                course[n - 2].0 is Record && requests == 512
            }
        },
        Err(WriteFailure::Io { workload, mode, request, error }) => {
            &&& workload == first.workload && mode == first.case.io_mode
            &&& request == writes(course) - 1
            &&& n >= 1 && course[n - 1].0 is Write
            &&& course[n - 1].1.outcome() == Err::<(), _>(error)
        },
        Err(WriteFailure::Observation { workload, mode, request, reason, observation }) => {
            &&& workload == first.workload && mode == first.case.io_mode
            &&& request == writes(course) - 1
            &&& n >= 2 && course[n - 2].0 is Write && course[n - 1].0 is Observe
            &&& course[n - 1].1.seen() == observation
            &&& observation.fault(mode) == Some(reason)
        },
        Err(_) => false,
    }
}

/// How the requests went and what the computation achieved, by their course: it is waited
/// for, and stopped first if a request failed.
pub open spec fn joined(
    first: WriteCase,
    course: Course,
    written: Written,
    compute: Option<ComputeResult>,
) -> bool {
    let n = course.len() as int;
    if first.case.compute_mode is Some {
        &&& n >= 1
        &&& course[n - 1].0 == (WriteAct::JoinCompute { stop: written is Err })
        &&& compute == Some(course[n - 1].1.compute())
        &&& written_told(first, course.drop_last(), written)
    } else {
        compute is None && written_told(first, course, written)
    }
}

/// What a case has found out, by its course: after requests that went well the region is
/// read and compared with what so many requests should have left.
pub open spec fn found(first: WriteCase, course: Course, findings: CaseFindings) -> bool {
    let n = course.len() as int;
    match findings.written {
        Err(_) => joined(first, course, findings.written, findings.compute),
        Ok((_, requests)) => match findings.data {
            Err(error) => {
                &&& n >= 1
                &&& course[n - 1].0 == region_read()
                &&& course[n - 1].1.outcome() == Err::<(), _>(error)
                &&& joined(first, course.drop_last(), findings.written, findings.compute)
            },
            Ok(data) => {
                &&& n >= 2
                &&& course[n - 2].0 == region_read() && course[n - 2].1.outcome() is Ok
                &&& course[n - 1].0 == (WriteAct::CompareExpected {
                    workload: first.workload,
                    requests,
                })
                &&& course[n - 1].1.comparison() == data
                &&& joined(
                    first,
                    course.drop_last().drop_last(),
                    findings.written,
                    findings.compute,
                )
            },
        },
    }
}

/// The course without its last operations.
pub open spec fn without(course: Course, last: int) -> Course {
    course.take(course.len() - last)
}

/// What a case that went well reports, by its course: after its requests the computation
/// ran to its end, the region held what the requests should have left, and it is in order
/// again. The bytes are those of the requests.
#[verifier::opaque]
pub open spec fn run_told(first: WriteCase, course: Course, run: WriteRun, checksum: u64) -> bool {
    let n = course.len() as int;
    let data = course[n - 4].1.comparison();
    let bytes = run.requests * blocks_of(first.workload) * 512;
    &&& n >= 4
    &&& in_order(course)
    &&& found(
        first,
        without(course, 3),
        CaseFindings {
            written: Ok((run.elapsed_ns, run.requests)),
            compute: run.compute,
            data: Ok(data),
        },
    )
    &&& data.same && data.expected == checksum
    &&& run.compute matches Some(result) ==> result.window_completed
    &&& run.bytes == (if bytes <= u64::MAX {
        bytes
    } else {
        u64::MAX as int
    })
}

/// What a case that did not go well reports, by its course: an operation on the saved
/// region that failed just now, or else, with the region in order again, the first thing
/// that went wrong.
#[verifier::opaque]
pub open spec fn failure_told(first: WriteCase, course: Course, failure: WriteFailure) -> bool {
    let n = course.len() as int;
    let stage = if n <= 3 {
        RestoreStage::CasePrepare
    } else {
        RestoreStage::CaseComplete
    };
    let base = without(course, 3);
    let b = base.len() as int;
    match failure {
        WriteFailure::RestoreIo { stage: at, error } => {
            &&& at == stage
            &&& n >= 1
            &&& course[n - 1].0 == region_put_back() || course[n - 1].0 == region_read()
            &&& course[n - 1].1.outcome() == Err::<(), _>(error)
        },
        WriteFailure::RestoreMismatch { stage: at, expected, actual } => {
            &&& at == stage
            &&& n >= 1
            &&& course[n - 1].0 is CompareBackup
            &&& course[n - 1].1.comparison() == (Comparison { same: false, expected, actual })
        },
        WriteFailure::DataMismatch { workload, expected, actual } => {
            &&& n >= 4 && in_order(course)
            &&& workload == first.workload
            &&& base[b - 1].0 is CompareExpected
            &&& base[b - 1].1.comparison() == (Comparison { same: false, expected, actual })
            &&& base[b - 1].0->CompareExpected_requests == writes(base)
        },
        WriteFailure::ComputeWindow { place, elapsed_ns } => {
            &&& n >= 6 && in_order(course)
            &&& place == ComputePlace::Case(first.workload, first.case)
            &&& base[b - 1].0 is CompareExpected && base[b - 1].1.comparison().same
            &&& base[b - 3].0 == (WriteAct::JoinCompute { stop: false })
            &&& !base[b - 3].1.compute().window_completed
            &&& base[b - 3].1.compute().elapsed_ns == elapsed_ns
        },
        WriteFailure::Io { workload, mode, request, error } => {
            &&& n >= 4 && in_order(course)
            &&& if base[b - 1].0 == region_read() {
                &&& workload == first.workload && mode == first.case.io_mode
                &&& request == writes(base)
                &&& base[b - 1].1.outcome() == Err::<(), _>(error)
            } else {
                joined(first, base, Err(failure), if first.case.compute_mode is Some {
                    Some(base[b - 1].1.compute())
                } else {
                    None
                })
            }
        },
        _ => {
            &&& n >= 4 && in_order(course)
            &&& joined(first, base, Err(failure), if first.case.compute_mode is Some {
                Some(base[b - 1].1.compute())
            } else {
                None
            })
        },
    }
}

/// What a case reports, by its course.
pub open spec fn case_told(first: WriteCase, course: Course, end: CaseEnd) -> bool {
    match end {
        Ok((run, checksum)) => run_told(first, course, run, checksum),
        Err(failure) => failure_told(first, course, failure),
    }
}

/// Where putting the region back in order stands, by the end of the course.
spec fn tidying(course: Course, restore: RestoreRegion) -> bool {
    let n = course.len() as int;
    match restore.phase {
        RestorePhase::Write => true,
        RestorePhase::Read => {
            &&& n >= 1
            &&& course[n - 1].0 == region_put_back() && course[n - 1].1.outcome() is Ok
        },
        RestorePhase::Compare => {
            &&& n >= 2
            &&& course[n - 2].0 == region_put_back() && course[n - 2].1.outcome() is Ok
            &&& course[n - 1].0 == region_read() && course[n - 1].1.outcome() is Ok
        },
    }
}

/// Operations that putting the region back in order has taken.
spec fn taken(restore: RestoreRegion) -> int {
    match restore.phase {
        RestorePhase::Write => 0,
        RestorePhase::Read => 1,
        RestorePhase::Compare => 2,
    }
}

/// Where the requests stand, by their course.
spec fn requests_telling(first: WriteCase, course: Course, m: WriteRequests) -> bool {
    let n = course.len() as int;
    let k = writes(course);
    &&& requests_hold(first, course)
    &&& m.workload == first.workload && m.mode == first.case.io_mode
    &&& m.started_ns == started(first.case, course)
    &&& match m.deadline_ns {
        Some(deadline) => first.case.compute_mode is Some && deadline == limit(
            first.case,
            course,
        ),
        None => first.case.compute_mode is None,
    }
    &&& match m.phase {
        WritePhase::Check => {
            &&& m.request == k && records(course) == k && k >= 1
            &&& m.deadline_ns is Some
        },
        WritePhase::Write => {
            &&& m.request == k && records(course) == k
            &&& m.deadline_ns matches Some(deadline) ==> k == 0 || (course[n - 1].0 is Now
                && course[n - 1].1.time() < deadline)
            &&& m.deadline_ns is None ==> k < 512
        },
        WritePhase::Observe => {
            &&& m.request == k - 1 && records(course) == k - 1
            &&& course[n - 1].0 is Write
            &&& m.deadline_ns is None ==> k <= 512
        },
        WritePhase::Record(seen) => {
            &&& m.request == k - 1 && records(course) == k - 1
            &&& n >= 2 && course[n - 2].0 is Write
            &&& course[n - 1].0 is Observe && course[n - 1].1.seen() == seen
            &&& m.deadline_ns is None ==> k <= 512
        },
        WritePhase::Finish => {
            &&& m.request == k && records(course) == k
            &&& match m.deadline_ns {
                Some(deadline) => course[n - 1].0 is Now && course[n - 1].1.time() >= deadline,
                None => course[n - 1].0 is Record && k == 512,
            }
        },
    }
}

/// Where a case stands, by its course.
#[verifier::opaque]
spec fn case_telling(first: WriteCase, course: Course, at: Step<WriteCase, CaseEnd>) -> bool {
    let n = course.len() as int;
    match at {
        Step::Next(m) => {
            &&& m.workload == first.workload && m.round == first.round && m.case == first.case
            &&& match m.phase {
                CasePhase::Prepare(restore) => {
                    &&& restore.stage is CasePrepare
                    &&& n == taken(restore) && tidying(course, restore)
                },
                CasePhase::Fill => n == 3 && in_order(course),
                CasePhase::Spawn(mode) => {
                    &&& first.case.compute_mode == Some(mode)
                    &&& n == 4
                    &&& made_ready(
                        WriteCase {
                            case: Case { compute_mode: None, ..first.case },
                            ..first
                        },
                        course,
                    )
                },
                CasePhase::Start => n == first_clock(first.case) && made_ready(first, course),
                CasePhase::Release(started_ns) => {
                    &&& first.case.compute_mode is Some
                    &&& n == 6 && made_ready(first, course)
                    &&& course[5].0 is Now && course[5].1.time() == started_ns
                },
                CasePhase::Requests(requests) => requests_telling(first, course, requests),
                CasePhase::Join(written) => {
                    &&& first.case.compute_mode is Some
                    &&& written_told(first, course, written)
                },
                CasePhase::Read(elapsed_ns, requests, compute) => joined(
                    first,
                    course,
                    Ok((elapsed_ns, requests)),
                    compute,
                ),
                CasePhase::Compare(elapsed_ns, requests, compute) => {
                    &&& n >= 1
                    &&& course[n - 1].0 == region_read() && course[n - 1].1.outcome() is Ok
                    &&& joined(first, course.drop_last(), Ok((elapsed_ns, requests)), compute)
                },
                CasePhase::Complete(restore, findings) => {
                    &&& restore.stage is CaseComplete
                    &&& n > taken(restore) && tidying(course, restore)
                    &&& found(first, without(course, taken(restore)), findings)
                },
            }
        },
        Step::Done(end) => case_told(first, course, end),
    }
}

/// What is said of a course, by what was said of it without its last operation.
proof fn lemma_push(course: Course, act: WriteAct, reply: WriteReply)
    ensures
        ({
            let after = course.push((act, reply));
            &&& after.drop_last() == course
            &&& after.last() == (act, reply)
            &&& after.len() >= 4 && course.len() >= 3 ==> after.take(3) == course.take(3)
            &&& forall|i: int| 0 <= i < course.len() ==> #[trigger] after[i] == course[i]
            &&& without(after, 1) == course
            &&& course.len() >= 1 ==> without(after, 2) == without(course, 1)
            &&& course.len() >= 2 ==> without(after, 3) == without(course, 2)
            &&& without(course, 0) == course
        }),
{
    let after = course.push((act, reply));
    assert(after.drop_last() =~= course);
    assert(without(after, 1) =~= course);
    assert(without(course, 0) =~= course);
    if course.len() >= 1 {
        assert(without(after, 2) =~= without(course, 1));
    }
    if course.len() >= 2 {
        assert(without(after, 3) =~= without(course, 2));
    }
    if course.len() >= 3 {
        assert(after.take(3) =~= course.take(3));
    }
}

/// A request lies where the writes before it say.
proof fn lemma_placed(m: WriteRequests)
    ensures
        m.phase is Write ==> placed(m.workload, m.mode, m.request as int, m.op()),
{
    let k = m.request as int;
    let place = (m.request % m.workload.requests_per_region()) as int;
    let size = m.workload.request_bytes() as int;
    let blocks = m.workload.request_blocks() as int;
    lemma_wraps(k);
    match m.workload {
        WriteWorkload::Cmd24 => {
            assert(place * size == place * 512 && place * blocks == place * 1);
            assert(k * blocks == k * 1);
        },
        WriteWorkload::Cmd25x8 => {
            assert(place * size == place * 4096 && place * blocks == place * 8);
            assert(k * blocks == k * 8);
        },
        WriteWorkload::Cmd25x32 => {
            assert(place * size == place * 16384 && place * blocks == place * 32);
            assert(k * blocks == k * 32);
        },
    }
    vstd::arithmetic::div_mod::lemma_small_mod((place * size) as nat, usize::MAX as nat + 1);
    vstd::arithmetic::div_mod::lemma_small_mod((place * blocks) as nat, usize::MAX as nat + 1);
    vstd::arithmetic::div_mod::lemma_small_mod(
        (2_099_200 + place * blocks) as nat,
        u32::MAX as nat + 1,
    );
    assert(k * blocks_of(m.workload) % 64 == place * blocks);
}

/// Where the requests start over.
proof fn lemma_wraps(k: int)
    requires
        k >= 0,
    ensures
        k * 8 % 64 == k % 8 * 8,
        k * 32 % 64 == k % 2 * 32,
{
}

/// The requests go on.
proof fn lemma_requests_telling(
    first: WriteCase,
    course: Course,
    m: WriteRequests,
    reply: WriteReply,
)
    requires
        requests_telling(first, course, m),
        writes(course.push((m.op(), reply))) <= usize::MAX,
    ensures
        match m.next(reply) {
            Step::Next(later) => requests_telling(
                first,
                course.push((m.op(), reply)),
                later,
            ),
            Step::Done(written) => written_told(first, course.push((m.op(), reply)), written),
        },
{
    let after = course.push((m.op(), reply));
    lemma_push(course, m.op(), reply);
    lemma_placed(m);
    reveal(written_told);
    assert(begun(first, after));
    assert(limit(first.case, after) == limit(first.case, course));
    assert(requests_hold(first, after));
}

/// The first request begins.
proof fn lemma_requests_begin(first: WriteCase, course: Course, m: WriteRequests)
    requires
        begun(first, course),
        course.len() == 5 + 2 * beside(first.case),
        m.workload == first.workload && m.mode == first.case.io_mode,
        m.started_ns == started(first.case, course),
        m.deadline_ns == (if first.case.compute_mode is Some {
            Some(m.started_ns.saturating_add(2_000_000_000))
        } else {
            None
        }),
        m.request == 0 && m.phase is Write,
    ensures
        requests_telling(first, course, m),
{
    reveal_with_fuel(writes, 8);
    reveal_with_fuel(records, 8);
    reveal_with_fuel(writes_hold, 8);
    reveal_with_fuel(in_time, 8);
    let head = course.take(3);
    assert(head[0] == course[0] && head[1] == course[1] && head[2] == course[2]);
}

/// The requests that a case has found out about are those of its course.
proof fn lemma_found(first: WriteCase, course: Course, findings: CaseFindings)
    requires
        found(first, course, findings),
    ensures
        course.len() >= 5,
        findings.written matches Ok((_, requests)) ==> requests == writes(course),
        findings.written matches Ok(_) ==> findings.data matches Ok(_) ==> (
        first.case.compute_mode is Some ==> course.len() >= 3 && course[course.len() - 3].0 == (
        WriteAct::JoinCompute { stop: false }) && findings.compute == Some(
            course[course.len() - 3].1.compute(),
        )),
        first.case.compute_mode is None ==> findings.compute is None,
        findings.written is Err && first.case.compute_mode is Some ==> findings.compute == Some(
            course.last().1.compute(),
        ),
        findings.written matches Err(failure) ==> (failure is Io || failure is Observation)
            && course.last().0 != region_read(),
{
    reveal(written_told);
    let one = course.drop_last();
    let two = one.drop_last();
    reveal_with_fuel(writes, 4);
    assert(course.len() >= 5);
    assert(one.last() == course[course.len() - 2]);
    assert(two.last() == course[course.len() - 3]);
}

/// The bytes of the requests.
proof fn lemma_bytes(workload: WriteWorkload, requests: usize)
    ensures
        ({
            let bytes = requests * blocks_of(workload) * 512;
            workload.bytes_of(requests) == (if bytes <= u64::MAX {
                bytes
            } else {
                u64::MAX as int
            })
        }),
{
    let size = workload.request_bytes() as int;
    assert(requests * blocks_of(workload) * 512 == requests * size) by (nonlinear_arith)
        requires
            size == blocks_of(workload) * 512,
    ;
}

/// A case ends.
proof fn lemma_complete(first: WriteCase, course: Course, m: WriteCase, reply: WriteReply)
    requires
        m.phase is Complete,
        case_telling(first, course, Step::Next(m)),
    ensures
        case_telling(first, course.push((m.op(), reply)), m.next(reply)),
{
    reveal(case_telling);
    reveal(run_told);
    reveal(failure_told);
    let after = course.push((m.op(), reply));
    lemma_push(course, m.op(), reply);
    if let CasePhase::Complete(restore, findings) = m.phase {
        let base = without(course, taken(restore));
        lemma_found(first, base, findings);
        assert(base.len() == course.len() - taken(restore));
        if restore.phase is Compare && reply.comparison().same {
            assert(in_order(after));
            assert(base == without(after, 3));
            assert(base[base.len() - 1] == after[after.len() - 4]);
            if let Ok((_, requests)) = findings.written {
                lemma_bytes(first.workload, requests);
            }
        }
    }
}

/// A case goes on.
proof fn lemma_case_telling(first: WriteCase, course: Course, m: WriteCase, reply: WriteReply)
    requires
        case_telling(first, course, Step::Next(m)),
        writes(course.push((m.op(), reply))) <= usize::MAX,
    ensures
        case_telling(first, course.push((m.op(), reply)), m.next(reply)),
{
    reveal(case_telling);
    reveal(run_told);
    reveal(failure_told);
    let after = course.push((m.op(), reply));
    lemma_push(course, m.op(), reply);
    assert(without(after, 0) =~= after);
    match m.phase {
        CasePhase::Fill => {
            assert(after.take(3) =~= course);
            assert(m.workload.request_blocks() == blocks_of(m.workload));
            assert(m.op() == after[3].0);
        },
        CasePhase::Start => {
            if first.case.compute_mode is None {
                lemma_requests_begin(
                    first,
                    after,
                    WriteRequests::new(m.workload, m.case.io_mode, reply.time(), None),
                );
            }
        },
        CasePhase::Release(started_ns) => {
            lemma_requests_begin(
                first,
                after,
                WriteRequests::new(
                    m.workload,
                    m.case.io_mode,
                    started_ns,
                    Some(started_ns.saturating_add(2_000_000_000)),
                ),
            );
        },
        CasePhase::Requests(requests) => {
            lemma_requests_telling(first, course, requests, reply);
        },
        CasePhase::Complete(restore, findings) => {
            lemma_complete(first, course, m, reply);
        },
        _ => {},
    }
}

/// What a case reports is what its course has shown. If it goes well, its time is that
/// from the clock reading before its first request to the one after its last, its requests
/// are the writes that were made and recorded, 512 of them or as many as began within two
/// seconds beside the computation, and the checksum is that of what they should have left.
/// If not, it reports what went wrong first, where, and how.
pub proof fn law_case_tells_what_it_saw(
    workload: WriteWorkload,
    round: usize,
    case: Case,
    replies: Seq<WriteReply>,
)
    ensures
        ({
            let first = WriteCase::new(workload, round, case);
            let done = run(Step::Next(first), replies);
            done.at matches Step::Done(end) ==> writes(done.trace) <= usize::MAX ==> case_told(
                first,
                done.trace,
                end,
            )
        }),
{
    reveal(case_telling);
    let first = WriteCase::new(workload, round, case);
    let start = Step::<WriteCase, CaseEnd>::Next(first);
    let inv = |trace: Course, at: Step<WriteCase, CaseEnd>|
        writes(trace) <= usize::MAX ==> case_telling(first, trace, at);
    assert forall|trace: Course, m: WriteCase, reply: WriteReply|
        inv(trace, Step::Next(m)) implies #[trigger] inv(
        trace.push((m.op(), reply)),
        m.next(reply),
    ) by {
        lemma_push(trace, m.op(), reply);
        if writes(trace.push((m.op(), reply))) <= usize::MAX {
            lemma_case_telling(first, trace, m, reply);
        }
    }
    lemma_run_invariant(start, replies, inv);
}

/// The machine suits the benchmark: it has one processor, the card reaches beyond the
/// region, a transfer buffer of 16 KiB is there and the driver is in order.
pub open spec fn suits(reply: WriteReply) -> bool {
    reply matches WriteReply::Environment { cpu_count, card_blocks, dma_size, driver_faulted } && {
        &&& cpu_count == 1
        &&& card_blocks >= 2_099_264
        &&& dma_size >= 16_384
        &&& !driver_faulted
    }
}

/// The operation belongs to no case.
pub open spec fn between_cases(act: WriteAct) -> bool {
    act is Keep || act is Report || act is ReportBaselines
}

/// The course of the case that runs, or has just run.
pub open spec fn since(course: Course) -> Course
    decreases course.len(),
{
    if course.len() == 0 || between_cases(course.last().0) {
        Seq::empty()
    } else {
        since(course.drop_last()).push(course.last())
    }
}

/// Results that were kept.
pub open spec fn keeps(course: Course) -> int
    decreases course.len(),
{
    if course.len() == 0 {
        0
    } else {
        keeps(course.drop_last()) + (if course.last().0 is Keep {
            1int
        } else {
            0
        })
    }
}

/// Reports of workloads.
pub open spec fn reports(course: Course) -> int
    decreases course.len(),
{
    if course.len() == 0 {
        0
    } else {
        reports(course.drop_last()) + (if course.last().0 is Report {
            1int
        } else {
            0
        })
    }
}

/// The workloads come one after another, each with thirty cases.
pub open spec fn workload_of(k: int) -> WriteWorkload {
    if k < 30 {
        WriteWorkload::Cmd24
    } else if k < 60 {
        WriteWorkload::Cmd25x8
    } else {
        WriteWorkload::Cmd25x32
    }
}

/// A case of the schedule: six to a round, alone, beside a computation that never yields
/// and beside one that does, each with both ways of waiting, which take turns at being
/// the first.
pub open spec fn case_of(k: int) -> WriteCase {
    let position = k % 6;
    let round = k % 30 / 6;
    WriteCase::new(
        workload_of(k),
        (round + 1) as usize,
        Case {
            io_mode: if (position + round) % 2 == 0 {
                IoMode::Sync
            } else {
                IoMode::Async
            },
            compute_mode: if position < 2 {
                None
            } else if position < 4 {
                Some(ComputeMode::NoYield)
            } else {
                Some(ComputeMode::YieldPerUnit)
            },
        },
    )
}

/// What is kept is what the case before has shown, and what is done beside the cases is
/// done in its turn.
pub open spec fn bench_holds(course: Course) -> bool
    decreases course.len(),
{
    course.len() == 0 || {
        let before = course.drop_last();
        let n = before.len() as int;
        let k = keeps(before);
        &&& bench_holds(before)
        &&& match course.last().0 {
            WriteAct::Keep { workload, round, case, run, checksum } => {
                let first = case_of(k);
                &&& k < 90
                &&& workload == first.workload && round == first.round && case == first.case
                &&& run_told(first, since(before), run, checksum)
            },
            WriteAct::Baseline { round, compute } => {
                &&& 4 <= n < 14
                &&& round == (n - 4) / 2
                &&& compute == (if (n - 4) % 4 == 0 || (n - 4) % 4 == 3 {
                    ComputeMode::NoYield
                } else {
                    ComputeMode::YieldPerUnit
                })
            },
            WriteAct::ReportBaselines => n == 14,
            WriteAct::Report(workload) => {
                &&& k == 30 || k == 60 || k == 90
                &&& workload == workload_of(k - 1)
                &&& before.last().0 is Keep
            },
            WriteAct::Environment => n == 0,
            WriteAct::ReadBackup { lba, len } => n == 1 && lba == 2_099_200 && len == 32_768,
            _ => true,
        }
    }
}

/// What the benchmark ends with, by its course.
pub open spec fn bench_told(course: Course, end: Result<(), WriteFailure>) -> bool {
    let n = course.len() as int;
    let last = course[n - 1];
    let base = without(course, 3);
    let b = base.len() as int;
    match end {
        Ok(_) => {
            &&& n >= 4 && in_order(course)
            &&& keeps(course) == 90 && reports(course) == 3
        },
        Err(WriteFailure::InvalidEnvironment {
            cpu_count,
            card_blocks,
            required_end_lba,
            dma_ready,
            driver_faulted,
        }) => {
            &&& n == 1 && last.0 is Environment
            &&& !suits(last.1)
            &&& required_end_lba == 2_099_264
            &&& last.1 matches WriteReply::Environment {
                cpu_count: cpus,
                card_blocks: blocks,
                dma_size,
                driver_faulted: faulted,
            } ==> {
                &&& cpu_count == cpus && card_blocks == blocks
                &&& dma_ready == (dma_size >= 16_384) && driver_faulted == faulted
            }
        },
        Err(WriteFailure::BackupIo(error)) => {
            &&& n == 2 && last.0 is ReadBackup || n == 3 && last.0 == region_read()
            &&& last.1.outcome() == Err::<(), _>(error)
        },
        Err(WriteFailure::BackupMismatch) => {
            &&& n == 4 && last.0 is CompareBackup
            &&& !last.1.comparison().same
        },
        Err(WriteFailure::RestoreIo { stage: RestoreStage::Final, error }) => {
            &&& n >= 1
            &&& last.0 == region_put_back() || last.0 == region_read()
            &&& last.1.outcome() == Err::<(), _>(error)
        },
        Err(WriteFailure::RestoreMismatch { stage: RestoreStage::Final, expected, actual }) => {
            &&& n >= 1
            &&& last.0 is CompareBackup
            &&& last.1.comparison() == (Comparison { same: false, expected, actual })
        },
        Err(WriteFailure::ComputeWindow { place: ComputePlace::Baseline(mode), elapsed_ns }) => {
            &&& n >= 4 && in_order(course)
            &&& base[b - 1].0 matches WriteAct::Baseline { compute, .. } && compute == mode
            &&& !base[b - 1].1.compute().window_completed
            &&& base[b - 1].1.compute().elapsed_ns == elapsed_ns
        },
        Err(failure) => {
            &&& n >= 4 && in_order(course)
            &&& failure_told(case_of(keeps(base)), since(base), failure)
        },
    }
}

/// Where the benchmark stands, by its course.
spec fn bench_telling(course: Course, at: Step<WriteBench, Result<(), WriteFailure>>) -> bool {
    let n = course.len() as int;
    let k = keeps(course);
    &&& bench_holds(course)
    &&& n >= 2 ==> course[0].0 is Environment && suits(course[0].1)
    &&& match at {
        Step::Next(m) => match m.phase {
            WriteBenchPhase::Environment => n == 0,
            WriteBenchPhase::Backup => n == 1 && k == 0 && reports(course) == 0 && course[0].0
                is Environment && suits(course[0].1),
            WriteBenchPhase::Verify => n == 2 && k == 0 && reports(course) == 0,
            WriteBenchPhase::Compare => n == 3 && k == 0 && reports(course) == 0,
            WriteBenchPhase::Baseline(index) => n == 4 + index && index < 10 && k == 0 && reports(
                course,
            ) == 0,
            WriteBenchPhase::ReportBaselines => n == 14 && k == 0 && reports(course) == 0,
            WriteBenchPhase::Case(workload, index, case) => {
                &&& case_telling(case_of(k), since(course), Step::Next(case))
                &&& n >= 15 && index < 30 && 0 <= k < 90 && k % 30 == index
                &&& workload == workload_of(k) && reports(course) == k / 30
            },
            WriteBenchPhase::Keep(workload, index, run, checksum) => {
                &&& run_told(case_of(k), since(course), run, checksum)
                &&& n >= 15 && index < 30 && 0 <= k < 90 && k % 30 == index
                &&& workload == workload_of(k) && reports(course) == k / 30
            },
            WriteBenchPhase::Report(workload) => {
                &&& n >= 15 && course[n - 1].0 is Keep
                &&& k == 30 || k == 60 || k == 90
                &&& workload == workload_of(k - 1) && reports(course) == k / 30 - 1
            },
            WriteBenchPhase::Final(restore, result) => {
                let base = without(course, taken(restore));
                &&& restore.stage is Final
                &&& n >= 5 + taken(restore) && tidying(course, restore)
                &&& match result {
                    Ok(_) => k == 90 && reports(course) == 3,
                    Err(
                        WriteFailure::ComputeWindow {
                            place: ComputePlace::Baseline(mode),
                            elapsed_ns,
                        },
                    ) => {
                        let last = base[base.len() - 1];
                        &&& last.0 matches WriteAct::Baseline { compute, .. } && compute == mode
                        &&& !last.1.compute().window_completed
                        &&& last.1.compute().elapsed_ns == elapsed_ns
                    },
                    Err(failure) => failure_told(case_of(keeps(base)), since(base), failure),
                }
            },
        },
        Step::Done(end) => bench_told(course, end),
    }
}

/// A case has no more writes than the whole course.
proof fn lemma_since(course: Course)
    ensures
        writes(since(course)) <= writes(course),
        0 <= writes(course),
    decreases course.len(),
{
    if course.len() > 0 {
        lemma_since(course.drop_last());
        if !between_cases(course.last().0) {
            lemma_push(since(course.drop_last()), course.last().0, course.last().1);
        }
    }
}

/// A case asks for nothing that is done beside the cases.
proof fn lemma_within_case(m: WriteCase)
    ensures
        !between_cases(m.op()),
        !(m.op() is Baseline) && !(m.op() is Environment) && !(m.op() is ReadBackup),
{
}

/// A failure of a case is none of the benchmark's own.
proof fn lemma_case_failure(first: WriteCase, course: Course, failure: WriteFailure)
    requires
        failure_told(first, course, failure),
    ensures
        match failure {
            WriteFailure::InvalidEnvironment { .. } => false,
            WriteFailure::BackupIo(_) | WriteFailure::BackupMismatch => false,
            WriteFailure::RestoreIo { stage, .. } => stage !is Final,
            WriteFailure::RestoreMismatch { stage, .. } => stage !is Final,
            WriteFailure::ComputeWindow { place, .. } => place is Case,
            _ => true,
        },
{
    reveal(written_told);
    reveal(failure_told);
}

/// A case begins with nothing done.
proof fn lemma_case_begins(k: int)
    ensures
        case_telling(case_of(k), Seq::empty(), Step::Next(case_of(k))),
{
    reveal(case_telling);
}

/// A case that is over has told what it saw.
proof fn lemma_case_over(first: WriteCase, course: Course, end: CaseEnd)
    requires
        case_telling(first, course, Step::Done(end)),
    ensures
        case_told(first, course, end),
{
    reveal(case_telling);
}

/// The schedule agrees with the place of a case in its workload.
proof fn lemma_scheduled(k: int, index: usize)
    requires
        0 <= k < 90,
        k % 30 == index,
    ensures
        WriteBench::at_case(workload_of(k), index) == WriteBench::at(
            WriteBenchPhase::Case(workload_of(k), index, case_of(k)),
        ),
{
    vstd::arithmetic::div_mod::lemma_small_mod((index / 6) as nat + 1, usize::MAX as nat + 1);
    assert(k % 6 == index % 6);
}

/// The benchmark before its first case.
proof fn lemma_bench_opening(course: Course, m: WriteBench, reply: WriteReply)
    requires
        bench_telling(course, Step::Next(m)),
        m.phase is Environment || m.phase is Backup || m.phase is Verify || m.phase is Compare
            || m.phase is Baseline || m.phase is ReportBaselines,
    ensures
        bench_telling(course.push((m.op(), reply)), m.next(reply)),
{
    let after = course.push((m.op(), reply));
    lemma_push(course, m.op(), reply);
    assert(without(after, 0) =~= after);
    assert(after[course.len() as int] == (m.op(), reply));
    match m.phase {
        WriteBenchPhase::Environment => {
            assert(keeps(course) == 0 && reports(course) == 0);
        },
        WriteBenchPhase::Baseline(index) => {
            vstd::arithmetic::div_mod::lemma_small_mod(index as nat + 1, usize::MAX as nat + 1);
        },
        WriteBenchPhase::ReportBaselines => {
            lemma_scheduled(0, 0);
            lemma_case_begins(0);
            assert(since(after) == Course::empty());
        },
        _ => {},
    }
}

/// The benchmark in a case.
proof fn lemma_bench_case(course: Course, m: WriteBench, reply: WriteReply)
    requires
        bench_telling(course, Step::Next(m)),
        m.phase is Case,
        writes(course.push((m.op(), reply))) <= usize::MAX,
    ensures
        bench_telling(course.push((m.op(), reply)), m.next(reply)),
{
    let after = course.push((m.op(), reply));
    let k = keeps(course);
    lemma_push(course, m.op(), reply);
    assert(without(after, 0) =~= after);
    if let WriteBenchPhase::Case(_, _, case) = m.phase {
        lemma_within_case(case);
        lemma_since(after);
        assert(since(after) == since(course).push((m.op(), reply)));
        lemma_case_telling(case_of(k), since(course), case, reply);
        if let Step::Done(end) = case.next(reply) {
            lemma_case_over(case_of(k), since(after), end);
            if let Err(failure) = end {
                lemma_case_failure(case_of(k), since(after), failure);
            }
        }
    }
}

/// The benchmark between cases.
#[verifier::rlimit(40)]
proof fn lemma_bench_between(course: Course, m: WriteBench, reply: WriteReply)
    requires
        bench_telling(course, Step::Next(m)),
        m.phase is Keep || m.phase is Report,
    ensures
        bench_telling(course.push((m.op(), reply)), m.next(reply)),
{
    let after = course.push((m.op(), reply));
    let k = keeps(course);
    lemma_push(course, m.op(), reply);
    assert(without(after, 0) =~= after);
    assert(since(after) == Course::empty());
    assert(after[course.len() as int] == (m.op(), reply));
    lemma_case_begins(k);
    lemma_case_begins(k + 1);
    match m.phase {
        WriteBenchPhase::Keep(_, index, _, _) => {
            vstd::arithmetic::div_mod::lemma_small_mod(index as nat + 1, usize::MAX as nat + 1);
            lemma_scheduled(k, index);
            if index < 29 {
                lemma_scheduled(k + 1, (index + 1) as usize);
            }
        },
        WriteBenchPhase::Report(_) => {
            if k < 90 {
                lemma_scheduled(k, 0);
            }
        },
        _ => {},
    }
}

/// The benchmark after its last case.
proof fn lemma_bench_closing(course: Course, m: WriteBench, reply: WriteReply)
    requires
        bench_telling(course, Step::Next(m)),
        m.phase is Final,
    ensures
        bench_telling(course.push((m.op(), reply)), m.next(reply)),
{
    let after = course.push((m.op(), reply));
    lemma_push(course, m.op(), reply);
    assert(after[course.len() as int] == (m.op(), reply));
    if let WriteBenchPhase::Final(restore, result) = m.phase {
        let base = without(course, taken(restore));
        assert(base.len() == course.len() - taken(restore));
        if let Err(failure) = result {
            if !(failure is ComputeWindow && failure->place is Baseline) {
                lemma_case_failure(case_of(keeps(base)), since(base), failure);
            }
        }
        if restore.phase is Compare && reply.comparison().same {
            assert(in_order(after));
            assert(base == without(after, 3));
        }
    }
}

/// What the benchmark keeps of a case is what the course of the case has shown, and what it
/// ends with is what went wrong, or that all ninety cases have passed and their three
/// workloads were reported. It goes on only on a machine that suits it.
pub proof fn law_benchmark_keeps_what_it_saw(replies: Seq<WriteReply>)
    ensures
        ({
            let done = run(Step::Next(WriteBench::new()), replies);
            writes(done.trace) <= usize::MAX ==> {
                &&& bench_holds(done.trace)
                &&& done.trace.len() >= 2 ==> suits(done.trace[0].1)
                &&& done.at matches Step::Done(end) ==> bench_told(done.trace, end)
            }
        }),
{
    let start = Step::<WriteBench, Result<(), WriteFailure>>::Next(WriteBench::new());
    let inv = |trace: Course, at: Step<WriteBench, Result<(), WriteFailure>>|
        writes(trace) <= usize::MAX ==> bench_telling(trace, at);
    assert forall|trace: Course, m: WriteBench, reply: WriteReply|
        inv(trace, Step::Next(m)) implies #[trigger] inv(
        trace.push((m.op(), reply)),
        m.next(reply),
    ) by {
        lemma_push(trace, m.op(), reply);
        if writes(trace.push((m.op(), reply))) <= usize::MAX {
            match m.phase {
                WriteBenchPhase::Case(..) => lemma_bench_case(trace, m, reply),
                WriteBenchPhase::Keep(..) | WriteBenchPhase::Report(_) => lemma_bench_between(
                    trace,
                    m,
                    reply,
                ),
                WriteBenchPhase::Final(..) => lemma_bench_closing(trace, m, reply),
                _ => lemma_bench_opening(trace, m, reply),
            }
        }
    }
    lemma_run_invariant(start, replies, inv);
}

} // verus!
