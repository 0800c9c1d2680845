//! What the test of the wait for the card reports is what its course has shown.

use crate::bench::busy::{
    busy_chunks, BusyAct, BusyCourse, BusyFindings, BusyPhase, BusyReply, BusyTest, Counters,
};
use crate::bench::read_laws::time_between;
use crate::error::{SdMmcError, SdMmcResult};
use crate::io::{lemma_run_invariant, run, Machine, Step};
use vstd::prelude::*;

verus! {

/// Blocks of a case.
pub open spec fn case_blocks(case: int) -> int {
    if case == 0 {
        1
    } else if case == 1 {
        2
    } else if case == 2 {
        8
    } else if case == 3 {
        32
    } else if case == 4 {
        33
    } else {
        64
    }
}

/// Transfers of a case, each of up to 32 blocks.
pub open spec fn case_chunks(case: int) -> int {
    (case_blocks(case) + 31) / 32
}

/// A counter has gone on by so many.
pub open spec fn went_on(before: usize, after: usize, steps: int) -> bool {
    after == before + steps || after == before + steps - usize::MAX - 1
}

/// Every transfer of a case had its interrupt.
pub open spec fn interrupts_counted(case: int, before: Counters, after: Counters) -> bool {
    &&& went_on(before.generation, after.generation, case_chunks(case))
    &&& after.irq_generation == after.generation
    &&& went_on(before.irq_transfer_count, after.irq_transfer_count, case_chunks(case))
}

/// After every transfer of a case the card was waited for.
pub open spec fn waits_counted(case: int, before: Counters, after: Counters) -> bool {
    went_on(before.busy_sequence, after.busy_sequence, case_chunks(case))
}

/// The course of the case that runs.
pub open spec fn case_part(trace: BusyCourse) -> BusyCourse
    decreases trace.len(),
{
    if trace.len() == 0 {
        Seq::empty()
    } else if trace.last().0 is Fill {
        seq![trace.last()]
    } else {
        case_part(trace.drop_last()).push(trace.last())
    }
}

/// The write of a case by its course: the pattern was made, and clock and counters were read
/// before and after the write.
pub open spec fn write_measured(case: int, part: BusyCourse, found: BusyFindings) -> bool {
    let before = part[2].1.counters();
    let after = part[5].1.counters();
    let blocks = case_blocks(case) as usize;
    &&& part.len() >= 6
    &&& part[0].0 == (BusyAct::Fill { lba: 2_099_200, blocks, tag: (0x60 + case) as u8 })
    &&& part[1].0 is Now
    &&& part[2].0 is Counters
    &&& part[3].0 == (BusyAct::Write { lba: 2_099_200, blocks })
    &&& part[4].0 is Now
    &&& part[5].0 is Counters
    &&& found.elapsed_us == time_between(part[1].1.time(), part[4].1.time()) / 1_000
    &&& found.before == before && found.after == after
    &&& found.write == part[3].1.outcome()
    &&& found.dma_irq_seen == interrupts_counted(case, before, after)
    &&& found.cmd13_per_chunk == waits_counted(case, before, after)
}

/// The write went as it should.
pub open spec fn write_good(found: BusyFindings) -> bool {
    found.write is Ok && found.dma_irq_seen && found.cmd13_per_chunk
}

/// What was found out, and after how many operations: after a good write what was written
/// is read back and compared.
pub open spec fn found_after(case: int, part: BusyCourse, found: BusyFindings, n: int) -> bool {
    let blocks = case_blocks(case) as usize;
    &&& write_measured(case, part, found)
    &&& part.len() >= n
    &&& if !write_good(found) {
        &&& n == 6
        &&& !found.data_ok
        &&& match found.write {
            Err(error) => found.error == Some(error),
            Ok(_) => found.error == Some(SdMmcError::TerminalValidation),
        }
    } else {
        &&& n >= 7
        &&& part[6].0 == (BusyAct::ReadBack { lba: 2_099_200, blocks })
        &&& match part[6].1.outcome() {
            Err(error) => n == 7 && !found.data_ok && found.error == Some(error),
            Ok(_) => {
                &&& n == 8
                &&& part[7].0 == (BusyAct::ComparePattern { blocks })
                &&& found.data_ok == part[7].1.flag()
                &&& found.error == (if found.data_ok {
                    None
                } else {
                    Some(SdMmcError::TerminalValidation)
                })
            },
        }
    }
}

/// How the region was put back in order, by the rest of the course of a case, which begins
/// with the look at the driver.
pub open spec fn restored_as(rest: BusyCourse, restore: SdMmcResult) -> bool {
    &&& rest.len() >= 1
    &&& rest[0].0 is Faulted
    &&& if rest[0].1.flag() {
        rest.len() == 1 && restore == Err::<(), _>(SdMmcError::DriverFaulted)
    } else {
        &&& rest.len() >= 2
        &&& rest[1].0 == (BusyAct::WriteBackup { lba: 2_099_200, blocks: 64 })
        &&& match rest[1].1.outcome() {
            Err(error) => rest.len() == 2 && restore == Err::<(), _>(error),
            Ok(_) => {
                &&& rest.len() >= 3
                &&& rest[2].0 == (BusyAct::ReadRegion { lba: 2_099_200, blocks: 64 })
                &&& match rest[2].1.outcome() {
                    Err(error) => rest.len() == 3 && restore == Err::<(), _>(error),
                    Ok(_) => {
                        &&& rest.len() == 4
                        &&& rest[3].0 is CompareBackup
                        &&& restore == (if rest[3].1.flag() {
                            Ok(())
                        } else {
                            Err(SdMmcError::TerminalValidation)
                        })
                    },
                }
            },
        }
    }
}

/// Operations of a case before its region is put back in order.
pub open spec fn measured_len(part: BusyCourse, found: BusyFindings) -> int {
    if !write_good(found) {
        6
    } else if part[6].1.outcome() is Err {
        7
    } else {
        8
    }
}

/// A report says what the course of its case has shown.
pub open spec fn report_holds(
    case: int,
    part: BusyCourse,
    found: BusyFindings,
    restore: SdMmcResult,
) -> bool {
    let n = measured_len(part, found);
    &&& found_after(case, part, found, n)
    &&& restored_as(part.skip(n), restore)
}

/// Where the test stands, by its course.
spec fn telling(trace: BusyCourse, at: Step<BusyTest, SdMmcResult>) -> bool {
    let part = case_part(trace);
    let n = part.len() as int;
    match at {
        Step::Done(result) => trace.len() > 0 && (trace.last().0 matches BusyAct::Report {
            case,
            findings,
            restore,
        } ==> match restore {
            Err(error) => result == Err::<(), _>(error),
            Ok(_) => match findings.error {
                Some(error) => result == Err::<(), _>(error),
                None => result is Ok && case == 5,
            },
        }),
        Step::Next(m) => {
            let c = m.case as int;
            let blocks = case_blocks(c) as usize;
            let begun = n >= 1 && part[0].0 == (BusyAct::Fill {
                lba: 2_099_200,
                blocks,
                tag: (0x60 + c) as u8,
            });
            &&& m.case < 6
            &&& match m.phase {
                BusyPhase::Capacity => true,
                BusyPhase::Allocate => true,
                BusyPhase::Backup => true,
                BusyPhase::Confirm => true,
                BusyPhase::Compare => true,
                BusyPhase::Fill => true,
                BusyPhase::Start => n == 1 && begun,
                BusyPhase::Before(started) => {
                    &&& n == 2 && begun
                    &&& part[1].0 is Now && part[1].1.time() == started
                },
                BusyPhase::Write(started, before) => {
                    &&& n == 3 && begun
                    &&& part[1].0 is Now && part[1].1.time() == started
                    &&& part[2].0 is Counters && part[2].1.counters() == before
                },
                BusyPhase::End(started, before, write) => {
                    &&& n == 4 && begun
                    &&& part[1].0 is Now && part[1].1.time() == started
                    &&& part[2].0 is Counters && part[2].1.counters() == before
                    &&& part[3].0 == (BusyAct::Write { lba: 2_099_200, blocks })
                    &&& part[3].1.outcome() == write
                },
                BusyPhase::After(elapsed_us, before, write) => {
                    &&& n == 5 && begun
                    &&& part[1].0 is Now
                    &&& part[2].0 is Counters && part[2].1.counters() == before
                    &&& part[3].0 == (BusyAct::Write { lba: 2_099_200, blocks })
                    &&& part[3].1.outcome() == write
                    &&& part[4].0 is Now
                    &&& elapsed_us == time_between(part[1].1.time(), part[4].1.time()) / 1_000
                },
                BusyPhase::ReadBack(found) => {
                    &&& n == 6 && write_measured(c, part, found)
                    &&& write_good(found) && found.error is None && !found.data_ok
                },
                BusyPhase::ComparePattern(found) => {
                    &&& n == 7 && write_measured(c, part, found)
                    &&& write_good(found) && found.error is None && !found.data_ok
                    &&& part[6].0 == (BusyAct::ReadBack { lba: 2_099_200, blocks })
                    &&& part[6].1.outcome() is Ok
                },
                BusyPhase::Faulted(found) => found_after(c, part, found, n),
                BusyPhase::RestoreWrite(found) => {
                    &&& found_after(c, part, found, n - 1)
                    &&& part[n - 1].0 is Faulted && !part[n - 1].1.flag()
                },
                BusyPhase::RestoreRead(found) => {
                    &&& found_after(c, part, found, n - 2)
                    &&& part[n - 2].0 is Faulted && !part[n - 2].1.flag()
                    &&& part[n - 1].0 == (BusyAct::WriteBackup { lba: 2_099_200, blocks: 64 })
                    &&& part[n - 1].1.outcome() is Ok
                },
                BusyPhase::RestoreCompare(found) => {
                    &&& found_after(c, part, found, n - 3)
                    &&& part[n - 3].0 is Faulted && !part[n - 3].1.flag()
                    &&& part[n - 2].0 == (BusyAct::WriteBackup { lba: 2_099_200, blocks: 64 })
                    &&& part[n - 2].1.outcome() is Ok
                    &&& part[n - 1].0 == (BusyAct::ReadRegion { lba: 2_099_200, blocks: 64 })
                    &&& part[n - 1].1.outcome() is Ok
                },
                BusyPhase::Report(found, restore) => report_holds(c, part, found, restore),
            }
        },
    }
}

/// A counter that goes on starts over behind the largest number.
proof fn lemma_went_on(before: usize, after: usize, steps: usize)
    ensures
        (after == before.wrapping_add(steps)) == went_on(before, after, steps as int),
{
    let sum = before as int + steps as int;
    if sum <= usize::MAX {
        vstd::arithmetic::div_mod::lemma_small_mod(sum as nat, usize::MAX as nat + 1);
    } else {
        vstd::arithmetic::div_mod::lemma_small_mod(
            (sum - usize::MAX - 1) as nat,
            usize::MAX as nat + 1,
        );
        vstd::arithmetic::div_mod::lemma_mod_sub_multiples_vanish(sum, usize::MAX as int + 1);
    }
}

proof fn lemma_telling(trace: BusyCourse, m: BusyTest, reply: BusyReply)
    requires
        telling(trace, Step::Next(m)),
    ensures
        telling(trace.push((m.op(), reply)), m.next(reply)),
{
    let after = trace.push((m.op(), reply));
    let part = case_part(after);
    let n = part.len() as int;
    assert(after.drop_last() =~= trace);
    vstd::arithmetic::div_mod::lemma_small_mod(m.case as nat + 1, usize::MAX as nat + 1);
    assert(0x60u8.wrapping_add(m.case as u8) == 0x60 + m.case);
    match m.phase {
        BusyPhase::After(_, before, _) => {
            let chunks = busy_chunks(m.case);
            let after = reply.counters();
            assert(chunks == case_chunks(m.case as int));
            lemma_went_on(before.generation, after.generation, chunks);
            lemma_went_on(before.irq_transfer_count, after.irq_transfer_count, chunks);
            lemma_went_on(before.busy_sequence, after.busy_sequence, chunks);
        },
        BusyPhase::Faulted(found) => {
            assert(part.skip(n - 1) =~= seq![part[n - 1]]);
        },
        BusyPhase::RestoreWrite(found) => {
            assert(part.skip(n - 2) =~= seq![part[n - 2], part[n - 1]]);
        },
        BusyPhase::RestoreRead(found) => {
            assert(part.skip(n - 3) =~= seq![part[n - 3], part[n - 2], part[n - 1]]);
        },
        BusyPhase::RestoreCompare(found) => {
            assert(part.skip(n - 4) =~= seq![
                part[n - 4],
                part[n - 3],
                part[n - 2],
                part[n - 1],
            ]);
        },
        _ => {},
    }
}

/// Every report of the test says what the course of its case has shown: how long the write
/// took, from a clock reading right before the counters and it to one right after it, how
/// it ended, what the counters say of its interrupts and waits, whether the data could be
/// read back, and how the region was put back in order. A test that ends with a report ends
/// with what that says.
pub proof fn law_busy_test_reports_what_it_saw(replies: Seq<BusyReply>)
    ensures
        ({
            let done = run(Step::Next(BusyTest::new()), replies);
            match done.at {
                Step::Next(m) => m.op() matches BusyAct::Report { case, findings, restore }
                    ==> report_holds(case as int, case_part(done.trace), findings, restore),
                Step::Done(result) => done.trace.len() > 0 && (
                done.trace.last().0 matches BusyAct::Report { case, findings, restore }
                    ==> match restore {
                    Err(error) => result == Err::<(), _>(error),
                    Ok(_) => match findings.error {
                        Some(error) => result == Err::<(), _>(error),
                        None => result is Ok && case == 5,
                    },
                }),
            }
        }),
{
    let start = Step::<BusyTest, SdMmcResult>::Next(BusyTest::new());
    let inv = |trace: BusyCourse, at: Step<BusyTest, SdMmcResult>| telling(trace, at);
    assert forall|trace: BusyCourse, m: BusyTest, reply: BusyReply|
        inv(trace, Step::Next(m)) implies #[trigger] inv(
        trace.push((m.op(), reply)),
        m.next(reply),
    ) by {
        lemma_telling(trace, m, reply);
    }
    lemma_run_invariant(start, replies, inv);
}

} // verus!
