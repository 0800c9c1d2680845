//! Which rounds the read benchmark asks for, one after another, and what each of them must
//! read.

use crate::bench::read::{ComputeMode, IoMode, RoundEnd, RoundPlan, TestFailure};
use crate::bench::read_plan::{
    rounds, rounds_before, BenchAct, BenchEvent, BenchPhase, Diagnostic, ReadBench, ReportKind,
};
use crate::io::{lemma_run_invariant, run, Machine, Step};
use vstd::prelude::*;

verus! {

/// A course of operations and replies.
pub type BenchCourse = Seq<(BenchAct, BenchEvent)>;

/// The checksum of a round, counted from 0 on.
pub open spec fn checksum_of(trace: BenchCourse, round: int) -> u64
    decreases trace.len(),
{
    if trace.len() == 0 {
        0
    } else {
        let before = trace.drop_last();
        if trace.last().0 is Round && rounds(before) == round {
            match trace.last().1.round() {
                Ok(end) => end.checksum,
                Err(_) => 0,
            }
        } else {
            checksum_of(before, round)
        }
    }
}

/// Polling and interrupts take turns in coming first.
pub open spec fn turn(round: int, second: int) -> IoMode {
    if (round + second) % 2 == 0 {
        IoMode::Sync
    } else {
        IoMode::Async
    }
}

/// Blocks of a request of a workload, or of a size.
pub open spec fn blocks_by(k: int) -> int {
    if k == 0 {
        1
    } else if k == 1 {
        8
    } else {
        32
    }
}

/// What a round is to be.
pub ghost struct Wanted {
    /// Blocks of a request.
    pub blocks: int,
    /// Blocks of the region.
    pub total: int,
    /// How requests are waited for.
    pub mode: IoMode,
    /// One request of each group of so many is timed.
    pub stride: Option<int>,
    /// The stages of requests are timed.
    pub staged: bool,
    /// What runs beside them.
    pub compute: Option<ComputeMode>,
    /// The round whose data must be read again.
    pub same_as: Option<int>,
}

/// A round in which nothing is timed but all requests together.
pub open spec fn plain(blocks: int, total: int, mode: IoMode, same_as: Option<int>) -> Wanted {
    Wanted { blocks, total, mode, stride: None, staged: false, compute: None, same_as }
}

/// The rounds of the benchmark. First come two looks at a short region with large requests,
/// and five rounds of each way of waiting, block by block. Then come two regions, each with
/// a look and ten rounds of each size of requests, whose stages are timed. Then a long
/// region is read four times, block by block, and each request is timed in the second and
/// third. At last each of three workloads has a look, two short rounds to warm up, and five
/// times six cases, of which one request of sixteen is timed.
pub open spec fn wanted(round: int) -> Wanted {
    if round < 12 {
        plain(
            if round < 2 {
                32
            } else {
                1
            },
            256,
            if round < 7 {
                IoMode::Sync
            } else {
                IoMode::Async
            },
            if round == 0 {
                None
            } else {
                Some(0)
            },
        )
    } else if round < 74 {
        let region = (round - 12) / 31;
        let place = (round - 12) % 31;
        let total = if region == 0 {
            256int
        } else {
            4096
        };
        if place == 0 {
            plain(32, total, IoMode::Sync, None)
        } else {
            let k = (place - 1) % 10;
            Wanted {
                blocks: blocks_by((place - 1) / 10),
                total,
                mode: turn(k / 2, k % 2),
                stride: None,
                staged: true,
                compute: None,
                same_as: Some(12 + 31 * region),
            }
        }
    } else if round < 78 {
        Wanted {
            stride: if round == 75 || round == 76 {
                Some(1)
            } else {
                None
            },
            ..plain(
                1,
                16384,
                IoMode::Sync,
                if round == 74 {
                    None
                } else {
                    Some(74)
                },
            )
        }
    } else {
        let k = (round - 78) / 33;
        let place = (round - 78) % 33;
        let total = if k == 0 {
            4096int
        } else {
            32768
        };
        if place == 0 {
            plain(blocks_by(k), total, IoMode::Sync, None)
        } else if place == 1 {
            plain(blocks_by(k), blocks_by(k) * 64, IoMode::Sync, None)
        } else if place == 2 {
            plain(blocks_by(k), blocks_by(k) * 64, IoMode::Async, Some(round - 1))
        } else {
            let position = (place - 3) % 6;
            Wanted {
                blocks: blocks_by(k),
                total,
                mode: turn((place - 3) / 6, position % 2),
                stride: Some(16),
                staged: false,
                compute: if position < 2 {
                    None
                } else if position < 4 {
                    Some(ComputeMode::NoYield)
                } else {
                    Some(ComputeMode::YieldPerUnit)
                },
                same_as: Some(78 + 33 * k),
            }
        }
    }
}

/// A plan is what is wanted of a round.
pub open spec fn as_wanted(trace: BenchCourse, plan: RoundPlan) -> bool {
    let want = wanted(rounds(trace));
    &&& plan.workload.request_blocks == want.blocks
    &&& plan.workload.total_blocks == want.total
    &&& plan.mode == want.mode
    &&& match want.stride {
        Some(stride) => plan.stride matches Some(given) && given == stride,
        None => plan.stride is None,
    }
    &&& plan.staged == want.staged
    &&& plan.compute == want.compute
    &&& plan.expected == (match want.same_as {
        Some(round) => Some(checksum_of(trace, round)),
        None => None,
    })
}

/// The machine suits the benchmark: it has one processor, the card reaches beyond the longest
/// region, and a transfer buffer of 16 KiB is there.
pub open spec fn suits(reply: BenchEvent) -> bool {
    reply matches BenchEvent::Environment { cpu_count, card_blocks, dma_size } && {
        &&& cpu_count == 1
        &&& card_blocks >= 2_131_968
        &&& dma_size >= 16_384
    }
}

/// Where the benchmark stands, by its course.
spec fn scheduled(trace: BenchCourse, at: Step<ReadBench, Result<(), TestFailure>>) -> bool {
    let n = trace.len() as int;
    &&& n >= 1 ==> trace[0].0 is Environment
    &&& n >= 2 ==> suits(trace[0].1)
    &&& match at {
        Step::Done(Ok(_)) => rounds(trace) == 177,
        Step::Done(Err(failure)) => n >= 1 && (n == 1 && !suits(trace[0].1) || trace[n - 1].0
            is Round && trace[n - 1].1.round() == Err::<RoundEnd, _>(failure)),
        Step::Next(m) => {
            &&& rounds(trace) == rounds_before(m.phase)
            &&& m.phase is Environment ==> n == 0
            &&& !(m.phase is Environment) ==> n >= 1 && suits(trace[0].1)
            &&& m.phase matches BenchPhase::Report(ReportKind::Rounds(Diagnostic::Matrix(k)))
                ==> k < 3
            &&& m.phase matches BenchPhase::Baseline(index) ==> index < 10
            &&& m.phase matches BenchPhase::Rounds(schedule) ==> {
                let base = rounds(trace) - schedule.index;
                let range = schedule.diagnostic == Diagnostic::Range;
                &&& schedule.index < schedule.diagnostic.rounds()
                &&& schedule.diagnostic matches Diagnostic::Matrix(k) ==> k < 3
                &&& schedule.index > 0 ==> schedule.warm == checksum_of(trace, rounds(trace) - 1)
                &&& schedule.index > 0 && !(range && schedule.index > 31) ==> schedule.reference
                    == checksum_of(trace, base)
                &&& range && schedule.index > 31 ==> schedule.reference == checksum_of(
                    trace,
                    base + 31,
                )
            }
        },
    }
}

/// What one more operation makes of the checksums.
proof fn lemma_push(trace: BenchCourse, act: BenchAct, reply: BenchEvent)
    ensures
        ({
            let after = trace.push((act, reply));
            &&& rounds(after) == rounds(trace) + (if act is Round {
                1int
            } else {
                0
            })
            &&& forall|round: int| #[trigger]
                checksum_of(after, round) == (if act is Round && round == rounds(trace) {
                    match reply.round() {
                        Ok(end) => end.checksum,
                        Err(_) => 0,
                    }
                } else {
                    checksum_of(trace, round)
                })
        }),
{
    assert(trace.push((act, reply)).drop_last() =~= trace);
}

proof fn lemma_scheduled(trace: BenchCourse, m: ReadBench, reply: BenchEvent)
    requires
        scheduled(trace, Step::Next(m)),
    ensures
        scheduled(trace.push((m.op(), reply)), m.next(reply)),
{
    let after = trace.push((m.op(), reply));
    lemma_push(trace, m.op(), reply);
    if trace.len() > 0 {
        assert(after[0] == trace[0]);
    } else {
        assert(after[0] == (m.op(), reply));
    }
    assert(after[trace.len() as int] == (m.op(), reply));
}

/// The round that comes next is what is wanted.
proof fn lemma_as_wanted(trace: BenchCourse, m: ReadBench)
    requires
        scheduled(trace, Step::Next(m)),
    ensures
        m.op() matches BenchAct::Round(plan) ==> as_wanted(trace, plan),
{
    if let BenchPhase::Rounds(schedule) = m.phase {
        let index = schedule.index as int;
        let round = rounds(trace);
        match schedule.diagnostic {
            Diagnostic::Range => {
                let place = index % 31;
                assert((round - 12) % 31 == place && (round - 12) / 31 == index / 31);
                if place > 0 {
                    let k = (place - 1) % 10;
                    vstd::arithmetic::div_mod::lemma_small_mod(
                        (place - 1) as nat,
                        usize::MAX as nat + 1,
                    );
                    assert((k / 2 + k % 2) % 2 == 0 <==> ((k / 2) % 2 == 0) != (k % 2 == 1));
                }
            },
            Diagnostic::Matrix(k) => {
                assert((round - 78) / 33 == k && (round - 78) % 33 == index);
                let b = blocks_by(k as int);
                assert(b * 64 == 64 || b * 64 == 512 || b * 64 == 2048);
                vstd::arithmetic::div_mod::lemma_small_mod((b * 64) as nat, usize::MAX as nat + 1);
                if index >= 3 {
                    let place = index - 3;
                    vstd::arithmetic::div_mod::lemma_small_mod(
                        place as nat,
                        usize::MAX as nat + 1,
                    );
                    let second = place % 6 % 2;
                    assert((place / 6 + second) % 2 == 0 <==> ((place / 6) % 2 == 0) != (second
                        == 1));
                }
            },
            _ => {},
        }
    }
}

/// Each round of the benchmark is the one that is wanted, and must read what the look that
/// it is compared with has read. The benchmark goes on only on a machine that suits it, ends
/// with the failure of a round if one fails, and passes after 177 rounds.
pub proof fn law_benchmark_asks_for_its_rounds(replies: Seq<BenchEvent>)
    ensures
        ({
            let done = run(Step::Next(ReadBench::new()), replies);
            let trace = done.trace;
            let n = trace.len() as int;
            &&& n >= 2 ==> trace[0].0 is Environment && suits(trace[0].1)
            &&& match done.at {
                Step::Next(m) => m.op() matches BenchAct::Round(plan) ==> as_wanted(trace, plan),
                Step::Done(Ok(_)) => rounds(trace) == 177,
                Step::Done(Err(failure)) => n == 1 && !suits(trace[0].1) || trace[n - 1].0 is Round
                    && trace[n - 1].1.round() == Err::<RoundEnd, _>(failure),
            }
        }),
{
    let start = Step::<ReadBench, Result<(), TestFailure>>::Next(ReadBench::new());
    let inv = |trace: BenchCourse, at: Step<ReadBench, Result<(), TestFailure>>|
        scheduled(trace, at);
    assert forall|trace: BenchCourse, m: ReadBench, reply: BenchEvent|
        inv(trace, Step::Next(m)) implies #[trigger] inv(
        trace.push((m.op(), reply)),
        m.next(reply),
    ) by {
        lemma_scheduled(trace, m, reply);
    }
    lemma_run_invariant(start, replies, inv);
    let done = run(start, replies);
    if let Step::Next(m) = done.at {
        lemma_as_wanted(done.trace, m);
    }
}

} // verus!
