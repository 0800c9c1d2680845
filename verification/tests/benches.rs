//! The diagnostics against scripted answers.

use sdmmc::bench::busy::{
    async_write_test_command_plan, busy_blocks, busy_chunks, BusyAct, BusyReply, BusyTest, Counters,
};
use sdmmc::bench::cancel::{
    judge_cancellation, report_size, wake_stats, CancelAct, CancelEnd, CancelFailure, CancelReply,
    CancelTest, Mismatch,
};
use sdmmc::bench::compute::{ComputeAct, ComputeEnd, ComputeLoop, ComputeReply};
use sdmmc::bench::data::{
    checksum, compute_work_unit, expected_region_after_requests, fill_pattern, COMPUTE_SEED,
};
use sdmmc::bench::measure::Case;
use sdmmc::bench::probe::{
    check_test_region, judge_error_irq, Aftermath, Csr, ErrorIrqAct, ErrorIrqReply, ErrorIrqSeen,
    ErrorIrqTest, ErrorIrqTrace, Platform, PlatformReading, PlicSlot, Probe, ProbeAct, ProbeReply,
    Refusal, TraceCounts,
};
use sdmmc::bench::read::{
    ComputeMode, ComputeResult, IoMode, ReadAct, ReadEvent, ReadRound, RequestRecord, RoundEnd,
    RoundPlan, TestFailure, WorkloadName,
};
use sdmmc::bench::read_plan::{workload, BenchAct, BenchEvent, Diagnostic, ReadBench, Schedule};
use sdmmc::bench::stage::{DriverStageObservation, StageFault};
use sdmmc::bench::wake::{AsyncObservation, WakeFault};
use sdmmc::bench::write::{
    RestoreStage, WriteAct, WriteCase, WriteFailure, WriteReply, WriteWorkload, TEST_REGION_BYTES,
};
use sdmmc::bench::write_measure::{
    stats, write_throughput_mib_s_milli, WriteAggregate, WriteMeasurements, WriteRun,
};
use sdmmc::bench::write_plan::WriteBench;
use sdmmc::bench::write_seen::{RequestObservation, WriteEvent, WriteFault, WriteRecorder};
use sdmmc::error::SdMmcError;
use sdmmc::io::{Machine, Step};

const START: u32 = 2_099_200;

fn drive<M: Machine>(start: M, mut answer: impl FnMut(M::Act) -> M::Event) -> M::Out {
    let mut machine = start;
    for _ in 0..10_000_000 {
        let reply = answer(machine.request());
        match machine.step(reply) {
            Step::Done(out) => return out,
            Step::Next(next) => machine = next,
        }
    }
    panic!("the machine does not end");
}

fn good_wake() -> AsyncObservation {
    AsyncObservation {
        ready: true,
        generation: 1,
        irq_events: 1,
        entry_to_resume_ns: 5,
        notify_to_resume_ns: 4,
        command_wait_elapsed_ns: 1,
        data_wait_elapsed_ns: 1,
        deadline_fallback: false,
        rintsts_bits: 0x400c,
        idsts_bits: 0x102,
    }
}

fn good_stages() -> DriverStageObservation {
    let mut seen = DriverStageObservation::empty();
    seen.generation = 1;
    seen.api_start_ns = 1;
    seen.prepare_start_ns = 2;
    seen.prepare_end_ns = 3;
    seen.cmd_write_ns = 4;
    seen.submit_end_ns = 5;
    seen.command_seen_ns = 6;
    seen.terminal_seen_ns = 7;
    seen.validation_end_ns = 8;
    seen.cleanup_start_ns = 9;
    seen.cleanup_end_ns = 10;
    seen.api_end_ns = 11;
    seen
}

// A card whose region is read into a buffer.
struct Reader {
    buffer: Vec<u8>,
    time: u64,
    lbas: Vec<u32>,
    records: Vec<RequestRecord>,
    error: Option<(usize, SdMmcError)>,
    wake: AsyncObservation,
    stages: DriverStageObservation,
    spawned: Vec<ComputeMode>,
    stopped: usize,
}

impl Reader {
    fn new() -> Reader {
        Reader {
            buffer: vec![0; 16384 * 512],
            time: 0,
            lbas: Vec::new(),
            records: Vec::new(),
            error: None,
            wake: good_wake(),
            stages: good_stages(),
            spawned: Vec::new(),
            stopped: 0,
        }
    }

    fn answer(&mut self, act: ReadAct) -> ReadEvent {
        match act {
            ReadAct::Clear => {
                self.buffer.fill(0);
                self.lbas.clear();
                ReadEvent::Done
            }
            ReadAct::Spawn(mode) => {
                self.spawned.push(mode);
                ReadEvent::Done
            }
            ReadAct::Now => {
                self.time += 10;
                ReadEvent::Time(self.time)
            }
            ReadAct::StartCompute(_) => ReadEvent::Done,
            ReadAct::Read { lba, offset, len, .. } => {
                if let Some((at, error)) = self.error {
                    if at == self.lbas.len() {
                        return ReadEvent::Outcome(Err(error));
                    }
                }
                self.lbas.push(lba);
                for i in 0..len {
                    self.buffer[offset + i] = (lba as usize * 512 + i) as u8 ^ (lba as u8);
                }
                ReadEvent::Outcome(Ok(()))
            }
            ReadAct::Observe => ReadEvent::Seen(self.wake),
            ReadAct::Stages => ReadEvent::Stages(self.stages),
            ReadAct::Record(record) => {
                self.records.push(record);
                ReadEvent::Done
            }
            ReadAct::StopCompute => {
                self.stopped += 1;
                ReadEvent::Compute(ComputeResult::of(0, 1_000, 5, 1, false))
            }
            ReadAct::Checksum => ReadEvent::Checksum(checksum(&self.buffer[..4096])),
        }
    }
}

fn plan(mode: IoMode) -> RoundPlan {
    RoundPlan {
        workload: workload(1).with_total_blocks(64),
        mode,
        stride: Some(1),
        staged: false,
        compute: None,
        expected: None,
    }
}

#[test]
fn round_reads_the_region_once() {
    for mode in [IoMode::Sync, IoMode::Async] {
        let mut reader = Reader::new();
        let end = drive(ReadRound::new(plan(mode)), |act| reader.answer(act)).unwrap();
        let expected: Vec<u32> = (0..8).map(|i| START + i * 8).collect();
        assert_eq!(reader.lbas, expected);
        assert_eq!(reader.records.len(), 8);
        assert_eq!(end.compute, None);
        assert_eq!(end.checksum, checksum(&reader.buffer[..4096]));
        assert!(matches!(
            reader.records[0],
            RequestRecord::Timed { latency_ns: Some(10), observation } if observation.is_some()
                == matches!(mode, IoMode::Async)
        ));
    }
}

#[test]
fn round_with_computation_stops_it() {
    let mut reader = Reader::new();
    let mut round = plan(IoMode::Sync);
    round.compute = Some(ComputeMode::YieldPerUnit);
    let end = drive(ReadRound::new(round), |act| reader.answer(act)).unwrap();
    assert_eq!(end.compute.unwrap().units, 5);
    reader.error = Some((3, SdMmcError::Hardware));
    let failed = drive(ReadRound::new(round), |act| reader.answer(act)).unwrap_err();
    assert_eq!(
        failed,
        TestFailure::Io { mode: IoMode::Sync, request: 3, error: SdMmcError::Hardware }
    );
    assert_eq!(reader.spawned, [ComputeMode::YieldPerUnit; 2]);
    assert_eq!(reader.stopped, 2);
}

#[test]
fn round_failures_are_told_apart() {
    let mut reader = Reader::new();
    let mut round = plan(IoMode::Sync);
    round.expected = Some(1);
    let failed = drive(ReadRound::new(round), |act| reader.answer(act)).unwrap_err();
    assert!(matches!(
        failed,
        TestFailure::DataMismatch { workload: WorkloadName::Cmd18x8, expected: 1, .. }
    ));
    let mut reader = Reader::new();
    reader.wake.rintsts_bits = 0xc;
    let round = plan(IoMode::Async);
    let failed = drive(ReadRound::new(round), |act| reader.answer(act)).unwrap_err();
    assert!(matches!(
        failed,
        TestFailure::AsyncTerminal { request: 0, reason: WakeFault::TerminalStatus, .. }
    ));
    let mut reader = Reader::new();
    reader.stages.generation = 0;
    let mut round = plan(IoMode::Sync);
    round.staged = true;
    let failed = drive(ReadRound::new(round), |act| reader.answer(act)).unwrap_err();
    assert!(matches!(
        failed,
        TestFailure::StageObservation { fault: StageFault::MissingGeneration, request: 0, .. }
    ));
    let mut reader = Reader::new();
    drive(ReadRound::new(round), |act| reader.answer(act)).unwrap();
    assert!(reader.records.iter().all(|record| matches!(record, RequestRecord::Staged(_))));
}

#[test]
fn read_benchmark_runs_all_its_rounds() {
    let mut rounds: Vec<RoundPlan> = Vec::new();
    let mut baselines = 0;
    let mut reports = 0;
    let result = drive(ReadBench::new(), |act| match act {
        BenchAct::Environment => {
            BenchEvent::Environment { cpu_count: 1, card_blocks: 2_131_968, dma_size: 16384 }
        }
        BenchAct::Round(plan) => {
            rounds.push(plan);
            BenchEvent::Round(Ok(RoundEnd { elapsed_ns: 1, checksum: 7, compute: None }))
        }
        BenchAct::Baseline { .. } => {
            baselines += 1;
            BenchEvent::Done
        }
        BenchAct::Report(_) => {
            reports += 1;
            BenchEvent::Done
        }
    });
    assert_eq!(result, Ok(()));
    assert_eq!(rounds.len(), 177);
    assert_eq!(baselines, 10);
    assert!(reports > 0);
    assert!(rounds
        .iter()
        .all(|plan| START as u64 + plan.workload.total_blocks as u64 <= 2_131_968));
    let compared = rounds.iter().filter(|plan| plan.expected == Some(7)).count();
    assert!(compared > 160);
    // Each case once in each round of the matrix.
    let matrix: Vec<&RoundPlan> =
        rounds.iter().filter(|plan| plan.workload == workload(0)).collect();
    for io_mode in [IoMode::Sync, IoMode::Async] {
        for compute_mode in
            [None, Some(ComputeMode::NoYield), Some(ComputeMode::YieldPerUnit)]
        {
            let runs = matrix
                .iter()
                .filter(|plan| plan.mode == io_mode && plan.compute == compute_mode)
                .count();
            assert!(runs >= 5);
        }
    }
}

#[test]
fn read_benchmark_needs_its_environment() {
    for (cpu_count, card_blocks, dma_size) in
        [(2usize, 2_131_968u64, 16384usize), (1, 2_131_967, 16384), (1, 2_131_968, 16383)]
    {
        let result = drive(ReadBench::new(), |act| match act {
            BenchAct::Environment => BenchEvent::Environment { cpu_count, card_blocks, dma_size },
            _ => panic!("nothing is to be done"),
        });
        assert_eq!(
            result,
            Err(TestFailure::InvalidEnvironment {
                cpu_count,
                card_blocks,
                required_end_lba: 2_131_968,
                dma_ready: dma_size >= 16384,
            })
        );
    }
}

#[test]
fn read_benchmark_stops_at_a_failed_round() {
    let failure = TestFailure::Io { mode: IoMode::Async, request: 1, error: SdMmcError::Hardware };
    let mut rounds = 0;
    let result = drive(ReadBench::new(), |act| match act {
        BenchAct::Environment => {
            BenchEvent::Environment { cpu_count: 1, card_blocks: 2_131_968, dma_size: 16384 }
        }
        BenchAct::Round(_) => {
            rounds += 1;
            if rounds == 9 {
                BenchEvent::Round(Err(failure))
            } else {
                BenchEvent::Round(Ok(RoundEnd { elapsed_ns: 1, checksum: 7, compute: None }))
            }
        }
        _ => BenchEvent::Done,
    });
    assert_eq!(result, Err(failure));
    assert_eq!(rounds, 9);
}

#[test]
fn rounds_of_a_part_compare_with_the_first() {
    let first = Schedule::new(Diagnostic::Legacy);
    assert_eq!(first.current().expected, None);
    let end = RoundEnd { elapsed_ns: 1, checksum: 99, compute: None };
    match first.advance(Ok(end)) {
        Step::Next(second) => assert_eq!(second.current().expected, Some(99)),
        Step::Done(_) => panic!("more rounds are to come"),
    }
}

#[test]
fn computation_ends_at_stop_or_deadline() {
    let mut asked = 0;
    let end: ComputeEnd =
        drive(ComputeLoop::new(ComputeMode::YieldPerUnit, u64::MAX), |act| match act {
            ComputeAct::Stopped => {
                asked += 1;
                ComputeReply::Flag(asked > 2)
            }
            ComputeAct::Now => ComputeReply::Time(5),
            ComputeAct::Yield => ComputeReply::Done,
        });
    let one = compute_work_unit(COMPUTE_SEED, 0);
    assert_eq!(end.units, 2);
    assert_eq!(end.digest, compute_work_unit(one, 1));
    assert!(!end.window_completed);
    let end = drive(ComputeLoop::new(ComputeMode::NoYield, 100), |act| match act {
        ComputeAct::Stopped => ComputeReply::Flag(false),
        ComputeAct::Now => ComputeReply::Time(100),
        ComputeAct::Yield => panic!("this computation does not yield"),
    });
    assert!(end.window_completed);
}

fn good_write(mode: IoMode) -> RequestObservation {
    let mut recorder = WriteRecorder::begin(100);
    recorder = recorder.record(WriteEvent::Started { generation: 1, now: 110 });
    recorder = match mode {
        IoMode::Sync => recorder.record(WriteEvent::SyncTerminal {
            generation: 1,
            now: 150,
            rintsts: 0x400c,
            idsts: 0x101,
        }),
        IoMode::Async => recorder
            .record(WriteEvent::Irq { generation: 1, now: 140, rintsts: 0x400c, idsts: 0x101 })
            .record(WriteEvent::Resume {
                generation: 1,
                now: 150,
                timed_out: false,
                rintsts: 0x400c,
                idsts: 0x101,
            }),
    };
    recorder = recorder.record(WriteEvent::BusyEnd {
        asynchronous: matches!(mode, IoMode::Async),
        started_ns: 160,
        now: 190,
        attempts: 3,
        r1: 0x900,
        success: true,
    });
    recorder.finish(200).seen
}

#[test]
fn writes_are_observed() {
    for mode in [IoMode::Sync, IoMode::Async] {
        let seen = good_write(mode);
        assert_eq!(seen.validate(mode), None);
        let mut torn = seen;
        torn.busy_success = false;
        assert_eq!(torn.validate(mode), Some(WriteFault::InvalidBusyOrApiTimeline));
    }
    let mut unseen = good_write(IoMode::Async);
    unseen.irq_events = 0;
    assert_eq!(unseen.validate(IoMode::Async), Some(WriteFault::AsyncDmaIrqOrWatchdog));
    let mut late = good_write(IoMode::Sync);
    late.dma_terminal_ns = 170;
    assert_eq!(late.validate(IoMode::Sync), Some(WriteFault::SyncDmaTerminalTimeline));
    for fault in [
        WriteFault::InvalidBusyOrApiTimeline,
        WriteFault::AsyncDmaIrqOrWatchdog,
        WriteFault::SyncDmaTerminalTimeline,
    ] {
        assert!(!fault.name().is_empty());
    }
    let idle = WriteRecorder::idle();
    assert_eq!(idle.record(WriteEvent::Started { generation: 1, now: 1 }), idle);
}

#[test]
fn interrupts_of_the_busy_wait_are_left_out() {
    let over = WriteRecorder::begin(1)
        .record(WriteEvent::Started { generation: 1, now: 2 })
        .record(WriteEvent::Resume {
            generation: 1,
            now: 3,
            timed_out: false,
            rintsts: 0,
            idsts: 0,
        });
    let irq = WriteEvent::Irq { generation: 1, now: 4, rintsts: 4, idsts: 0 };
    assert_eq!(over.record(irq), over);
}

#[test]
fn figures_of_writes() {
    let mut measured = WriteMeasurements::new();
    measured.add(IoMode::Async, good_write(IoMode::Async)).unwrap();
    assert_eq!(measured.request_latencies_ns, [100]);
    assert_eq!(measured.api_to_transfer_ns, [10]);
    assert_eq!(measured.dma_transfer_ns, [30]);
    assert_eq!(measured.wait_end_to_busy_ns, [10]);
    assert_eq!(measured.busy_ns, [30]);
    assert_eq!(measured.irq_to_resume_ns, [10]);
    assert_eq!(measured.busy_attempts_total, 3);
    let mut torn = good_write(IoMode::Sync);
    torn.busy_ready = false;
    let fault = measured.add(IoMode::Sync, torn).unwrap_err();
    assert_eq!(fault, WriteFault::InvalidBusyOrApiTimeline);
    assert_eq!(measured.request_latencies_ns.len(), 1);
    let portrait = measured.portrait();
    assert_eq!(portrait.busy_share_permille, 300);
    assert_eq!(portrait.busy_attempts_avg_milli, 3_000);
    let figures = stats(&[10, 20, 60]);
    assert_eq!((figures.mean, figures.min, figures.max), (30, 10, 60));
    assert_eq!(write_throughput_mib_s_milli(1_048_576, 1_000_000_000), 1_000);
    assert_eq!(write_throughput_mib_s_milli(1_048_576, 0), 0);
    let mut aggregate = WriteAggregate::new();
    let run = WriteRun { elapsed_ns: 1_000_000_000, requests: 1, bytes: 1_048_576, compute: None };
    let report = aggregate.add(run, &measured, 0);
    assert_eq!(report.throughput_mib_s_milli, 1_000);
    let summary = aggregate.report_summary(0);
    assert_eq!(summary.aggregate_mib_s_milli, 1_000);
    assert_eq!(summary.throughput.mean, 1_000);
    assert_eq!(summary.portrait, report.portrait);
}

// A card with a region that is written.
struct Writer {
    card: Vec<u8>,
    backup: Vec<u8>,
    pattern: Vec<u8>,
    region: Vec<u8>,
    time: u64,
    tick: u64,
    writes: usize,
    fail_write: Option<usize>,
    lose_write: Option<usize>,
    reads: usize,
    torn_backup: bool,
    torn_restore: bool,
    observation: Option<RequestObservation>,
    window: bool,
    kept: Vec<(WriteWorkload, Case, usize)>,
    saved: bool,
}

impl Writer {
    fn new() -> Writer {
        Writer {
            card: (0..TEST_REGION_BYTES).map(|i| (i * 13) as u8).collect(),
            backup: Vec::new(),
            pattern: vec![0; TEST_REGION_BYTES],
            region: Vec::new(),
            time: 0,
            tick: 400_000_000,
            writes: 0,
            fail_write: None,
            lose_write: None,
            reads: 0,
            torn_backup: false,
            torn_restore: false,
            observation: None,
            window: true,
            kept: Vec::new(),
            saved: false,
        }
    }

    fn compare(&self, expected: &[u8], same: bool) -> WriteReply {
        WriteReply::Compared {
            same: same && self.region == expected,
            expected: checksum(expected),
            actual: checksum(&self.region),
        }
    }

    fn answer(&mut self, act: WriteAct) -> WriteReply {
        match act {
            WriteAct::Environment => WriteReply::Environment {
                cpu_count: 1,
                card_blocks: 2_099_264,
                dma_size: 16384,
                driver_faulted: false,
            },
            WriteAct::ReadBackup { lba, len } => {
                assert_eq!((lba, len), (START, TEST_REGION_BYTES));
                self.backup = self.card.clone();
                WriteReply::Outcome(Ok(()))
            }
            WriteAct::ReadRegion { lba, len } => {
                assert_eq!((lba, len), (START, TEST_REGION_BYTES));
                self.reads += 1;
                self.region = self.card.clone();
                WriteReply::Outcome(Ok(()))
            }
            WriteAct::CompareBackup => {
                let first = !self.saved;
                self.saved = true;
                let torn = if first { self.torn_backup } else { self.torn_restore };
                self.compare(&self.backup.clone(), !torn)
            }
            WriteAct::WriteBackup { lba, len } => {
                assert_eq!((lba, len), (START, TEST_REGION_BYTES));
                self.card = self.backup.clone();
                WriteReply::Outcome(Ok(()))
            }
            WriteAct::FillPattern(seed) => {
                fill_pattern(&mut self.pattern, seed);
                WriteReply::Done
            }
            WriteAct::Spawn(_) | WriteAct::StartCompute(_) => WriteReply::Done,
            WriteAct::Now => {
                self.time += self.tick;
                WriteReply::Time(self.time)
            }
            WriteAct::Write { mode, lba, offset, len } => {
                self.writes += 1;
                assert_eq!(lba as usize, START as usize + offset / 512);
                assert!(offset + len <= TEST_REGION_BYTES);
                if self.fail_write == Some(self.writes) {
                    return WriteReply::Outcome(Err(SdMmcError::DataTimeout));
                }
                if self.lose_write != Some(offset) {
                    let bytes = self.pattern[offset..offset + len].to_vec();
                    self.card[offset..offset + len].copy_from_slice(&bytes);
                }
                if self.observation.is_none() {
                    self.observation = Some(good_write(mode));
                }
                WriteReply::Outcome(Ok(()))
            }
            WriteAct::Observe => WriteReply::Seen(self.observation.take().unwrap()),
            WriteAct::Record(mode, seen) => {
                assert_eq!(seen.validate(mode), None);
                WriteReply::Done
            }
            WriteAct::JoinCompute { .. } => {
                WriteReply::Compute(ComputeResult::of(0, 2_000_000_000, 10, 1, self.window))
            }
            WriteAct::CompareExpected { workload, requests } => {
                let expected = expected_region_after_requests(
                    workload.request_bytes(),
                    workload.requests_per_region(),
                    &self.backup,
                    &self.pattern,
                    requests,
                );
                self.compare(&expected, true)
            }
            WriteAct::Baseline { .. } => {
                WriteReply::Compute(ComputeResult::of(0, 2_000_000_000, 20, 1, self.window))
            }
            WriteAct::Keep { workload, case, run, .. } => {
                self.kept.push((workload, case, run.requests));
                WriteReply::Done
            }
            WriteAct::ReportBaselines | WriteAct::Report(_) => WriteReply::Done,
        }
    }
}

#[test]
fn write_benchmark_puts_the_region_back() {
    let mut writer = Writer::new();
    let before = writer.card.clone();
    let result = drive(WriteBench::new(), |act| writer.answer(act));
    assert_eq!(result, Ok(()));
    assert_eq!(writer.kept.len(), 90);
    assert_eq!(writer.card, before);
}

#[test]
fn failed_write_still_puts_the_region_back() {
    let mut writer = Writer::new();
    writer.fail_write = Some(700);
    let before = writer.card.clone();
    let result = drive(WriteBench::new(), |act| writer.answer(act)).unwrap_err();
    assert!(matches!(result, WriteFailure::Io { error: SdMmcError::DataTimeout, .. }));
    assert_eq!(writer.card, before);
}

#[test]
fn lost_write_is_found() {
    let mut writer = Writer::new();
    writer.lose_write = Some(1024);
    let before = writer.card.clone();
    let result = drive(WriteBench::new(), |act| writer.answer(act)).unwrap_err();
    assert!(matches!(
        result,
        WriteFailure::DataMismatch { workload: WriteWorkload::Cmd24, .. }
    ));
    assert_eq!(writer.card, before);
}

#[test]
fn write_benchmark_failures_are_told_apart() {
    let mut writer = Writer::new();
    writer.torn_backup = true;
    let result = drive(WriteBench::new(), |act| writer.answer(act));
    assert_eq!(result, Err(WriteFailure::BackupMismatch));
    assert_eq!(writer.writes, 0);
    let result = drive(WriteBench::new(), |act| match act {
        WriteAct::Environment => WriteReply::Environment {
            cpu_count: 1,
            card_blocks: 2_099_264,
            dma_size: 16384,
            driver_faulted: true,
        },
        _ => panic!("nothing is to be done"),
    });
    assert!(matches!(result, Err(WriteFailure::InvalidEnvironment { driver_faulted: true, .. })));
    let mut writer = Writer::new();
    let result = drive(WriteBench::new(), |act| match act {
        WriteAct::ReadBackup { .. } => WriteReply::Outcome(Err(SdMmcError::Hardware)),
        other => writer.answer(other),
    });
    assert_eq!(result, Err(WriteFailure::BackupIo(SdMmcError::Hardware)));
    let mut writer = Writer::new();
    writer.torn_restore = true;
    let result = drive(WriteBench::new(), |act| writer.answer(act));
    assert!(matches!(result, Err(WriteFailure::RestoreMismatch { .. })));
    let mut writer = Writer::new();
    let result = drive(WriteBench::new(), |act| match act {
        WriteAct::WriteBackup { .. } => WriteReply::Outcome(Err(SdMmcError::Hardware)),
        other => writer.answer(other),
    });
    assert!(matches!(
        result,
        Err(WriteFailure::RestoreIo { error: SdMmcError::Hardware, .. })
    ));
    let mut writer = Writer::new();
    writer.window = false;
    let result = drive(WriteBench::new(), |act| writer.answer(act));
    assert!(matches!(result, Err(WriteFailure::ComputeWindow { .. })));
    let mut writer = Writer::new();
    let mut torn = good_write(IoMode::Sync);
    torn.busy_success = false;
    writer.observation = Some(torn);
    let result = drive(WriteBench::new(), |act| writer.answer(act));
    assert!(matches!(
        result,
        Err(WriteFailure::Observation {
            reason: WriteFault::InvalidBusyOrApiTimeline,
            request: 0,
            ..
        })
    ));
}

#[test]
fn case_of_writes_fills_the_region() {
    for workload in [WriteWorkload::Cmd24, WriteWorkload::Cmd25x8, WriteWorkload::Cmd25x32] {
        assert_eq!(workload.request_bytes() * workload.requests_per_region(), TEST_REGION_BYTES);
        let mut writer = Writer::new();
        writer.backup = writer.card.clone();
        writer.saved = true;
        let case = Case { io_mode: IoMode::Sync, compute_mode: None };
        let (run, _) =
            drive(WriteCase::new(workload, 0, case), |act| writer.answer(act)).unwrap();
        assert_eq!(run.requests, writer.writes);
        assert_eq!(run.bytes, (run.requests * workload.request_bytes()) as u64);
        assert_eq!(writer.card, writer.backup);
        assert!(!workload.name().is_empty());
    }
    assert_ne!(WriteWorkload::Cmd24.seed(0), WriteWorkload::Cmd24.seed(1));
    assert!(!RestoreStage::Final.name().is_empty());
}

// A card for the test of busy waits.
struct Busy {
    card: Vec<u8>,
    backup: Vec<u8>,
    pattern: Vec<u8>,
    region: Vec<u8>,
    case: usize,
    counters: Counters,
    lost_irq: bool,
    lost_wait: bool,
    lost_data: bool,
    faulted: bool,
    write: Result<(), SdMmcError>,
    reports: usize,
    time: u64,
}

impl Busy {
    fn new() -> Busy {
        Busy {
            card: (0..64 * 512).map(|i| (i * 3) as u8).collect(),
            backup: Vec::new(),
            pattern: Vec::new(),
            region: Vec::new(),
            case: 0,
            counters: Counters {
                generation: usize::MAX,
                irq_generation: usize::MAX,
                irq_transfer_count: 9,
                busy_sequence: 4,
            },
            lost_irq: false,
            lost_wait: false,
            lost_data: false,
            faulted: false,
            write: Ok(()),
            reports: 0,
            time: 0,
        }
    }

    fn answer(&mut self, act: BusyAct) -> BusyReply {
        match act {
            BusyAct::Capacity => BusyReply::Blocks(2_099_264),
            BusyAct::Allocate => BusyReply::Flag(true),
            BusyAct::ReadBackup { lba, blocks } => {
                assert_eq!((lba, blocks), (START, 64));
                self.backup = self.card.clone();
                BusyReply::Outcome(Ok(()))
            }
            BusyAct::ReadRegion { lba, blocks } => {
                assert_eq!((lba, blocks), (START, 64));
                self.region = self.card.clone();
                BusyReply::Outcome(Ok(()))
            }
            BusyAct::CompareBackup => BusyReply::Flag(self.region == self.backup),
            BusyAct::Fill { lba, blocks, tag } => {
                assert_eq!(lba, START);
                self.pattern = vec![tag; blocks * 512];
                BusyReply::Done
            }
            BusyAct::Now => {
                self.time += 2_500;
                BusyReply::Time(self.time)
            }
            BusyAct::Counters => BusyReply::Counters(self.counters),
            BusyAct::Write { lba, blocks } => {
                assert_eq!(lba, START);
                let chunks = busy_chunks(self.case);
                assert_eq!(blocks, busy_blocks(self.case));
                self.counters.generation = self.counters.generation.wrapping_add(chunks);
                self.counters.irq_generation = self.counters.generation;
                if !self.lost_irq {
                    self.counters.irq_transfer_count += chunks;
                }
                if !self.lost_wait {
                    self.counters.busy_sequence += chunks;
                }
                if !self.lost_data {
                    let bytes = self.pattern.clone();
                    self.card[..bytes.len()].copy_from_slice(&bytes);
                }
                BusyReply::Outcome(self.write)
            }
            BusyAct::ReadBack { lba, blocks } => {
                assert_eq!(lba, START);
                self.region = self.card[..blocks * 512].to_vec();
                BusyReply::Outcome(Ok(()))
            }
            BusyAct::ComparePattern { .. } => BusyReply::Flag(self.region == self.pattern),
            BusyAct::Faulted => BusyReply::Flag(self.faulted),
            BusyAct::WriteBackup { lba, blocks } => {
                assert_eq!((lba, blocks), (START, 64));
                self.card = self.backup.clone();
                BusyReply::Outcome(Ok(()))
            }
            BusyAct::Report { case, findings, .. } => {
                assert_eq!(case, self.case);
                assert_eq!(findings.elapsed_us, 2);
                assert_eq!(findings.after, self.counters);
                let chunks = busy_chunks(case);
                let generation = findings.before.generation.wrapping_add(chunks);
                assert_eq!(findings.after.generation, generation);
                self.case += 1;
                self.reports += 1;
                BusyReply::Done
            }
        }
    }
}

#[test]
fn busy_test_passes_and_tidies_up() {
    let mut card = Busy::new();
    let before = card.card.clone();
    assert_eq!(drive(BusyTest::new(), |act| card.answer(act)), Ok(()));
    assert_eq!(card.reports, 6);
    assert_eq!(card.card, before);
}

#[test]
fn busy_test_failures() {
    for (irq, wait, data) in [(true, false, false), (false, true, false), (false, false, true)] {
        let mut card = Busy::new();
        card.lost_irq = irq;
        card.lost_wait = wait;
        card.lost_data = data;
        let before = card.card.clone();
        let result = drive(BusyTest::new(), |act| card.answer(act));
        assert_eq!(result, Err(SdMmcError::TerminalValidation));
        assert_eq!(card.card, before);
        assert_eq!(card.reports, 1);
    }
    let mut card = Busy::new();
    card.write = Err(SdMmcError::CardBusyTimeout);
    let result = drive(BusyTest::new(), |act| card.answer(act));
    assert_eq!(result, Err(SdMmcError::CardBusyTimeout));
    let mut card = Busy::new();
    card.faulted = true;
    let result = drive(BusyTest::new(), |act| card.answer(act));
    assert_eq!(result, Err(SdMmcError::DriverFaulted));
    let mut card = Busy::new();
    let result = drive(BusyTest::new(), |act| match act {
        BusyAct::Capacity => BusyReply::Blocks(2_099_263),
        other => card.answer(other),
    });
    assert_eq!(result, Err(SdMmcError::OutOfRange));
    let result = drive(BusyTest::new(), |act| match act {
        BusyAct::Allocate => BusyReply::Flag(false),
        other => card.answer(other),
    });
    assert_eq!(result, Err(SdMmcError::DmaAllocation));
}

#[test]
fn command_plans() {
    for (blocks, plan) in [
        (1, "CMD24"),
        (2, "CMD25"),
        (32, "CMD25"),
        (33, "CMD25(32)+CMD24(1)"),
        (64, "CMD25(32)+CMD25(32)"),
        (40, "chunked"),
    ] {
        assert_eq!(async_write_test_command_plan(blocks), plan);
    }
}

#[test]
fn probe_completes_every_claim() {
    for pending in [0usize, 1, 3, 8, 20] {
        let mut left = pending;
        let mut completed = Vec::new();
        let mut enabled = true;
        let end = drive(Probe::new(), |act| match act {
            ProbeAct::Cpu => ProbeReply::Number(1),
            ProbeAct::ReadPlic { slot: PlicSlot::ClaimSource(_), offset } => {
                assert_eq!(offset, 0x20_0000 + 4 * 0x1000 + 4);
                assert!(!enabled);
                if left == 0 {
                    ProbeReply::Word(0)
                } else {
                    left -= 1;
                    ProbeReply::Word(75)
                }
            }
            ProbeAct::ReadPlic { .. } | ProbeAct::ReadCsr(_) => ProbeReply::Word(0),
            ProbeAct::Entries => ProbeReply::Number(0),
            ProbeAct::DisableIrqs => {
                enabled = false;
                ProbeReply::Flag(true)
            }
            ProbeAct::Complete { index, .. } => {
                completed.push(index);
                ProbeReply::Done
            }
            ProbeAct::EnableIrqs => {
                enabled = true;
                ProbeReply::Done
            }
            ProbeAct::Fence => ProbeReply::Done,
        });
        let claims = pending.min(8);
        assert_eq!(end.claim_count, claims);
        assert_eq!(completed, (0..claims).collect::<Vec<usize>>());
        assert!(end.attempted && enabled);
        assert_eq!(end.context, 4);
    }
}

#[test]
fn platform_is_read_bit_by_bit() {
    let quiet = PlatformReading {
        pending: false,
        enabled: false,
        sstatus_sie: false,
        sie_seie: false,
        sip_seip: false,
        pending_after: false,
        sip_seip_after: false,
    };
    let mut platform = Platform::blank();
    assert_eq!(platform.reading(), quiet);
    platform.keep_word(PlicSlot::Pending(1), 0x800);
    platform.keep_word(PlicSlot::Pending(5), 0x800);
    platform.keep_word(PlicSlot::Enable(2), !0x800);
    platform.keep_register(Csr::SStatus, !0x2);
    assert_eq!(platform.reading(), quiet);
    platform.keep_word(PlicSlot::Pending(2), 0x800);
    platform.keep_register(Csr::Sip, 0x200);
    assert_eq!(platform.reading(), PlatformReading { pending: true, sip_seip: true, ..quiet });
    platform.keep_word(PlicSlot::Pending(2), 0);
    platform.keep_word(PlicSlot::Enable(2), 0x800);
    platform.keep_word(PlicSlot::PendingAfter, 0x800);
    platform.keep_register(Csr::SStatus, 0x2);
    platform.keep_register(Csr::Sie, 0x200);
    platform.keep_register(Csr::SipAfter, 0x200);
    let reading = platform.reading();
    assert!(!reading.pending && reading.enabled && reading.sstatus_sie && reading.sie_seie);
    assert!(reading.sip_seip && reading.pending_after && reading.sip_seip_after);
    platform.keep_word(PlicSlot::ClaimSource(7), 75);
    platform.keep_word(PlicSlot::ClaimPriority(7), 3);
    platform.keep_register(Csr::SCause, 9);
    platform.keep_word(PlicSlot::Priority, 4);
    platform.keep_word(PlicSlot::Threshold, 5);
    assert_eq!((platform.source(7), platform.source(6), platform.source(8)), (75, 0, 0));
    assert_eq!((platform.priorities[7], platform.scause), (3, 9));
    assert_eq!((platform.priority, platform.threshold), (4, 5));
}

#[test]
fn probe_leaves_a_handled_interrupt_alone() {
    let end = drive(Probe::new(), |act| match act {
        ProbeAct::Entries => ProbeReply::Number(1),
        ProbeAct::Cpu => ProbeReply::Number(0),
        ProbeAct::DisableIrqs => panic!("nothing is claimed"),
        _ => ProbeReply::Word(0),
    });
    assert!(!end.attempted);
    assert_eq!(end.claim_count, 0);
}

#[test]
fn handler_entries_are_traced() {
    let mut trace = ErrorIrqTrace::new();
    for i in 0..10u32 {
        let ordinal = trace.begin_error_irq_handler_entry();
        trace.record_error_irq_initial_status(ordinal, 3, i, 0, 0, i % 2 == 0);
        if i % 2 == 0 {
            trace.record_error_irq_notify(ordinal, true);
        }
    }
    let counts = trace.error_irq_trace_counts();
    assert_eq!(counts.entries, 10);
    assert_eq!((counts.should_notify, counts.notified, counts.woken), (5, 5, 5));
    assert_eq!(counts.dropped(), 2);
    assert!(!counts.complete());
    let last = trace.error_irq_trace_snapshot(7).unwrap();
    assert_eq!((last.rintsts, last.generation, last.should_notify), (7, 3, false));
    assert_eq!(trace.error_irq_trace_snapshot(8), None);
}

fn good_error() -> ErrorIrqSeen {
    ErrorIrqSeen {
        ready: true,
        entry_to_resume_ns: 3,
        notify_to_resume_ns: 2,
        rintsts: 0x202,
        idsts: 0x0,
        intmask: 0xdfca,
        idinten: 0x3ff,
        ctrl: 0x0200_0010,
        counts: TraceCounts { entries: 1, should_notify: 1, notified: 1, woken: 1 },
    }
}

const AFTER: Aftermath =
    Aftermath { faulted: true, reset_failed: false, bmod: 0, ctrl: 0, intmask: 0, idinten: 0 };

#[test]
fn error_interrupt_test() {
    let refused = Err(SdMmcError::DriverFaulted);
    let mut time = 0;
    let mut reads = 0;
    let end = drive(ErrorIrqTest::new(), |act| match act {
        ErrorIrqAct::Card => ErrorIrqReply::Card { num_blocks: 3_000_000, dma_size: 16384 },
        ErrorIrqAct::Now => {
            time += 10;
            ErrorIrqReply::Time(time)
        }
        ErrorIrqAct::ReadBeyond(lba) => {
            assert_eq!(lba, 3_000_000);
            reads += 1;
            ErrorIrqReply::Outcome(Err(SdMmcError::Hardware))
        }
        ErrorIrqAct::Collect => ErrorIrqReply::Seen(good_error()),
        ErrorIrqAct::NextRead => ErrorIrqReply::Outcome(refused),
        ErrorIrqAct::Aftermath => ErrorIrqReply::Aftermath(AFTER),
    })
    .unwrap();
    assert!(end.passed);
    assert_eq!((end.elapsed_ns, reads), (10, 1));
    assert_eq!(end.result, Err(SdMmcError::Hardware));
    assert!(!judge_error_irq(Ok(()), good_error(), refused, AFTER));
    assert!(!judge_error_irq(end.result, good_error(), Ok(()), AFTER));
    let mut quiet = good_error();
    quiet.ready = false;
    assert!(!judge_error_irq(end.result, quiet, refused, AFTER));
    let mut running = AFTER;
    running.ctrl = 0x0200_0000;
    assert!(!judge_error_irq(end.result, good_error(), refused, running));
}

#[test]
fn unfit_cards_are_refused() {
    assert_eq!(check_test_region(2_099_455, 16384), Some(Refusal::Region));
    assert_eq!(check_test_region(2_099_456, 16383), Some(Refusal::DmaBuffer));
    assert_eq!(check_test_region(2_099_456, 16384), None);
    let result = drive(ErrorIrqTest::new(), |act| match act {
        ErrorIrqAct::Card => ErrorIrqReply::Card { num_blocks: 1 << 32, dma_size: 16384 },
        _ => panic!("nothing is to be done"),
    });
    assert_eq!(result.unwrap_err(), Refusal::Capacity);
}

struct Cancel {
    time: u64,
    rounds: usize,
    slow: bool,
    mismatch: Option<usize>,
    reports: usize,
    mode: IoMode,
}

impl Cancel {
    fn answer(&mut self, act: CancelAct) -> CancelReply {
        match act {
            CancelAct::Card => CancelReply::Card { num_blocks: 2_099_456, dma_size: 16384 },
            CancelAct::Now => CancelReply::Time(self.time),
            CancelAct::Read { mode, lba, offset, len } => {
                assert_eq!(lba as usize, START as usize + offset / 512);
                assert!(offset + len <= 256 * 512);
                self.mode = mode;
                let slow = self.slow && matches!(mode, IoMode::Async);
                self.time += if slow { 2_000 } else { 1_000 } * len as u64;
                CancelReply::Outcome(Ok(()))
            }
            CancelAct::Observe => CancelReply::Seen(good_wake()),
            CancelAct::Compare => {
                self.rounds += 1;
                CancelReply::Compared(if self.mismatch == Some(self.rounds) {
                    Some(Mismatch { offset: 9, expected: 1, actual: 2 })
                } else {
                    None
                })
            }
            CancelAct::Report(_) => {
                self.reports += 1;
                CancelReply::Done
            }
            CancelAct::CancelRead { lba, blocks } => {
                assert_eq!((lba, blocks), (START, 32));
                CancelReply::Pending(true)
            }
            CancelAct::Aftermath => CancelReply::Aftermath(AFTER),
            CancelAct::NextRead { lba } => {
                assert_eq!(lba, START);
                CancelReply::Outcome(Err(SdMmcError::DriverFaulted))
            }
            CancelAct::Clear | CancelAct::Record(_) | CancelAct::Save => CancelReply::Done,
        }
    }
}

fn run_cancel(slow: bool, mismatch: Option<usize>) -> (Result<CancelEnd, CancelFailure>, usize) {
    let mut card =
        Cancel { time: 0, rounds: 0, slow, mismatch, reports: 0, mode: IoMode::Sync };
    let result = drive(CancelTest::new(), |act| card.answer(act));
    (result, card.rounds)
}

#[test]
fn cancel_test() {
    let (result, rounds) = run_cancel(false, None);
    let end = result.unwrap();
    assert!(end.throughput_consistent && end.cancellation_ok);
    assert_eq!(rounds, 31);
    let (result, _) = run_cancel(true, None);
    assert!(!result.unwrap().throughput_consistent);
    let (result, rounds) = run_cancel(false, Some(5));
    assert_eq!(rounds, 5);
    assert_eq!(
        result.unwrap_err(),
        CancelFailure::Data {
            round: Some(IoMode::Sync),
            request_blocks: 1,
            mismatch: Mismatch { offset: 9, expected: 1, actual: 2 },
        }
    );
}

#[test]
fn cancel_test_reads_the_region_in_every_round() {
    let mut card =
        Cancel { time: 0, rounds: 0, slow: false, mismatch: None, reports: 0, mode: IoMode::Sync };
    let mut rounds: Vec<Vec<(IoMode, u32, usize)>> = Vec::new();
    let (mut slept, mut observed, mut recorded) = (0, 0, 0);
    let mut blocks = Vec::new();
    let end = drive(CancelTest::new(), |act| {
        match act {
            CancelAct::Clear => rounds.push(Vec::new()),
            CancelAct::Read { mode, lba, len, .. } => {
                slept += usize::from(matches!(mode, IoMode::Async));
                rounds.last_mut().unwrap().push((mode, lba, len));
            }
            CancelAct::Observe => observed += 1,
            CancelAct::Record(_) => recorded += 1,
            CancelAct::Report(report) => blocks.push(report.request_blocks),
            _ => {}
        }
        card.answer(act)
    })
    .unwrap();
    assert_eq!(rounds.len(), 32);
    for (round, reads) in rounds.iter().enumerate() {
        let (size, mode) = match round {
            0 | 1 => (32, IoMode::Sync),
            _ => {
                let mode = if (round - 2) % 10 < 5 { IoMode::Sync } else { IoMode::Async };
                ([1usize, 4, 32][(round - 2) / 10], mode)
            }
        };
        let expected: Vec<_> =
            (0..256 / size).map(|i| (mode, START + (i * size) as u32, size * 512)).collect();
        assert_eq!(*reads, expected);
    }
    assert_eq!(slept, 5 * (256 + 64 + 8));
    assert_eq!((observed, recorded), (slept, slept));
    assert_eq!(blocks, [1, 4, 32]);
    assert!(end.throughput_consistent && end.cancellation_ok);
    // A multiple-block read whose automatic stop was not seen does not count.
    let mut card =
        Cancel { time: 0, rounds: 0, slow: false, mismatch: None, reports: 0, mode: IoMode::Sync };
    let mut single = good_wake();
    single.rintsts_bits &= !0x4000;
    let result = drive(CancelTest::new(), |act| match act {
        CancelAct::Observe => CancelReply::Seen(single),
        other => card.answer(other),
    });
    assert_eq!(
        result.unwrap_err(),
        CancelFailure::Terminal { request_blocks: 4, request: 0, seen: single }
    );
}

#[test]
fn cancel_test_failures() {
    let base = || Cancel {
        time: 0,
        rounds: 0,
        slow: false,
        mismatch: None,
        reports: 0,
        mode: IoMode::Sync,
    };
    let mut card = base();
    let result = drive(CancelTest::new(), |act| match act {
        CancelAct::CancelRead { .. } => CancelReply::Pending(false),
        other => card.answer(other),
    });
    assert_eq!(result.unwrap_err(), CancelFailure::NotPending);
    let mut card = base();
    let result = drive(CancelTest::new(), |act| match act {
        CancelAct::Card => CancelReply::Card { num_blocks: 1, dma_size: 16384 },
        other => card.answer(other),
    });
    assert_eq!(result.unwrap_err(), CancelFailure::Refused(Refusal::Region));
    let mut card = base();
    let result = drive(CancelTest::new(), |act| match act {
        CancelAct::Read { .. } => CancelReply::Outcome(Err(SdMmcError::Hardware)),
        other => card.answer(other),
    });
    assert_eq!(
        result.unwrap_err(),
        CancelFailure::Read {
            mode: IoMode::Sync,
            request_blocks: 32,
            request: 0,
            error: SdMmcError::Hardware,
        }
    );
    let mut card = base();
    let mut seen = good_wake();
    seen.ready = false;
    let result = drive(CancelTest::new(), |act| match act {
        CancelAct::Observe => CancelReply::Seen(seen),
        other => card.answer(other),
    });
    assert!(matches!(result.unwrap_err(), CancelFailure::Terminal { request: 0, .. }));
}

#[test]
fn cancellation_verdict() {
    let refused = Err(SdMmcError::DriverFaulted);
    assert!(judge_cancellation(AFTER, refused));
    assert!(!judge_cancellation(AFTER, Ok(())));
    let mut masked = AFTER;
    masked.intmask = 8;
    assert!(!judge_cancellation(masked, refused));
    let report = report_size(8, 1_000_000, 1_000_000);
    assert_eq!(report.async_vs_sync_milli, 1_000);
    assert!(report.consistent);
    assert!(!report_size(8, 1_000_000, 2_000_000).consistent);
    let figures = wake_stats(&[30, 10, 20]);
    assert_eq!(figures.min, 10);
    assert_eq!((figures.latency.average, figures.latency.max), (20, 30));
}
