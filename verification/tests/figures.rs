//! Test data, statistics and records of the diagnostics.

use sdmmc::bench::data::{
    checksum, compute_work_unit, expected_region_after_requests, fill_async_write_test_pattern,
    fill_pattern, first_mismatch, same_bytes, should_sample_latency, update_checksum, COMPUTE_SEED,
};
use sdmmc::bench::measure::{Case, CaseAggregate, IoMeasurements};
use sdmmc::bench::range::{
    classify, find_range_snapshot, is_complete, report_range_stage_comparisons, Classification,
    RangeScope, RangeStageSnapshot, RangeStageSummary, RequestSize,
};
use sdmmc::bench::read::{ComputeMode, ComputeResult, IoMode, RoundEnd};
use sdmmc::bench::read_plan::workload;
use sdmmc::bench::stage::{
    DriverStageObservation, Stage, StageAggregate, StageDurations, StageEvent, StageFault,
    StageRecorder, StageSample,
};
use sdmmc::bench::stats::{
    average_milli, count_below, integer_sqrt, latency_report, mean, percentile,
    rate_per_second_milli, ratio_permille, retention_permille, scalar_stats, sort, sum_u64,
    throughput_mib_s_milli, variance_fits,
};
use sdmmc::bench::sustained::{slow_samples, SustainedResults};
use sdmmc::bench::wake::{AsyncObservation, WakeEvent, WakeFault, WakeRecorder};

#[test]
fn checksums() {
    assert_eq!(checksum(b""), 0xcbf2_9ce4_8422_2325);
    assert_eq!(checksum(b"abc"), 0xe71f_a219_0541_574b);
    assert_eq!(update_checksum(checksum(b"a"), b"bc"), checksum(b"abc"));
}

#[test]
fn units_of_computation() {
    let first = compute_work_unit(COMPUTE_SEED, 0);
    assert_eq!(first, 0x42c6_6463_74cb_cf0a);
    assert_eq!(compute_work_unit(first, 1), 0x3deb_b082_fab5_2ad0);
}

#[test]
fn one_sample_of_each_group() {
    let sampled: Vec<usize> = (0..64).filter(|&i| should_sample_latency(i, 16)).collect();
    assert_eq!(sampled, [0, 30, 45, 60]);
    assert!((0..10).all(|i| should_sample_latency(i, 1)));
    assert!((0..10).all(|i| should_sample_latency(i, 0)));
}

#[test]
fn patterns() {
    let mut data = vec![0u8; 1024];
    fill_pattern(&mut data, 0x5eed);
    assert_eq!(data[..8], [0x05, 0xd8, 0xcd, 0x94, 0xb5, 0x7f, 0x7d, 0x86]);
    assert_eq!(data[512..520], [0x91, 0x72, 0xce, 0x6b, 0xb7, 0x77, 0x81, 0xfb]);
    assert_eq!(checksum(&data), 0xc1a6_e503_87e9_4147);
    fill_async_write_test_pattern(&mut data, 0x0102_0304, 7);
    assert_eq!(data[..6], [11, 39, 67, 95, 127, 155]);
    assert_eq!(data[512..516], [12, 39, 67, 95]);
    assert_eq!(data[511], 235);
    assert_eq!(checksum(&data), 0x8bcd_d4af_a299_5725);
    let mut short = vec![9u8; 600];
    fill_pattern(&mut short, 0x5eed);
    assert_eq!(short[512..], [9u8; 88]);
}

#[test]
fn comparisons_of_bytes() {
    assert_eq!(first_mismatch(&[1, 2, 3], &[1, 2, 3]), None);
    assert_eq!(first_mismatch(&[1, 9, 3], &[1, 2, 4]), Some((1, 2, 9)));
    assert!(same_bytes(&[1, 2], &[1, 2]));
    assert!(!same_bytes(&[1, 2], &[1, 2, 3]));
    let backup = vec![0u8; 8];
    let pattern = vec![1u8; 8];
    assert_eq!(expected_region_after_requests(2, 4, &backup, &pattern, 0), backup);
    assert_eq!(
        expected_region_after_requests(2, 4, &backup, &pattern, 3),
        [1, 1, 1, 1, 1, 1, 0, 0]
    );
    assert_eq!(expected_region_after_requests(2, 4, &backup, &pattern, 99), pattern);
}

#[test]
fn statistics() {
    assert_eq!(mean(&[]), 0);
    assert_eq!(mean(&[u64::MAX, u64::MAX]), u64::MAX);
    assert_eq!(mean(&[1, 2, 4]), 2);
    assert_eq!(sort(&[3, 1, 2, 3]), [1, 2, 3, 3]);
    let hundred: Vec<u64> = (1..=100).collect();
    assert_eq!(percentile(&hundred, 50), 50);
    assert_eq!(percentile(&hundred, 99), 99);
    assert_eq!(percentile(&[7], 0), 7);
    assert_eq!(percentile(&[10, 20, 30], 50), 20);
    assert_eq!(percentile(&[10, 20, 30], 95), 30);
    assert_eq!(count_below(&[5, 1, 3], 4), 2);
    assert_eq!(count_below(&[5, 1, 3], 0), 0);
    let report = latency_report(&[40, 10, 30, 20]);
    assert_eq!(report.average, 25);
    assert_eq!((report.p50, report.p95, report.p99, report.max), (20, 40, 40, 40));
    let empty = latency_report(&[]);
    assert_eq!((empty.average, empty.max), (0, 0));
    let spread = scalar_stats(&[2, 4, 4, 4, 5, 5, 7, 9]);
    assert_eq!((spread.mean, spread.min, spread.max, spread.stddev), (5, 2, 9, 2));
    assert!(variance_fits(&[0, u64::MAX]));
    assert!(!variance_fits(&[0, 0, 0, 0, 0, 0, u64::MAX, u64::MAX, u64::MAX, u64::MAX, u64::MAX]));
    for value in [0u128, 1, 2, 3, 4, 15, 16, 17, 1 << 100] {
        let root = integer_sqrt(value);
        assert!(root * root <= value && value < (root + 1) * (root + 1));
    }
    assert_eq!(integer_sqrt(u128::MAX), u64::MAX as u128);
}

#[test]
fn rates_and_ratios() {
    assert_eq!(rate_per_second_milli(3, 2_000_000_000), 1_500);
    assert_eq!(rate_per_second_milli(1, 0), 1_000_000_000_000);
    assert_eq!(throughput_mib_s_milli(10 * 1024 * 1024, 1_000_000_000), 10_000);
    assert_eq!(throughput_mib_s_milli(512, 100_000), 4_882);
    assert_eq!(ratio_permille(1, 3), 333);
    assert_eq!(ratio_permille(5, 0), 5_000);
    assert_eq!(retention_permille(900, 1_000), 900);
    assert_eq!(retention_permille(900, 0), 0);
    assert_eq!(average_milli(10, 4), 2_500);
    assert_eq!(average_milli(10, 0), 0);
    assert_eq!(sum_u64(&[1, 2, 3]), 6);
    assert_eq!(sum_u64(&[u64::MAX, 1]), u64::MAX);
}

fn full_observation() -> DriverStageObservation {
    let mut recorder = StageRecorder::begin(100);
    for event in [
        StageEvent::Reached { stage: Stage::PrepareStart, now: 110 },
        StageEvent::Reached { stage: Stage::PrepareEnd, now: 130 },
        StageEvent::Generation(7),
        StageEvent::ReachedBy { stage: Stage::CmdWrite, generation: 7, now: 140 },
        StageEvent::ReachedBy { stage: Stage::SubmitEnd, generation: 7, now: 150 },
        StageEvent::Irq { generation: 7, now: 160, rintsts: 0x4, idsts: 0 },
        StageEvent::ReachedBy { stage: Stage::CommandSeen, generation: 7, now: 170 },
        StageEvent::Irq { generation: 6, now: 175, rintsts: 0x4008, idsts: 0x2 },
        StageEvent::Irq { generation: 7, now: 180, rintsts: 0x8, idsts: 0x2 },
        StageEvent::Irq { generation: 7, now: 190, rintsts: 0x4008, idsts: 0x2 },
        StageEvent::ReachedBy { stage: Stage::TerminalSeen, generation: 7, now: 200 },
        StageEvent::ReachedBy { stage: Stage::ValidationEnd, generation: 7, now: 230 },
        StageEvent::ReachedBy { stage: Stage::CleanupStart, generation: 7, now: 235 },
        StageEvent::ReachedBy { stage: Stage::CleanupEnd, generation: 7, now: 250 },
    ] {
        recorder = recorder.record(event);
    }
    recorder = recorder.finish(300);
    let irq = StageEvent::Irq { generation: 7, now: 310, rintsts: 0x80, idsts: 0 };
    let late = recorder.record(irq);
    assert_eq!(late, recorder);
    recorder.seen
}

#[test]
fn stages_of_a_call() {
    let seen = full_observation();
    assert_eq!(seen.first_irq_ns, 160);
    assert_eq!(seen.irq_command_ns, 160);
    assert_eq!(seen.irq_data_done_ns, 180);
    assert_eq!(seen.irq_acd_ns, 190);
    assert_eq!((seen.irq_rintsts_bits, seen.irq_idsts_bits), (0x400c, 0x2));
    let durations = StageDurations::from_observation(seen, 8).unwrap();
    assert_eq!(durations.api_total_ns, 200);
    assert_eq!(durations.prepare_ns, 20);
    assert_eq!(durations.command_to_terminal_ns, 60);
    assert_eq!(durations.software_ns, 10 + 20 + 10 + 30 + 5 + 15 + 50);
    assert_eq!(durations.irq_to_terminal_ns, 10);
    assert_eq!(durations.data_irq_to_acd_ns, 10);
    assert_eq!(StageDurations::from_observation(seen, 1).unwrap().irq_to_terminal_ns, 20);
}

#[test]
fn faulty_stages_are_told_apart() {
    let mut seen = full_observation();
    seen.generation = 0;
    let missing = StageDurations::from_observation(seen, 1).unwrap_err();
    assert_eq!(missing, StageFault::MissingGeneration);
    let mut seen = full_observation();
    seen.cleanup_start_ns = 0;
    let missing = StageDurations::from_observation(seen, 1).unwrap_err();
    assert_eq!(missing, StageFault::MissingStageTimestamp);
    let mut seen = full_observation();
    seen.cmd_write_ns = 1000;
    let disordered = StageDurations::from_observation(seen, 1).unwrap_err();
    assert_eq!(disordered, StageFault::StageTimestampOrder);
    assert_eq!(StageFault::MissingGeneration.name(), "missing_generation");
    assert_eq!(StageFault::MissingStageTimestamp.name(), "missing_stage_timestamp");
    assert_eq!(StageFault::StageTimestampOrder.name(), "stage_timestamp_order");
    let idle = StageRecorder::idle();
    assert_eq!(idle.record(StageEvent::Generation(3)), idle);
}

fn stage_sample(request: usize, lba: u32) -> StageSample {
    let seen = full_observation();
    StageSample {
        request,
        lba,
        durations: StageDurations::from_observation(seen, 8).unwrap(),
        irq_rintsts_bits: seen.irq_rintsts_bits,
        irq_idsts_bits: seen.irq_idsts_bits,
    }
}

#[test]
fn stage_totals() {
    let mut slow = stage_sample(1, 2_000);
    slow.durations.api_total_ns = 600;
    let mut first = StageAggregate::empty();
    first.add(stage_sample(0, 1_000));
    let mut second = StageAggregate::empty();
    second.add(slow);
    let mut all = StageAggregate::empty();
    all.merge(&first);
    all.merge(&second);
    let mut single = StageAggregate::empty();
    single.add(stage_sample(0, 1_000));
    single.add(slow);
    assert_eq!(all, single);
    assert_eq!(all.requests, 2);
    assert_eq!(all.average(all.api_total_ns), 400);
    assert_eq!(all.irq_to_terminal_average(), 10);
    assert_eq!(all.data_irq_to_acd_average(), 10);
    assert_eq!((all.slowest_api_ns, all.slowest_request, all.slowest_lba), (600, 1, 2_000));
    assert_eq!(StageAggregate::empty().average(5), 5);
}

fn woken() -> AsyncObservation {
    let mut recorder = WakeRecorder::idle();
    for event in [
        WakeEvent::Enable(true),
        WakeEvent::Begin(3),
        WakeEvent::Irq { generation: 2, entry_ns: 40, notify_ns: 45 },
        WakeEvent::Irq { generation: 3, entry_ns: 50, notify_ns: 60 },
        WakeEvent::CommandWait { generation: 3, timed_out: false, elapsed_ns: 20 },
        WakeEvent::Resume {
            generation: 3,
            now: 100,
            timed_out: false,
            elapsed_ns: 70,
            rintsts: 0x400c,
            idsts: 0x102,
        },
        WakeEvent::Irq { generation: 3, entry_ns: 110, notify_ns: 120 },
    ] {
        recorder = recorder.record(event);
    }
    recorder.seen
}

#[test]
fn wake_ups_are_observed() {
    let seen = woken();
    assert!(seen.ready);
    assert_eq!(seen.generation, 3);
    assert_eq!(seen.irq_events, 1);
    assert_eq!((seen.entry_to_resume_ns, seen.notify_to_resume_ns), (50, 40));
    assert_eq!((seen.command_wait_elapsed_ns, seen.data_wait_elapsed_ns), (20, 70));
    assert!(!seen.deadline_fallback);
    assert_eq!(seen.validate(8), None);
    let mut single = seen;
    single.rintsts_bits = 0xc;
    assert_eq!(single.validate(8), Some(WakeFault::TerminalStatus));
    assert_eq!(single.validate(1), None);
    let mut late = seen;
    late.deadline_fallback = true;
    assert_eq!(late.validate(8), Some(WakeFault::DeadlineFallback));
    let mut blind = seen;
    blind.notify_to_resume_ns = 0;
    assert_eq!(blind.validate(8), Some(WakeFault::MissingIrqLatency));
    assert_eq!(WakeFault::TerminalStatus.name(), "terminal_status");
    assert_eq!(WakeFault::DeadlineFallback.name(), "deadline_fallback");
    assert_eq!(WakeFault::MissingIrqLatency.name(), "missing_irq_latency");
}

#[test]
fn long_wait_without_interrupt_is_a_fallback() {
    let started = WakeRecorder::idle().record(WakeEvent::Enable(true)).record(WakeEvent::Begin(1));
    let waited = |elapsed_ns: u64| {
        started
            .record(WakeEvent::CommandWait { generation: 1, timed_out: false, elapsed_ns })
            .seen
            .deadline_fallback
    };
    assert!(!waited(1_499_999_999));
    assert!(waited(1_500_000_000));
}

#[test]
fn figures_of_a_case() {
    let mut measured = IoMeasurements::new();
    let mut quiet = woken();
    quiet.irq_events = 0;
    measured.record(Some(30), Some(woken()));
    measured.record(None, Some(quiet));
    assert_eq!(measured.irq_completions, 1);
    assert_eq!(measured.fast_path_completions, 1);
    assert_eq!(measured.request_latencies_ns, [30]);
    assert_eq!(measured.irq_entry_latencies_ns, [50]);
    assert_eq!(measured.irq_notify_latencies_ns, [40]);
    let compute = ComputeResult::of(0, 1_000_000_000, 500, 1, false);
    assert_eq!(compute.work_per_s_milli, 500_000);
    let end = RoundEnd { elapsed_ns: 1_000_000_000, checksum: 0, compute: Some(compute) };
    let mut aggregate = CaseAggregate::new();
    let report = aggregate.add(workload(1), end, &measured, 1_000_000);
    let bytes = workload(1).total_bytes() as u64;
    assert_eq!(report.throughput_mib_s_milli, bytes * 1_000 / 1_048_576);
    assert_eq!(report.request_iops_milli, workload(1).request_count() as u64 * 1_000);
    assert_eq!(report.work_per_s_milli, 500_000);
    assert_eq!(report.baseline_retained_permille, 500);
    assert_eq!(report.request.max, 30);
    let summary = aggregate.report_summary(1_000_000);
    assert_eq!(summary.throughput.mean, report.throughput_mib_s_milli);
    assert_eq!(summary.work.stddev, 0);
    assert_eq!(summary.baseline_retained_permille, 500);
    assert_eq!(summary.entry.p50, 50);
    let case = Case { io_mode: IoMode::Async, compute_mode: Some(ComputeMode::YieldPerUnit) };
    assert!(!case.name().is_empty());
}

#[test]
fn range_figures() {
    let mut summary = RangeStageSummary::new(RangeScope::Short, RequestSize::Eight, IoMode::Sync);
    let mut stages = StageAggregate::empty();
    stages.add(stage_sample(0, 1_000));
    for _ in 0..5 {
        summary.add_round(1_000_000_000, &stages);
    }
    let snapshot = summary.snapshot();
    // 256 blocks in a second.
    assert_eq!(snapshot.throughput_mib_s_milli, 125);
    assert_eq!(snapshot.api_average_ns, 200);
    assert_eq!(snapshot.command_to_terminal_average_ns, 60);
    assert_eq!(snapshot.irq_to_terminal_average_ns, 10);
    assert_eq!(summary.spread().mean, 125);
}

fn snapshots() -> Vec<RangeStageSnapshot> {
    let mut all = Vec::new();
    for scope in [RangeScope::Short, RangeScope::Wide] {
        for size in [RequestSize::One, RequestSize::Eight, RequestSize::ThirtyTwo] {
            for io_mode in [IoMode::Sync, IoMode::Async] {
                let wide = matches!(scope, RangeScope::Wide);
                let slow = matches!(io_mode, IoMode::Async);
                all.push(RangeStageSnapshot {
                    scope,
                    size,
                    io_mode,
                    throughput_mib_s_milli: size.blocks() as u64 * 1_000
                        / if wide { 2 } else { 1 },
                    api_average_ns: 1_000 + if wide { 100 } else { 0 } + if slow { 7 } else { 0 },
                    command_to_terminal_average_ns: 800 + if wide { 90 } else { 0 },
                    software_average_ns: 100 + if wide { 10 } else { 0 },
                    irq_to_terminal_average_ns: 5,
                });
            }
        }
    }
    all
}

#[test]
fn range_comparisons() {
    let all = snapshots();
    let found = find_range_snapshot(&all, RangeScope::Wide, RequestSize::Eight, IoMode::Async);
    assert_eq!(found, Some(all[9]));
    let some = find_range_snapshot(&all[..4], RangeScope::Wide, RequestSize::One, IoMode::Sync);
    assert_eq!(some, None);
    assert!(is_complete(&all));
    assert!(!is_complete(&all[..11]));
    let report = report_range_stage_comparisons(&all);
    assert_eq!((report.sizes.len(), report.modes.len(), report.causes.len()), (4, 6, 3));
    assert_eq!(report.sizes[0].block8_vs_block1_permille, 8_000);
    assert_eq!(report.sizes[0].block32_vs_block8_permille, 4_000);
    assert_eq!(report.modes[0].async_vs_sync_permille, 1_000);
    assert_eq!(report.modes[0].async_extra_api_ns, 7);
    assert_eq!(report.causes[0].wide_vs_short_permille, 500);
    assert_eq!(report.causes[0].extra_api_ns, 100);
    assert_eq!(report.causes[0].command_extra_share_permille, 900);
    assert_eq!(report.causes[0].software_extra_share_permille, 100);
    assert_eq!(
        report.causes[0].classification,
        Classification::CardControllerOrBusWaitDominant
    );
}

#[test]
fn slow_samples_are_listed() {
    assert_eq!(slow_samples(&[10, 1_000_000, 5, 2_000_000]), [(1, 1_000_000), (3, 2_000_000)]);
    let many = vec![3_000_000u64; 20];
    assert_eq!(slow_samples(&many).len(), 8);
    let mut results = SustainedResults::new();
    results.add(false, 1_048_576, 1_000_000_000, &[]);
    let latencies = [400_000, 500_000, 1_000_000, 3_000_000];
    results.add(true, 1_048_576, 2_000_000_000, &latencies);
    let summary = results.summary(1_048_576);
    assert_eq!(summary.whole_mib_s_milli, 1_000);
    assert_eq!(summary.instrumented_mib_s_milli, 500);
    assert_eq!(summary.instrumentation_ratio_permille, 500);
    assert_eq!(
        (
            summary.below_500us,
            summary.from_500us_to_1ms,
            summary.from_1ms_to_3ms,
            summary.from_3ms
        ),
        (1, 1, 1, 1)
    );
    assert_eq!(summary.latency.max, 3_000_000);
}

#[test]
fn causes_are_classified() {
    for (ratio, command, software, expected) in [
        (950, 0, 0, Classification::NoMaterialRangeSlowdown),
        (500, 900, 100, Classification::CardControllerOrBusWaitDominant),
        (500, 100, 900, Classification::DriverSoftwareDominant),
        (500, 100, 100, Classification::MixedOrInconclusive),
    ] {
        let found = classify(ratio, command, software);
        assert_eq!(found, expected);
        assert!(!found.name().is_empty());
    }
}
