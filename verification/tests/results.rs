//! What the rounds of the benchmarks amount to.

use sdmmc::bench::measure::{Baselines, Case, IoMeasurements};
use sdmmc::bench::range::{RangeScope, RequestSize};
use sdmmc::bench::read::{ComputeMode, ComputeResult, IoMode, RoundEnd, RoundPlan};
use sdmmc::bench::read_plan::{Diagnostic, ReportKind, Schedule};
use sdmmc::bench::read_results::{
    case_place, range_place, way_of, ReadReport, ReadResults, RoundReport, CASES, RANGE_WAYS,
};
use sdmmc::bench::stage::StageAggregate;
use sdmmc::bench::write_measure::{WriteMeasurements, WriteRun};
use sdmmc::bench::write_results::WriteResults;
use sdmmc::io::Step;

const END: RoundEnd = RoundEnd { elapsed_ns: 1_000_000_000, checksum: 7, compute: None };

fn every_case() -> Vec<Case> {
    let mut cases = Vec::new();
    for compute_mode in [None, Some(ComputeMode::NoYield), Some(ComputeMode::YieldPerUnit)] {
        for io_mode in [IoMode::Sync, IoMode::Async] {
            cases.push(Case { io_mode, compute_mode });
        }
    }
    cases
}

fn run_all(results: &mut ReadResults, diagnostic: Diagnostic) -> Vec<(RoundPlan, RoundReport)> {
    let mut reports = Vec::new();
    let mut schedule = Schedule::new(diagnostic);
    loop {
        let plan = schedule.current();
        let mut measurements = IoMeasurements::new();
        measurements.record(plan.stride.map(|_| 2_000_000), None);
        let stages = StageAggregate::empty();
        let end = RoundEnd {
            compute: plan.compute.map(|_| ComputeResult::of(0, 1_000_000_000, 500, 1, true)),
            ..END
        };
        assert!(results.fits(diagnostic, plan, &measurements, &stages));
        reports.push((plan, results.take(diagnostic, plan, end, &measurements, &stages)));
        match schedule.advance(Ok(end)) {
            Step::Next(next) => schedule = next,
            Step::Done(done) => {
                assert!(done.is_ok());
                return reports;
            }
        }
    }
}

#[test]
fn every_result_has_a_place_of_its_own() {
    let mut taken = [false; RANGE_WAYS];
    for scope in [RangeScope::Short, RangeScope::Wide] {
        for size in [RequestSize::One, RequestSize::Eight, RequestSize::ThirtyTwo] {
            assert_eq!(way_of(size.workload(scope)), Some((scope, size)));
            for io_mode in [IoMode::Sync, IoMode::Async] {
                let place = range_place(scope, size, io_mode);
                assert!(!taken[place]);
                taken[place] = true;
            }
        }
    }
    let mut taken = [false; CASES];
    for case in every_case() {
        assert!(!taken[case_place(case)]);
        taken[case_place(case)] = true;
    }
}

#[test]
fn results_of_the_short_region() {
    let mut results = ReadResults::new();
    let reports = run_all(&mut results, Diagnostic::Legacy);
    // 128 KiB in a second.
    let counted = reports.iter().filter(|(_, report)| *report == RoundReport::Rate(125));
    assert_eq!(counted.count(), 10);
    assert_eq!(results.legacy_sync.rates, [125; 5]);
    assert_eq!(results.legacy_async.rates, [125; 5]);
    let kind = ReportKind::Rounds(Diagnostic::Legacy);
    assert!(results.can_report(kind));
    match results.report(kind) {
        ReadReport::Legacy { sync_aggregate_mib_s_milli, sync, asynchronous, .. } => {
            assert_eq!(sync_aggregate_mib_s_milli, 125);
            assert_eq!((sync.mean, sync.stddev, asynchronous.max), (125, 0, 125));
        }
        other => panic!("{other:?}"),
    }
}

#[test]
fn results_of_the_ranges() {
    let mut results = ReadResults::new();
    let reports = run_all(&mut results, Diagnostic::Range);
    assert_eq!(reports.len(), 62);
    assert_eq!(reports[0].1, RoundReport::Preparation);
    assert_eq!(reports[1].1, RoundReport::Range(RangeScope::Short, RequestSize::One));
    assert_eq!(reports[61].1, RoundReport::Range(RangeScope::Wide, RequestSize::ThirtyTwo));
    for summary in &results.ranges {
        assert_eq!(summary.throughput_mib_s_milli.len(), 5);
        assert_eq!(summary.elapsed_total_ns, 5_000_000_000);
    }
    let kind = ReportKind::Rounds(Diagnostic::Range);
    assert!(results.can_report(kind));
    match results.report(kind) {
        ReadReport::Ranges { snapshots, spreads, comparisons } => {
            let place = range_place(RangeScope::Wide, RequestSize::Eight, IoMode::Async);
            // 2 MiB in a second.
            assert_eq!(snapshots[place].throughput_mib_s_milli, 2_000);
            assert_eq!((spreads[place].mean, spreads[place].min), (2_000, 2_000));
            assert_eq!(comparisons.causes[0].wide_vs_short_permille, 16_000);
            assert_eq!((snapshots.len(), spreads.len()), (12, 12));
        }
        other => panic!("{other:?}"),
    }
}

#[test]
fn results_of_the_long_region() {
    let mut results = ReadResults::new();
    let reports = run_all(&mut results, Diagnostic::Sustained);
    // 8 MiB in a second.
    assert!(reports.iter().all(|(_, report)| *report == RoundReport::Rate(8_000)));
    assert_eq!(results.sustained.latencies, [2_000_000; 2]);
    let kind = ReportKind::Rounds(Diagnostic::Sustained);
    assert!(results.can_report(kind));
    match results.report(kind) {
        ReadReport::Sustained(summary) => {
            assert_eq!(summary.whole_mib_s_milli, 8_000);
            assert_eq!(summary.instrumentation_ratio_permille, 1_000);
            assert_eq!((summary.below_500us, summary.from_1ms_to_3ms), (0, 2));
        }
        other => panic!("{other:?}"),
    }
}

#[test]
fn results_of_the_cases() {
    let mut results = ReadResults::new();
    results.baselines.take(ComputeMode::NoYield, 1_000_000);
    results.baselines.take(ComputeMode::NoYield, 2_000_000);
    results.baselines.take(ComputeMode::YieldPerUnit, 500_000);
    assert_eq!(results.baselines.work(None), 0);
    assert_eq!(results.baselines.work(Some(ComputeMode::NoYield)), 1_500_000);
    match results.report(ReportKind::Baselines) {
        ReadReport::Baselines { no_yield, yielding } => {
            assert_eq!((no_yield.mean, no_yield.min), (1_500_000, 1_000_000));
            assert_eq!(no_yield.stddev, 500_000);
            assert_eq!(yielding.mean, 500_000);
        }
        other => panic!("{other:?}"),
    }
    let reports = run_all(&mut results, Diagnostic::Matrix(1));
    assert!(reports[..3].iter().all(|(_, report)| *report == RoundReport::Preparation));
    match (reports[3].0.compute, reports[3].1) {
        (None, RoundReport::Case(report)) => {
            // 16 MiB in a second.
            assert_eq!(report.throughput_mib_s_milli, 16_000);
            assert_eq!((report.work_per_s_milli, report.baseline_retained_permille), (0, 0));
        }
        other => panic!("{other:?}"),
    }
    let kind = ReportKind::Rounds(Diagnostic::Matrix(1));
    assert!(results.can_report(kind));
    match results.report(kind) {
        ReadReport::Cases(summaries) => {
            assert_eq!(summaries.len(), CASES);
            let retained = |io_mode, compute_mode| {
                summaries[case_place(Case { io_mode, compute_mode })].baseline_retained_permille
            };
            assert_eq!(retained(IoMode::Sync, None), 0);
            assert_eq!(retained(IoMode::Async, Some(ComputeMode::NoYield)), 333);
            assert_eq!(retained(IoMode::Sync, Some(ComputeMode::YieldPerUnit)), 1_000);
        }
        other => panic!("{other:?}"),
    }
    for case in &results.cases {
        assert_eq!(case.throughput_mib_s_milli.len(), 5);
    }
    results.next_workload();
    assert!(results.cases.iter().all(|case| case.throughput_mib_s_milli.is_empty()));
    assert_eq!(results.baselines.work(Some(ComputeMode::YieldPerUnit)), 500_000);
}

#[test]
fn rounds_that_do_not_fit_are_told() {
    let mut results = ReadResults::new();
    let schedule = Schedule { diagnostic: Diagnostic::Range, index: 1, reference: 0, warm: 0 };
    let plan = schedule.current();
    let mut stages = StageAggregate::empty();
    stages.requests = usize::MAX;
    let measurements = IoMeasurements::new();
    assert!(results.fits(Diagnostic::Range, plan, &measurements, &stages));
    results.take(Diagnostic::Range, plan, END, &measurements, &stages);
    assert!(!results.fits(Diagnostic::Range, plan, &measurements, &stages));
    let mut counted = IoMeasurements::new();
    counted.irq_completions = usize::MAX;
    let plan = Schedule { diagnostic: Diagnostic::Matrix(0), index: 3, reference: 0, warm: 0 }
        .current();
    let empty = StageAggregate::empty();
    assert!(results.fits(Diagnostic::Matrix(0), plan, &counted, &empty));
    results.take(Diagnostic::Matrix(0), plan, END, &counted, &empty);
    assert!(!results.fits(Diagnostic::Matrix(0), plan, &counted, &empty));
    results.sustained.whole.rates.push(1);
    assert!(!results.can_report(ReportKind::Rounds(Diagnostic::Sustained)));
    results.legacy_sync.rates = vec![u64::MAX, u64::MAX, 0, 0, 0];
    assert!(!results.can_report(ReportKind::Rounds(Diagnostic::Legacy)));
}

#[test]
fn summaries_tell_the_counts() {
    let mut results = ReadResults::new();
    let index = 3;
    let plan = Schedule { diagnostic: Diagnostic::Matrix(0), index, reference: 0, warm: 0 }
        .current();
    let mut measurements = IoMeasurements::new();
    assert!(measurements.has_room());
    measurements.request_latencies_ns = vec![5, 6, 7];
    measurements.irq_entry_latencies_ns = vec![1, 2];
    measurements.irq_completions = 2;
    measurements.fast_path_completions = 1;
    measurements.deadline_fallbacks = 4;
    let stages = StageAggregate::empty();
    results.take(Diagnostic::Matrix(0), plan, END, &measurements, &stages);
    results.take(Diagnostic::Matrix(0), plan, END, &measurements, &stages);
    match results.report(ReportKind::Rounds(Diagnostic::Matrix(0))) {
        ReadReport::Cases(summaries) => {
            let case = Case { io_mode: plan.mode, compute_mode: plan.compute };
            let summary = summaries[case_place(case)];
            assert_eq!((summary.request_samples, summary.irq_samples), (6, 4));
            assert_eq!((summary.irq_completions, summary.fast_path_completions), (4, 2));
            assert_eq!(summary.deadline_fallbacks, 8);
        }
        other => panic!("{other:?}"),
    }
    measurements.irq_completions = usize::MAX - 5;
    assert!(!measurements.has_room());
    measurements.irq_completions = usize::MAX - 6;
    assert!(measurements.has_room());
}

#[test]
fn results_of_writes() {
    let mut results = WriteResults::new();
    results.baselines.take(ComputeMode::NoYield, 1_000);
    let compute = ComputeResult::of(0, 1_000_000_000, 1, 1, true);
    let run = WriteRun {
        elapsed_ns: 1_000_000_000,
        requests: 3,
        bytes: 1_048_576,
        compute: Some(compute),
    };
    let case = Case { io_mode: IoMode::Async, compute_mode: Some(ComputeMode::NoYield) };
    let mut measurements = WriteMeasurements::new();
    measurements.irq_events = usize::MAX;
    assert!(results.fits(case, &measurements));
    let report = results.take(case, run, &measurements);
    assert_eq!(report.throughput_mib_s_milli, 1_000);
    assert_eq!(report.compute_work_per_s_milli, 1_000);
    assert_eq!(report.compute_retention_permille, 1_000);
    assert!(!results.fits(case, &measurements));
    let other = Case { io_mode: IoMode::Sync, compute_mode: None };
    assert!(results.fits(other, &measurements));
    assert!(results.can_report());
    let summaries = results.report();
    assert_eq!(summaries[case_place(case)].aggregate_mib_s_milli, 1_000);
    assert_eq!(summaries[case_place(case)].compute.mean, 1_000);
    assert_eq!(summaries[case_place(case)].requests_total, 3);
    assert_eq!(summaries[case_place(case)].bytes_total, 1_048_576);
    assert_eq!(summaries[case_place(case)].portrait.irq_events, usize::MAX);
    assert_eq!(summaries[case_place(other)].portrait.irq_events, 0);
    assert_eq!(summaries[case_place(other)].aggregate_mib_s_milli, 0);
    results.next_workload();
    assert!(results.cases.iter().all(|case| case.requests_total == 0));
    let fresh = Baselines::new();
    assert_eq!(fresh.work(Some(ComputeMode::YieldPerUnit)), 0);
}
