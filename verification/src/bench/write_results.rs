//! What the rounds of the write benchmark have shown.

use crate::bench::measure::{Baselines, Case};
use crate::bench::read::ComputeMode;
use crate::bench::read_results::{case_place, CASES};
use crate::bench::write_measure::{
    WriteAggregate, WriteMeasurements, WriteReport, WriteRun, WriteSummary,
};
use vstd::prelude::*;

verus! {

/// The results of the write benchmark.
#[derive(Debug)]
pub struct WriteResults {
    /// The cases of the current workload, each at its place.
    pub cases: Vec<WriteAggregate>,
    /// The computations that ran alone.
    pub baselines: Baselines,
}

/// Cases without a round.
pub open spec fn blank_write_cases(cases: Seq<WriteAggregate>) -> bool {
    &&& cases.len() == CASES
    &&& forall|i: int| 0 <= i < CASES ==> (#[trigger] cases[i]).is_blank()
}

/// Makes cases without a round.
fn no_write_cases() -> (cases: Vec<WriteAggregate>)
    ensures
        blank_write_cases(cases@),
{
    let mut cases: Vec<WriteAggregate> = Vec::new();
    while cases.len() < CASES
        invariant
            cases.len() <= CASES,
            forall|i: int| 0 <= i < cases.len() ==> (#[trigger] cases@[i]).is_blank(),
        decreases CASES - cases.len(),
    {
        cases.push(WriteAggregate::new());
    }
    cases
}

impl WriteResults {
    /// Every case has its place.
    pub open spec fn wf(self) -> bool {
        self.cases@.len() == CASES
    }

    /// No round yet.
    pub fn new() -> (results: WriteResults)
        ensures
            results.wf(),
            blank_write_cases(results.cases@),
            results.baselines.is_blank(),
    {
        WriteResults { cases: no_write_cases(), baselines: Baselines::new() }
    }

    /// Tells whether the counts of a round still fit.
    pub fn fits(&self, case: Case, measurements: &WriteMeasurements) -> (fits: bool)
        requires
            self.wf(),
        ensures
            fits == self.cases@[case_place(case) as int].has_room(*measurements),
    {
        self.cases[case_place(case)].fits(measurements)
    }

    /// What a round makes of the results, and the report on it. It counts for its
    /// case; all others stay as they are.
    pub open spec fn grown(
        self,
        after: WriteResults,
        case: Case,
        run: WriteRun,
        measurements: WriteMeasurements,
        report: WriteReport,
    ) -> bool {
        let place = case_place(case) as int;
        &&& after.baselines == self.baselines
        &&& after.cases@.len() == self.cases@.len()
        &&& forall|i: int|
            0 <= i < self.cases@.len() && i != place ==> #[trigger] after.cases@[i]
                == self.cases@[i]
        &&& self.cases@[place].grown(
            after.cases@[place],
            run,
            measurements,
            self.baselines.of(case.compute_mode) as u64,
            report,
        )
    }

    /// Takes a round and reports it.
    pub fn take(&mut self, case: Case, run: WriteRun, measurements: &WriteMeasurements) -> (
        report: WriteReport)
        requires
            old(self).wf(),
            old(self).cases@[case_place(case) as int].has_room(*measurements),
        ensures
            final(self).wf(),
            old(self).grown(*final(self), case, run, *measurements, report),
    {
        let baseline: u64 = self.baselines.work(case.compute_mode);
        self.cases[case_place(case)].add(run, measurements, baseline)
    }

    /// Tells whether all cases can be reported.
    pub fn can_report(&self) -> (can: bool)
        requires
            self.wf(),
        ensures
            can == (forall|i: int| 0 <= i < CASES ==> (#[trigger] self.cases@[i]).reportable()),
    {
        let mut i: usize = 0;
        while i < CASES
            invariant
                self.wf(),
                i <= CASES,
                forall|j: int| 0 <= j < i ==> (#[trigger] self.cases@[j]).reportable(),
            decreases CASES - i,
        {
            if !self.cases[i].can_report() {
                return false;
            }
            i = i + 1;
        }
        true
    }

    /// Reports the cases of a workload, each at its place.
    pub fn report(&self) -> (summaries: Vec<WriteSummary>)
        requires
            self.wf(),
            forall|i: int| 0 <= i < CASES ==> (#[trigger] self.cases@[i]).reportable(),
        ensures
            summaries@.len() == CASES,
            forall|case: Case|
                self.cases@[#[trigger] case_place(case) as int].summed_up(
                    self.baselines.of(case.compute_mode) as u64,
                    summaries@[case_place(case) as int],
                ),
    {
        let mut summaries: Vec<WriteSummary> = Vec::new();
        let mut i: usize = 0;
        while i < CASES
            invariant
                self.wf(),
                i <= CASES,
                forall|j: int| 0 <= j < CASES ==> (#[trigger] self.cases@[j]).reportable(),
                summaries@.len() == i,
                forall|case: Case|
                    (#[trigger] case_place(case)) < i ==> self.cases@[case_place(
                        case,
                    ) as int].summed_up(
                        self.baselines.of(case.compute_mode) as u64,
                        summaries@[case_place(case) as int],
                    ),
            decreases CASES - i,
        {
            let mode = if i < 2 {
                None
            } else if i < 4 {
                Some(ComputeMode::NoYield)
            } else {
                Some(ComputeMode::YieldPerUnit)
            };
            let baseline: u64 = self.baselines.work(mode);
            summaries.push(self.cases[i].report_summary(baseline));
            i = i + 1;
        }
        summaries
    }

    /// Makes room for the cases of the next workload.
    pub fn next_workload(&mut self)
        requires
            old(self).wf(),
        ensures
            final(self).wf(),
            blank_write_cases(final(self).cases@),
            final(self).baselines == old(self).baselines,
    {
        self.cases = no_write_cases();
    }
}

} // verus!
