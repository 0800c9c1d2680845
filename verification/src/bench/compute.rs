//! The computation that runs beside reads and writes.

use crate::bench::data::{compute_work_unit, work, COMPUTE_ITERATIONS_PER_UNIT, COMPUTE_SEED};
use crate::bench::read::ComputeMode;
use crate::io::{run, Machine, Step};
use vstd::prelude::*;

verus! {

/// What the computation asks for.
#[derive(Clone, Copy, Debug, PartialEq, Eq, Structural)]
pub enum ComputeAct {
    /// Tell whether it is to stop.
    Stopped,
    /// Read the clock.
    Now,
    /// Let other tasks run once.
    Yield,
}

/// What comes back.
#[derive(Clone, Copy, Debug, PartialEq, Eq, Structural)]
pub enum ComputeReply {
    /// It was done.
    Done,
    /// Yes or no.
    Flag(bool),
    /// The time.
    Time(u64),
}

/// What the computation ends with.
#[derive(Clone, Copy, Debug, PartialEq, Eq, Structural)]
pub struct ComputeEnd {
    /// Units done.
    pub units: u64,
    /// Result of the computation.
    pub digest: u64,
    /// It ran until its deadline.
    pub window_completed: bool,
}

/// Where the computation stands.
#[derive(Clone, Copy, Debug, PartialEq, Eq, Structural)]
pub enum ComputePhase {
    /// It is checked whether it is to stop.
    Stopped,
    /// It is checked whether its time is over.
    Time,
    /// Others may run.
    Yield,
}

/// The computation: unit after unit, until it is stopped or its time is over.
#[derive(Clone, Copy, Debug, PartialEq, Eq, Structural)]
pub struct ComputeLoop {
    /// Whether it gives up the processor after each unit.
    pub mode: ComputeMode,
    /// Its deadline.
    pub deadline_ns: u64,
    /// Units done.
    pub units: u64,
    /// Result so far.
    pub digest: u64,
    /// Where it stands.
    pub phase: ComputePhase,
}

/// One unit of the computation.
pub open spec fn unit_done(digest: u64, unit: u64) -> u64 {
    work(digest, unit, COMPUTE_ITERATIONS_PER_UNIT as nat)
}

impl ComputeLoop {
    /// The computation that is about to begin.
    #[verifier::allow_in_spec]
    pub fn new(mode: ComputeMode, deadline_ns: u64) -> ComputeLoop
        returns
            (ComputeLoop {
                mode,
                deadline_ns,
                units: 0,
                digest: COMPUTE_SEED,
                phase: ComputePhase::Stopped,
            }),
    {
        ComputeLoop {
            mode,
            deadline_ns,
            units: 0,
            digest: COMPUTE_SEED,
            phase: ComputePhase::Stopped,
        }
    }

    /// The end.
    #[verifier::allow_in_spec]
    pub fn end(self, window_completed: bool) -> Step<ComputeLoop, ComputeEnd>
        returns
            (Step::<ComputeLoop, ComputeEnd>::Done(
                ComputeEnd { units: self.units, digest: self.digest, window_completed },
            )),
    {
        Step::Done(ComputeEnd { units: self.units, digest: self.digest, window_completed })
    }
}

impl Machine for ComputeLoop {
    type Act = ComputeAct;

    type Event = ComputeReply;

    type Out = ComputeEnd;

    open spec fn op(self) -> ComputeAct {
        match self.phase {
            ComputePhase::Stopped => ComputeAct::Stopped,
            ComputePhase::Time => ComputeAct::Now,
            ComputePhase::Yield => ComputeAct::Yield,
        }
    }

    fn request(&self) -> (op: ComputeAct) {
        match self.phase {
            ComputePhase::Stopped => ComputeAct::Stopped,
            ComputePhase::Time => ComputeAct::Now,
            ComputePhase::Yield => ComputeAct::Yield,
        }
    }

    open spec fn next(self, reply: ComputeReply) -> Step<ComputeLoop, ComputeEnd> {
        match self.phase {
            ComputePhase::Stopped => match reply {
                ComputeReply::Flag(true) => self.end(false),
                _ => Step::Next(ComputeLoop { phase: ComputePhase::Time, ..self }),
            },
            ComputePhase::Time => {
                let over = match reply {
                    ComputeReply::Time(now) => now >= self.deadline_ns,
                    _ => true,
                };
                if over {
                    self.end(true)
                } else {
                    Step::Next(
                        ComputeLoop {
                            units: self.units.saturating_add(1),
                            digest: unit_done(self.digest, self.units),
                            phase: match self.mode {
                                ComputeMode::YieldPerUnit => ComputePhase::Yield,
                                ComputeMode::NoYield => ComputePhase::Stopped,
                            },
                            ..self
                        },
                    )
                }
            },
            ComputePhase::Yield => Step::Next(
                ComputeLoop { phase: ComputePhase::Stopped, ..self },
            ),
        }
    }

    fn step(self, reply: ComputeReply) -> (step: Step<ComputeLoop, ComputeEnd>) {
        match self.phase {
            ComputePhase::Stopped => match reply {
                ComputeReply::Flag(true) => self.end(false),
                _ => Step::Next(ComputeLoop { phase: ComputePhase::Time, ..self }),
            },
            ComputePhase::Time => {
                let over = match reply {
                    ComputeReply::Time(now) => now >= self.deadline_ns,
                    _ => true,
                };
                if over {
                    self.end(true)
                } else {
                    Step::Next(
                        ComputeLoop {
                            units: self.units.saturating_add(1),
                            digest: compute_work_unit(self.digest, self.units),
                            phase: match self.mode {
                                ComputeMode::YieldPerUnit => ComputePhase::Yield,
                                ComputeMode::NoYield => ComputePhase::Stopped,
                            },
                            ..self
                        },
                    )
                }
            },
            ComputePhase::Yield => Step::Next(
                ComputeLoop { phase: ComputePhase::Stopped, ..self },
            ),
        }
    }
}

/// Result of so many units.
pub open spec fn digest_of(units: nat) -> u64
    decreases units,
{
    if units == 0 {
        COMPUTE_SEED
    } else {
        unit_done(digest_of((units - 1) as nat), (units - 1) as u64)
    }
}

/// How often other tasks may have run.
pub open spec fn yields(trace: Seq<(ComputeAct, ComputeReply)>) -> int
    decreases trace.len(),
{
    if trace.len() == 0 {
        0
    } else {
        yields(trace.drop_last()) + (if trace.last().0 is Yield {
            1int
        } else {
            0int
        })
    }
}

spec fn compute_invariant(
    mode: ComputeMode,
    trace: Seq<(ComputeAct, ComputeReply)>,
    at: Step<ComputeLoop, ComputeEnd>,
) -> bool {
    match at {
        Step::Next(m) => {
            &&& m.mode == mode
            &&& m.units <= trace.len()
            &&& m.digest == digest_of(m.units as nat)
            &&& yields(trace) == (match mode {
                ComputeMode::NoYield => 0,
                ComputeMode::YieldPerUnit => if m.phase is Yield {
                    m.units - 1
                } else {
                    m.units as int
                },
            })
            &&& m.phase is Yield ==> mode is YieldPerUnit
        },
        Step::Done(end) => {
            &&& end.digest == digest_of(end.units as nat)
            &&& yields(trace) == (match mode {
                ComputeMode::NoYield => 0,
                ComputeMode::YieldPerUnit => end.units as int,
            })
        },
    }
}

/// The result depends on nothing but the number of units, whenever the
/// computation is stopped, and it gives up the processor once per unit or never.
pub proof fn law_digest_depends_on_units_only(
    mode: ComputeMode,
    deadline_ns: u64,
    replies: Seq<ComputeReply>,
)
    requires
        replies.len() < u64::MAX,
    ensures
        ({
            let done = run(Step::Next(ComputeLoop::new(mode, deadline_ns)), replies);
            done.at matches Step::Done(end) ==> {
                &&& end.digest == digest_of(end.units as nat)
                &&& yields(done.trace) == (match mode {
                    ComputeMode::NoYield => 0,
                    ComputeMode::YieldPerUnit => end.units as int,
                })
            }
        }),
{
    let start = Step::<ComputeLoop, ComputeEnd>::Next(ComputeLoop::new(mode, deadline_ns));
    lemma_compute(mode, start, replies);
}

proof fn lemma_compute(
    mode: ComputeMode,
    start: Step<ComputeLoop, ComputeEnd>,
    replies: Seq<ComputeReply>,
)
    requires
        compute_invariant(mode, Seq::empty(), start),
        replies.len() < u64::MAX,
    ensures
        compute_invariant(mode, run(start, replies).trace, run(start, replies).at),
        run(start, replies).trace.len() <= replies.len(),
    decreases replies.len(),
{
    if replies.len() > 0 {
        lemma_compute(mode, start, replies.drop_last());
        let before = run(start, replies.drop_last());
        if let Step::Next(m) = before.at {
            let after = before.trace.push((m.op(), replies.last()));
            assert(after.drop_last() =~= before.trace);
            assert(after.last() == (m.op(), replies.last()));
        }
    }
}

/// Units that were done: each began with a clock reading before the deadline.
pub open spec fn units_in_time(
    trace: Seq<(ComputeAct, ComputeReply)>,
    deadline_ns: u64,
) -> int
    decreases trace.len(),
{
    if trace.len() == 0 {
        0
    } else {
        units_in_time(trace.drop_last(), deadline_ns) + (match trace.last() {
            (ComputeAct::Now, ComputeReply::Time(now)) => if now < deadline_ns {
                1int
            } else {
                0
            },
            _ => 0,
        })
    }
}

/// The reply ends a computation: it is to stop, or its time is over.
pub open spec fn ends_computation(
    act: ComputeAct,
    reply: ComputeReply,
    deadline_ns: u64,
) -> bool {
    match act {
        ComputeAct::Stopped => reply == ComputeReply::Flag(true),
        ComputeAct::Now => !(reply matches ComputeReply::Time(now) && now < deadline_ns),
        ComputeAct::Yield => false,
    }
}

/// Nothing has ended the computation yet.
pub open spec fn goes_on(trace: Seq<(ComputeAct, ComputeReply)>, deadline_ns: u64) -> bool {
    forall|i: int|
        0 <= i < trace.len() ==> !ends_computation(
            (#[trigger] trace[i]).0,
            trace[i].1,
            deadline_ns,
        )
}

spec fn computing(
    deadline_ns: u64,
    trace: Seq<(ComputeAct, ComputeReply)>,
    at: Step<ComputeLoop, ComputeEnd>,
) -> bool {
    let n = trace.len() as int;
    units_in_time(trace, deadline_ns) < u64::MAX ==> match at {
        Step::Next(m) => {
            &&& m.deadline_ns == deadline_ns
            &&& m.units == units_in_time(trace, deadline_ns)
            &&& goes_on(trace, deadline_ns)
            &&& m.phase is Time ==> n >= 1 && trace[n - 1].0 is Stopped
        },
        Step::Done(end) => {
            &&& end.units == units_in_time(trace, deadline_ns)
            &&& n >= 1 && goes_on(trace.drop_last(), deadline_ns)
            &&& ends_computation(trace[n - 1].0, trace[n - 1].1, deadline_ns)
            &&& end.window_completed == (trace[n - 1].0 is Now)
        },
    }
}

/// A computation does a unit for each clock reading before its deadline. It ends as soon as
/// the clock has reached the deadline, and has then completed its time, or as soon as it is
/// told to stop, and has then not.
pub proof fn law_computation_ends_in_time(
    mode: ComputeMode,
    deadline_ns: u64,
    replies: Seq<ComputeReply>,
)
    ensures
        ({
            let done = run(Step::Next(ComputeLoop::new(mode, deadline_ns)), replies);
            let n = done.trace.len() as int;
            units_in_time(done.trace, deadline_ns) < u64::MAX ==> match done.at {
                Step::Next(m) => goes_on(done.trace, deadline_ns) && (m.op() is Now ==> n >= 1
                    && done.trace[n - 1].0 is Stopped),
                Step::Done(end) => {
                    &&& end.units == units_in_time(done.trace, deadline_ns)
                    &&& n >= 1 && goes_on(done.trace.drop_last(), deadline_ns)
                    &&& ends_computation(done.trace[n - 1].0, done.trace[n - 1].1, deadline_ns)
                    &&& end.window_completed == (done.trace[n - 1].0 is Now)
                },
            }
        }),
{
    let start = Step::<ComputeLoop, ComputeEnd>::Next(ComputeLoop::new(mode, deadline_ns));
    let inv = |trace: Seq<(ComputeAct, ComputeReply)>, at: Step<ComputeLoop, ComputeEnd>|
        computing(deadline_ns, trace, at);
    assert forall|trace: Seq<(ComputeAct, ComputeReply)>, m: ComputeLoop, reply: ComputeReply|
        inv(trace, Step::Next(m)) implies #[trigger] inv(
        trace.push((m.op(), reply)),
        m.next(reply),
    ) by {
        assert(trace.push((m.op(), reply)).drop_last() =~= trace);
    }
    crate::io::lemma_run_invariant(start, replies, inv);
}

} // verus!
