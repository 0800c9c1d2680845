//! Where the look at the platform looks.

use crate::bench::probe::{
    Csr, PlicSlot, Probe, ProbeAct, ProbeCourse, ProbeEnd, ProbePhase, ProbeReply,
};
use crate::io::{lemma_run_invariant, run, Machine, Step};
use vstd::prelude::*;

verus! {

/// Context of the interrupt controller for a processor.
pub open spec fn context_of(cpu: int) -> int {
    2 * (cpu + 1)
}

/// How the look begins: priority and threshold of the interrupt, what is pending and what is
/// enabled in five words each, the registers of the processor, and how many interrupts have
/// arrived.
pub open spec fn first_acts(cpu: int) -> Seq<ProbeAct> {
    let context = context_of(cpu);
    let enable = 0x2000 + context * 0x80;
    seq![
        ProbeAct::Fence,
        ProbeAct::Cpu,
        ProbeAct::ReadPlic { offset: 300, slot: PlicSlot::Priority },
        ProbeAct::ReadPlic {
            offset: (0x20_0000 + context * 0x1000) as usize,
            slot: PlicSlot::Threshold,
        },
        ProbeAct::ReadPlic { offset: 0x1000, slot: PlicSlot::Pending(0) },
        ProbeAct::ReadPlic { offset: 0x1004, slot: PlicSlot::Pending(1) },
        ProbeAct::ReadPlic { offset: 0x1008, slot: PlicSlot::Pending(2) },
        ProbeAct::ReadPlic { offset: 0x100c, slot: PlicSlot::Pending(3) },
        ProbeAct::ReadPlic { offset: 0x1010, slot: PlicSlot::Pending(4) },
        ProbeAct::ReadPlic { offset: enable as usize, slot: PlicSlot::Enable(0) },
        ProbeAct::ReadPlic { offset: (enable + 4) as usize, slot: PlicSlot::Enable(1) },
        ProbeAct::ReadPlic { offset: (enable + 8) as usize, slot: PlicSlot::Enable(2) },
        ProbeAct::ReadPlic { offset: (enable + 12) as usize, slot: PlicSlot::Enable(3) },
        ProbeAct::ReadPlic { offset: (enable + 16) as usize, slot: PlicSlot::Enable(4) },
        ProbeAct::ReadCsr(Csr::SStatus),
        ProbeAct::ReadCsr(Csr::Sie),
        ProbeAct::ReadCsr(Csr::Sip),
        ProbeAct::ReadCsr(Csr::SCause),
        ProbeAct::Entries,
    ]
}

/// What may be done at a point of the look that comes after its beginning.
pub open spec fn in_its_place(trace: ProbeCourse, cpu: int, act: ProbeAct) -> bool {
    let n = trace.len() as int;
    let claim = (0x20_0004 + context_of(cpu) * 0x1000) as usize;
    match act {
        ProbeAct::DisableIrqs => n == 19 && trace[18].1.number() == 0,
        ProbeAct::ReadPlic { offset, slot } => match slot {
            PlicSlot::ClaimSource(_) => offset == claim,
            PlicSlot::ClaimPriority(index) => {
                &&& offset == trace[n - 1].1.word() * 4
                &&& trace[n - 1].0 == (ProbeAct::ReadPlic {
                    offset: claim,
                    slot: PlicSlot::ClaimSource(index),
                })
                &&& trace[n - 1].1.word() != 0
            },
            PlicSlot::PendingAfter => offset == 0x1008 && trace[n - 1].0 is Fence,
            _ => false,
        },
        ProbeAct::Complete { offset, .. } => offset == claim,
        ProbeAct::ReadCsr(csr) => csr == Csr::SipAfter && trace[n - 1].0 == (ProbeAct::ReadPlic {
            offset: 0x1008,
            slot: PlicSlot::PendingAfter,
        }),
        ProbeAct::EnableIrqs => trace[n - 1].0 == ProbeAct::ReadCsr(Csr::SipAfter)
            && trace[19].1.flag(),
        ProbeAct::Fence => true,
        _ => false,
    }
}

/// Where the look stands before its first claim.
spec fn place_of(phase: ProbePhase) -> int {
    match phase {
        ProbePhase::Fence => 0,
        ProbePhase::Cpu => 1,
        ProbePhase::Priority => 2,
        ProbePhase::Threshold => 3,
        ProbePhase::Pending(index) => 4 + index,
        ProbePhase::Enable(index) => 9 + index,
        ProbePhase::Register(csr) => match csr {
            Csr::SStatus => 14,
            Csr::Sie => 15,
            Csr::Sip => 16,
            _ => 17,
        },
        ProbePhase::Entries => 18,
        _ => 19,
    }
}

spec fn looking(trace: ProbeCourse, at: Step<Probe, ProbeEnd>) -> bool {
    let n = trace.len() as int;
    let cpu = trace[1].1.number() as int;
    n >= 2 && cpu > 0xffff || {
        &&& forall|i: int|
            0 <= i < n && i < 19 ==> (#[trigger] trace[i]).0 == first_acts(cpu)[i]
        &&& match at {
            Step::Next(m) => {
                &&& n >= 2 ==> m.context == context_of(cpu)
                &&& match m.phase {
                    ProbePhase::Disable => n == 19 && trace[18].1.number() == 0,
                    ProbePhase::Claim(_) => n >= 20 && trace[19].1.flag() == m.irqs
                        && trace[18].1.number() == 0,
                    ProbePhase::ClaimPriority(index, source) => {
                        &&& n >= 21 && trace[19].1.flag() == m.irqs && trace[18].1.number() == 0
                        &&& trace[n - 1].0 == (ProbeAct::ReadPlic {
                            offset: (0x20_0004 + context_of(cpu) * 0x1000) as usize,
                            slot: PlicSlot::ClaimSource(index),
                        })
                        &&& trace[n - 1].1.word() == source && source != 0
                    },
                    ProbePhase::Complete(_) => n >= 21 && trace[19].1.flag() == m.irqs
                        && trace[18].1.number() == 0,
                    ProbePhase::FenceAfter => n >= 21 && trace[19].1.flag() == m.irqs
                        && trace[18].1.number() == 0,
                    ProbePhase::PendingAfter => n >= 21 && trace[19].1.flag() == m.irqs
                        && trace[18].1.number() == 0 && trace[n - 1].0 is Fence,
                    ProbePhase::SipAfter => {
                        &&& n >= 21 && trace[19].1.flag() == m.irqs && trace[18].1.number() == 0
                        &&& trace[n - 1].0 == (ProbeAct::ReadPlic {
                            offset: 0x1008,
                            slot: PlicSlot::PendingAfter,
                        })
                    },
                    ProbePhase::Enabled => {
                        &&& n >= 21 && trace[19].1.flag() && trace[18].1.number() == 0
                        &&& trace[n - 1].0 == ProbeAct::ReadCsr(Csr::SipAfter)
                    },
                    ProbePhase::Pending(index) => n == 4 + index && index < 5,
                    ProbePhase::Enable(index) => n == 9 + index && index < 5,
                    ProbePhase::Register(csr) => n == place_of(m.phase) && csr != Csr::SipAfter,
                    _ => n == place_of(m.phase),
                }
            },
            Step::Done(end) => {
                &&& n >= 19
                &&& end.context == context_of(cpu)
                &&& end.attempted == (trace[18].1.number() == 0)
                &&& !end.attempted ==> n == 19
                &&& end.attempted ==> n >= 21 && trace[n - 1].0 == (if trace[19].1.flag() {
                    ProbeAct::EnableIrqs
                } else {
                    ProbeAct::ReadCsr(Csr::SipAfter)
                })
            },
        }
    }
}

/// Offsets of the interrupt controller do not wrap around.
proof fn lemma_offsets(m: Probe, cpu: int, index: usize)
    requires
        0 <= cpu <= 0xffff,
        m.context == context_of(cpu),
        index < 8,
    ensures
        m.threshold_offset() == 0x20_0000 + context_of(cpu) * 0x1000,
        m.claim_offset() == 0x20_0004 + context_of(cpu) * 0x1000,
        m.enable_offset(index) == 0x2000 + context_of(cpu) * 0x80 + 4 * index,
        Probe::pending_offset(index) == 0x1000 + 4 * index,
{
    let modulus = usize::MAX as nat + 1;
    let context = context_of(cpu);
    vstd::arithmetic::div_mod::lemma_small_mod((context * 0x1000) as nat, modulus);
    vstd::arithmetic::div_mod::lemma_small_mod((0x20_0000 + context * 0x1000) as nat, modulus);
    vstd::arithmetic::div_mod::lemma_small_mod((0x20_0004 + context * 0x1000) as nat, modulus);
    vstd::arithmetic::div_mod::lemma_small_mod((context * 0x80) as nat, modulus);
    vstd::arithmetic::div_mod::lemma_small_mod((0x2000 + context * 0x80) as nat, modulus);
    vstd::arithmetic::div_mod::lemma_small_mod((4 * index) as nat, modulus);
    vstd::arithmetic::div_mod::lemma_small_mod(
        (0x2000 + context * 0x80 + 4 * index) as nat,
        modulus,
    );
    vstd::arithmetic::div_mod::lemma_small_mod((0x1000 + 4 * index) as nat, modulus);
}

proof fn lemma_looking(trace: ProbeCourse, m: Probe, reply: ProbeReply)
    requires
        looking(trace, Step::Next(m)),
    ensures
        looking(trace.push((m.op(), reply)), m.next(reply)),
        trace.len() >= 19 && trace[1].1.number() <= 0xffff && (m.phase
            matches ProbePhase::ClaimPriority(_, source) ==> source < 0x1000_0000)
            ==> in_its_place(trace, trace[1].1.number() as int, m.op()),
{
    let after = trace.push((m.op(), reply));
    let n = trace.len() as int;
    let modulus = usize::MAX as nat + 1;
    let cpu = after[1].1.number() as int;
    if n < 2 {
        if n == 1 && reply.number() <= 0xffff {
            vstd::arithmetic::div_mod::lemma_small_mod((reply.number() + 1) as nat, modulus);
            vstd::arithmetic::div_mod::lemma_small_mod(
                (2 * (reply.number() + 1)) as nat,
                modulus,
            );
        }
        assert(first_acts(cpu)[0] == ProbeAct::Fence && first_acts(cpu)[1] == ProbeAct::Cpu);
    } else if cpu <= 0xffff {
        lemma_offsets(m, cpu, 2);
        match m.phase {
            ProbePhase::Pending(index) => lemma_offsets(m, cpu, index),
            ProbePhase::Enable(index) => lemma_offsets(m, cpu, index),
            ProbePhase::ClaimPriority(_, source) => {
                if source < 0x1000_0000 {
                    vstd::arithmetic::div_mod::lemma_small_mod((source * 4) as nat, modulus);
                }
            },
            _ => {},
        }
        vstd::arithmetic::div_mod::lemma_small_mod(300, modulus);
        if n < 19 {
            assert(m.op() == first_acts(cpu)[n]);
        }
    }
}

/// The look at the platform begins with a fixed list of things to look at, for the processor
/// that it runs on. Only if no interrupt has arrived does it go on, with interrupts
/// disabled: it claims and completes at one place, looks up the priority of each
/// interrupt that it claims, looks once more at what is pending, and enables interrupts
/// again if they were enabled before.
pub proof fn law_look_keeps_to_its_places(replies: Seq<ProbeReply>)
    ensures
        ({
            let done = run(Step::Next(Probe::new()), replies);
            let trace = done.trace;
            let n = trace.len() as int;
            let cpu = trace[1].1.number() as int;
            n >= 2 && cpu <= 0xffff ==> {
                &&& forall|i: int|
                    0 <= i < n && i < 19 ==> (#[trigger] trace[i]).0 == first_acts(cpu)[i]
                &&& match done.at {
                    Step::Next(m) => n >= 19 && (
                    m.phase matches ProbePhase::ClaimPriority(_, source) ==> source < 0x1000_0000)
                        ==> in_its_place(trace, cpu, m.op()),
                    Step::Done(end) => {
                        &&& n >= 19
                        &&& end.context == context_of(cpu)
                        &&& end.attempted == (trace[18].1.number() == 0)
                        &&& !end.attempted ==> n == 19
                        &&& end.attempted ==> trace[n - 1].0 == (if trace[19].1.flag() {
                            ProbeAct::EnableIrqs
                        } else {
                            ProbeAct::ReadCsr(Csr::SipAfter)
                        })
                    },
                }
            }
        }),
{
    let start = Step::<Probe, ProbeEnd>::Next(Probe::new());
    let inv = |trace: ProbeCourse, at: Step<Probe, ProbeEnd>| looking(trace, at);
    assert forall|trace: ProbeCourse, m: Probe, reply: ProbeReply|
        inv(trace, Step::Next(m)) implies #[trigger] inv(
        trace.push((m.op(), reply)),
        m.next(reply),
    ) by {
        lemma_looking(trace, m, reply);
    }
    lemma_run_invariant(start, replies, inv);
    let done = run(start, replies);
    if let Step::Next(m) = done.at {
        lemma_looking(done.trace, m, ProbeReply::Done);
    }
}

} // verus!
