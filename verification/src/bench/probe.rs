//! Test of the interrupt path after a failed read.

use crate::bench::data::TEST_START_LBA;
use crate::error::{SdMmcError, SdMmcResult};
use crate::io::{lemma_run_invariant, run, Machine, Step};
use crate::regs::{BMod, Ctrl, IdSts, RIntSts};
use crate::transfer::DMA_BUFFER_SIZE;
use vstd::prelude::*;

verus! {

/// Interrupts that are kept one by one.
pub const ERROR_IRQ_TRACE_CAPACITY: usize = 8;

/// Blocks of the region that the tests of reads use.
pub const READ_REGION_BLOCKS: usize = 256;

/// Number of the controller's interrupt.
pub const VF2_PLIC_SDIO1_SOURCE: usize = 75;

/// Offset of the pending bits of the interrupt controller.
pub const PLIC_PENDING_OFFSET: usize = 0x1000;

/// Offset of its enable bits.
pub const PLIC_ENABLE_OFFSET: usize = 0x2000;

/// Distance of the enable bits of two contexts.
pub const PLIC_ENABLE_CONTEXT_STRIDE: usize = 0x80;

/// Offset of the contexts.
pub const PLIC_CONTEXT_OFFSET: usize = 0x20_0000;

/// Distance of two contexts.
pub const PLIC_CONTEXT_STRIDE: usize = 0x1000;

/// Word of the pending and enable bits that holds the controller's interrupt.
pub const PLIC_SOURCE_GROUP: usize = 2;

/// Its bit in that word.
pub const PLIC_SOURCE_MASK: u32 = 0x800;

/// The word and the bit belong to the controller's interrupt.
pub proof fn law_source_has_its_bit()
    ensures
        PLIC_SOURCE_GROUP == VF2_PLIC_SDIO1_SOURCE / 32,
        PLIC_SOURCE_MASK == 1u32 << (VF2_PLIC_SDIO1_SOURCE % 32),
{
    assert(0x800u32 == 1u32 << 11usize) by (bit_vector);
    assert(VF2_PLIC_SDIO1_SOURCE % 32 == 11);
}

/// One interrupt.
#[derive(Clone, Copy, Debug, PartialEq, Eq, Structural)]
pub struct TraceSlot {
    /// Its status was recorded.
    pub snapshot_ready: bool,
    /// Generation of the current transfer.
    pub generation: usize,
    /// Raw status.
    pub rintsts: u32,
    /// DMA status.
    pub idsts: u32,
    /// Masked status.
    pub mintsts: u32,
    /// A waiting task is to be notified.
    pub should_notify: bool,
    /// It was notified.
    pub notify_attempted: bool,
    /// A task was woken.
    pub waiter_woken: bool,
}

impl TraceSlot {
    /// An interrupt of which nothing is recorded.
    #[verifier::allow_in_spec]
    pub fn blank() -> TraceSlot
        returns
            (TraceSlot {
                snapshot_ready: false,
                generation: 0,
                rintsts: 0,
                idsts: 0,
                mintsts: 0,
                should_notify: false,
                notify_attempted: false,
                waiter_woken: false,
            }),
    {
        TraceSlot {
            snapshot_ready: false,
            generation: 0,
            rintsts: 0,
            idsts: 0,
            mintsts: 0,
            should_notify: false,
            notify_attempted: false,
            waiter_woken: false,
        }
    }
}

/// The interrupts of a read: all are counted, the first ones are kept.
#[derive(Debug)]
pub struct ErrorIrqTrace {
    /// Interrupts.
    pub entries: usize,
    /// Those that ask for a notification.
    pub should_notify: usize,
    /// Notifications.
    pub notified: usize,
    /// Those that woke a task.
    pub woken: usize,
    /// The first interrupts.
    pub slots: Vec<TraceSlot>,
}

impl ErrorIrqTrace {
    /// There is room for the first interrupts.
    pub open spec fn wf(self) -> bool {
        self.slots@.len() == ERROR_IRQ_TRACE_CAPACITY
    }

    /// No interrupt yet.
    pub fn new() -> (trace: ErrorIrqTrace)
        ensures
            trace.wf(),
            trace.entries == 0 && trace.should_notify == 0 && trace.notified == 0 && trace.woken
                == 0,
            forall|i: int|
                0 <= i < ERROR_IRQ_TRACE_CAPACITY ==> #[trigger] trace.slots@[i]
                    == TraceSlot::blank(),
    {
        let mut slots: Vec<TraceSlot> = Vec::new();
        while slots.len() < ERROR_IRQ_TRACE_CAPACITY
            invariant
                slots.len() <= ERROR_IRQ_TRACE_CAPACITY,
                forall|i: int| 0 <= i < slots.len() ==> #[trigger] slots@[i] == TraceSlot::blank(),
            decreases ERROR_IRQ_TRACE_CAPACITY - slots.len(),
        {
            slots.push(TraceSlot::blank());
        }
        ErrorIrqTrace { entries: 0, should_notify: 0, notified: 0, woken: 0, slots }
    }

    /// Counts an interrupt and tells its number.
    pub fn begin_error_irq_handler_entry(&mut self) -> (ordinal: usize)
        requires
            old(self).wf(),
        ensures
            final(self).wf(),
            ordinal == old(self).entries,
            final(self).entries == old(self).entries.wrapping_add(1),
            final(self).should_notify == old(self).should_notify,
            final(self).notified == old(self).notified,
            final(self).woken == old(self).woken,
            final(self).slots@ == (if ordinal < ERROR_IRQ_TRACE_CAPACITY {
                old(self).slots@.update(ordinal as int, TraceSlot::blank())
            } else {
                old(self).slots@
            }),
    {
        let ordinal: usize = self.entries;
        self.entries = ordinal.wrapping_add(1);
        if ordinal < ERROR_IRQ_TRACE_CAPACITY {
            self.slots.set(ordinal, TraceSlot::blank());
        }
        ordinal
    }

    /// Records the status of an interrupt.
    pub fn record_error_irq_initial_status(
        &mut self,
        ordinal: usize,
        generation: usize,
        rintsts: u32,
        idsts: u32,
        mintsts: u32,
        should_notify: bool,
    )
        requires
            old(self).wf(),
        ensures
            final(self).wf(),
            final(self).entries == old(self).entries,
            final(self).should_notify == (if should_notify {
                old(self).should_notify.wrapping_add(1)
            } else {
                old(self).should_notify
            }),
            final(self).notified == old(self).notified,
            final(self).woken == old(self).woken,
            final(self).slots@ == (if ordinal < ERROR_IRQ_TRACE_CAPACITY {
                old(self).slots@.update(
                    ordinal as int,
                    TraceSlot {
                        snapshot_ready: true,
                        generation,
                        rintsts,
                        idsts,
                        mintsts,
                        should_notify,
                        ..old(self).slots@[ordinal as int]
                    },
                )
            } else {
                old(self).slots@
            }),
    {
        if should_notify {
            self.should_notify = self.should_notify.wrapping_add(1);
        }
        if ordinal < ERROR_IRQ_TRACE_CAPACITY {
            let slot = self.slots[ordinal];
            self.slots.set(
                ordinal,
                TraceSlot {
                    snapshot_ready: true,
                    generation,
                    rintsts,
                    idsts,
                    mintsts,
                    should_notify,
                    ..slot
                },
            );
        }
    }

    /// Records the notification of an interrupt.
    pub fn record_error_irq_notify(&mut self, ordinal: usize, waiter_woken: bool)
        requires
            old(self).wf(),
        ensures
            final(self).wf(),
            final(self).entries == old(self).entries,
            final(self).should_notify == old(self).should_notify,
            final(self).notified == old(self).notified.wrapping_add(1),
            final(self).woken == (if waiter_woken {
                old(self).woken.wrapping_add(1)
            } else {
                old(self).woken
            }),
            final(self).slots@ == (if ordinal < ERROR_IRQ_TRACE_CAPACITY {
                old(self).slots@.update(
                    ordinal as int,
                    TraceSlot {
                        notify_attempted: true,
                        waiter_woken,
                        ..old(self).slots@[ordinal as int]
                    },
                )
            } else {
                old(self).slots@
            }),
    {
        self.notified = self.notified.wrapping_add(1);
        if waiter_woken {
            self.woken = self.woken.wrapping_add(1);
        }
        if ordinal < ERROR_IRQ_TRACE_CAPACITY {
            let slot = self.slots[ordinal];
            self.slots.set(ordinal, TraceSlot { notify_attempted: true, waiter_woken, ..slot });
        }
    }

    /// What was recorded of an interrupt, if it is among the first ones.
    pub fn error_irq_trace_snapshot(&self, ordinal: usize) -> (slot: Option<TraceSlot>)
        requires
            self.wf(),
        ensures
            slot == (if ordinal < ERROR_IRQ_TRACE_CAPACITY {
                Some(self.slots@[ordinal as int])
            } else {
                None
            }),
    {
        if ordinal < ERROR_IRQ_TRACE_CAPACITY {
            Some(self.slots[ordinal])
        } else {
            None
        }
    }

    /// The counts.
    pub fn error_irq_trace_counts(&self) -> (counts: TraceCounts)
        ensures
            counts == self.counts(),
    {
        TraceCounts {
            entries: self.entries,
            should_notify: self.should_notify,
            notified: self.notified,
            woken: self.woken,
        }
    }

    /// The counts.
    pub open spec fn counts(self) -> TraceCounts {
        TraceCounts {
            entries: self.entries,
            should_notify: self.should_notify,
            notified: self.notified,
            woken: self.woken,
        }
    }
}

/// How often interrupts did what.
#[derive(Clone, Copy, Debug, PartialEq, Eq, Structural)]
pub struct TraceCounts {
    /// Interrupts.
    pub entries: usize,
    /// Those that ask for a notification.
    pub should_notify: usize,
    /// Notifications.
    pub notified: usize,
    /// Those that woke a task.
    pub woken: usize,
}

impl TraceCounts {
    /// Interrupts that were not kept.
    #[verifier::allow_in_spec]
    pub fn dropped(self) -> usize
        returns
            self.entries.saturating_sub(ERROR_IRQ_TRACE_CAPACITY),
    {
        self.entries.saturating_sub(ERROR_IRQ_TRACE_CAPACITY)
    }

    /// An interrupt arrived, asked for a notification, and that woke a task; and
    /// all interrupts were kept.
    #[verifier::allow_in_spec]
    pub fn complete(self) -> bool
        returns
            self.entries != 0 && self.should_notify != 0 && self.notified != 0 && self.woken != 0
                && self.dropped() == 0,
    {
        self.entries != 0 && self.should_notify != 0 && self.notified != 0 && self.woken != 0
            && self.dropped() == 0
    }
}

/// Where a word of the interrupt controller is kept.
#[derive(Clone, Copy, Debug, PartialEq, Eq, Structural)]
pub enum PlicSlot {
    /// Priority of the controller's interrupt.
    Priority,
    /// Threshold of the context.
    Threshold,
    /// Pending bits.
    Pending(usize),
    /// Enable bits.
    Enable(usize),
    /// A claimed interrupt.
    ClaimSource(usize),
    /// Its priority.
    ClaimPriority(usize),
    /// Pending bits after all claims were completed.
    PendingAfter,
}

/// Control and status registers of the processor.
#[derive(Clone, Copy, Debug, PartialEq, Eq, Structural)]
pub enum Csr {
    /// Supervisor status.
    SStatus,
    /// Interrupt enable.
    Sie,
    /// Interrupt pending.
    Sip,
    /// Cause of the last trap.
    SCause,
    /// Interrupt pending, after all claims were completed.
    SipAfter,
}

/// What the look at the platform asks for.
#[derive(Clone, Copy, Debug, PartialEq, Eq, Structural)]
pub enum ProbeAct {
    /// Order all earlier accesses before all later ones.
    Fence,
    /// Tell the number of the processor.
    Cpu,
    /// Read a word of the interrupt controller and keep it.
    ReadPlic {
        /// Its offset.
        offset: usize,
        /// Where it is kept.
        slot: PlicSlot,
    },
    /// Read a register of the processor and keep it.
    ReadCsr(Csr),
    /// Tell how many interrupts have arrived.
    Entries,
    /// Disable interrupts and tell whether they were enabled.
    DisableIrqs,
    /// Complete a claim: write the interrupt that is kept at this place.
    Complete {
        /// Offset of the register.
        offset: usize,
        /// Place of the claim.
        index: usize,
    },
    /// Enable interrupts.
    EnableIrqs,
}

/// What comes back.
#[derive(Clone, Copy, Debug, PartialEq, Eq, Structural)]
pub enum ProbeReply {
    /// It was done.
    Done,
    /// A word.
    Word(u32),
    /// A number.
    Number(usize),
    /// Yes or no.
    Flag(bool),
}

impl ProbeReply {
    /// The word; 0 without one.
    #[verifier::allow_in_spec]
    pub fn word(self) -> u32
        returns
            (match self {
                ProbeReply::Word(word) => word,
                _ => 0,
            }),
    {
        match self {
            ProbeReply::Word(word) => word,
            _ => 0,
        }
    }

    /// The number; 0 without one.
    #[verifier::allow_in_spec]
    pub fn number(self) -> usize
        returns
            (match self {
                ProbeReply::Number(number) => number,
                _ => 0,
            }),
    {
        match self {
            ProbeReply::Number(number) => number,
            _ => 0,
        }
    }

    /// The answer; no without one.
    #[verifier::allow_in_spec]
    pub fn flag(self) -> bool
        returns
            (match self {
                ProbeReply::Flag(flag) => flag,
                _ => false,
            }),
    {
        match self {
            ProbeReply::Flag(flag) => flag,
            _ => false,
        }
    }
}

/// Words of pending and of enable bits that are looked at.
pub const PLIC_WORDS: usize = 5;

/// What was read of the interrupt controller and the processor.
#[derive(Clone, Copy, Debug, PartialEq, Eq)]
pub struct Platform {
    /// Priority of the controller's interrupt.
    pub priority: u32,
    /// Threshold of the context.
    pub threshold: u32,
    /// Pending bits.
    pub pending: [u32; 5],
    /// Enable bits.
    pub enable: [u32; 5],
    /// The claimed interrupts.
    pub sources: [u32; 8],
    /// Their priorities.
    pub priorities: [u32; 8],
    /// Pending bits after all claims were completed.
    pub pending_after: u32,
    /// Supervisor status.
    pub sstatus: usize,
    /// Interrupt enable.
    pub sie: usize,
    /// Interrupt pending.
    pub sip: usize,
    /// Cause of the last trap.
    pub scause: usize,
    /// Interrupt pending, after all claims were completed.
    pub sip_after: usize,
}

/// What the words and registers say.
#[derive(Clone, Copy, Debug, PartialEq, Eq, Structural)]
pub struct PlatformReading {
    /// The controller's interrupt is pending.
    pub pending: bool,
    /// It is enabled.
    pub enabled: bool,
    /// The processor takes interrupts.
    pub sstatus_sie: bool,
    /// It takes external interrupts.
    pub sie_seie: bool,
    /// An external interrupt is pending.
    pub sip_seip: bool,
    /// The controller's interrupt is pending after all claims were completed.
    pub pending_after: bool,
    /// An external interrupt is pending after all claims were completed.
    pub sip_seip_after: bool,
}

impl Platform {
    /// Nothing was read.
    pub fn blank() -> (platform: Platform)
        ensures
            platform.priority == 0 && platform.threshold == 0 && platform.pending_after == 0,
            platform.sstatus == 0 && platform.sie == 0 && platform.sip == 0 && platform.scause == 0
                && platform.sip_after == 0,
            platform.pending@ =~= Seq::new(5, |i: int| 0u32),
            platform.enable@ =~= Seq::new(5, |i: int| 0u32),
            platform.sources@ =~= Seq::new(8, |i: int| 0u32),
            platform.priorities@ =~= Seq::new(8, |i: int| 0u32),
    {
        Platform {
            priority: 0,
            threshold: 0,
            pending: [0, 0, 0, 0, 0],
            enable: [0, 0, 0, 0, 0],
            sources: [0, 0, 0, 0, 0, 0, 0, 0],
            priorities: [0, 0, 0, 0, 0, 0, 0, 0],
            pending_after: 0,
            sstatus: 0,
            sie: 0,
            sip: 0,
            scause: 0,
            sip_after: 0,
        }
    }

    /// The word at a place; 0 where there is no such place.
    pub open spec fn word_at(self, slot: PlicSlot) -> u32 {
        match slot {
            PlicSlot::Priority => self.priority,
            PlicSlot::Threshold => self.threshold,
            PlicSlot::Pending(index) => if index < PLIC_WORDS {
                self.pending@[index as int]
            } else {
                0
            },
            PlicSlot::Enable(index) => if index < PLIC_WORDS {
                self.enable@[index as int]
            } else {
                0
            },
            PlicSlot::ClaimSource(index) => if index < ERROR_IRQ_TRACE_CAPACITY {
                self.sources@[index as int]
            } else {
                0
            },
            PlicSlot::ClaimPriority(index) => if index < ERROR_IRQ_TRACE_CAPACITY {
                self.priorities@[index as int]
            } else {
                0
            },
            PlicSlot::PendingAfter => self.pending_after,
        }
    }

    /// There is such a place.
    pub open spec fn has(slot: PlicSlot) -> bool {
        match slot {
            PlicSlot::Pending(index) | PlicSlot::Enable(index) => index < PLIC_WORDS,
            PlicSlot::ClaimSource(index) | PlicSlot::ClaimPriority(index) => index
                < ERROR_IRQ_TRACE_CAPACITY,
            _ => true,
        }
    }

    /// The register that was read.
    pub open spec fn register(self, csr: Csr) -> usize {
        match csr {
            Csr::SStatus => self.sstatus,
            Csr::Sie => self.sie,
            Csr::Sip => self.sip,
            Csr::SCause => self.scause,
            Csr::SipAfter => self.sip_after,
        }
    }

    /// Keeps a word of the interrupt controller.
    pub fn keep_word(&mut self, slot: PlicSlot, word: u32)
        ensures
            forall|other: PlicSlot| #[trigger]
                final(self).word_at(other) == (if other == slot && Platform::has(slot) {
                    word
                } else {
                    old(self).word_at(other)
                }),
            forall|csr: Csr| #[trigger] final(self).register(csr) == old(self).register(csr),
    {
        match slot {
            PlicSlot::Priority => {
                self.priority = word;
            },
            PlicSlot::Threshold => {
                self.threshold = word;
            },
            PlicSlot::Pending(index) => {
                if index < PLIC_WORDS {
                    self.pending[index] = word;
                }
            },
            PlicSlot::Enable(index) => {
                if index < PLIC_WORDS {
                    self.enable[index] = word;
                }
            },
            PlicSlot::ClaimSource(index) => {
                if index < ERROR_IRQ_TRACE_CAPACITY {
                    self.sources[index] = word;
                }
            },
            PlicSlot::ClaimPriority(index) => {
                if index < ERROR_IRQ_TRACE_CAPACITY {
                    self.priorities[index] = word;
                }
            },
            PlicSlot::PendingAfter => {
                self.pending_after = word;
            },
        }
    }

    /// Keeps a register of the processor.
    pub fn keep_register(&mut self, csr: Csr, value: usize)
        ensures
            forall|other: Csr| #[trigger]
                final(self).register(other) == (if other == csr {
                    value
                } else {
                    old(self).register(other)
                }),
            forall|slot: PlicSlot| #[trigger] final(self).word_at(slot) == old(self).word_at(slot),
    {
        match csr {
            Csr::SStatus => {
                self.sstatus = value;
            },
            Csr::Sie => {
                self.sie = value;
            },
            Csr::Sip => {
                self.sip = value;
            },
            Csr::SCause => {
                self.scause = value;
            },
            Csr::SipAfter => {
                self.sip_after = value;
            },
        }
    }

    /// The interrupt that a claim gave; 0 without one.
    pub fn source(&self, index: usize) -> (source: u32)
        ensures
            source == self.word_at(PlicSlot::ClaimSource(index)),
    {
        if index < ERROR_IRQ_TRACE_CAPACITY {
            self.sources[index]
        } else {
            0
        }
    }

    /// Tells what the words and registers say.
    pub fn reading(&self) -> (reading: PlatformReading)
        ensures
            reading == (PlatformReading {
                pending: self.word_at(PlicSlot::Pending(PLIC_SOURCE_GROUP)) & PLIC_SOURCE_MASK
                    != 0,
                enabled: self.word_at(PlicSlot::Enable(PLIC_SOURCE_GROUP)) & PLIC_SOURCE_MASK != 0,
                sstatus_sie: self.sstatus & 0x2 != 0,
                sie_seie: self.sie & 0x200 != 0,
                sip_seip: self.sip & 0x200 != 0,
                pending_after: self.pending_after & PLIC_SOURCE_MASK != 0,
                sip_seip_after: self.sip_after & 0x200 != 0,
            }),
    {
        PlatformReading {
            pending: self.pending[PLIC_SOURCE_GROUP] & PLIC_SOURCE_MASK != 0,
            enabled: self.enable[PLIC_SOURCE_GROUP] & PLIC_SOURCE_MASK != 0,
            sstatus_sie: self.sstatus & 0x2 != 0,
            sie_seie: self.sie & 0x200 != 0,
            sip_seip: self.sip & 0x200 != 0,
            pending_after: self.pending_after & PLIC_SOURCE_MASK != 0,
            sip_seip_after: self.sip_after & 0x200 != 0,
        }
    }
}

/// What the look at the platform ends with.
#[derive(Clone, Copy, Debug, PartialEq, Eq, Structural)]
pub struct ProbeEnd {
    /// Context of the processor.
    pub context: usize,
    /// Claims were attempted.
    pub attempted: bool,
    /// Number of claims.
    pub claim_count: usize,
}

/// Where the look at the platform stands.
#[derive(Clone, Copy, Debug, PartialEq, Eq, Structural)]
pub enum ProbePhase {
    /// Accesses are ordered.
    Fence,
    /// The processor is asked for.
    Cpu,
    /// The priority is read.
    Priority,
    /// The threshold is read.
    Threshold,
    /// A word of pending bits is read.
    Pending(usize),
    /// A word of enable bits is read.
    Enable(usize),
    /// A register of the processor is read.
    Register(Csr),
    /// The interrupts are counted.
    Entries,
    /// Interrupts are disabled.
    Disable,
    /// An interrupt is claimed.
    Claim(usize),
    /// Its priority is read.
    ClaimPriority(usize, u32),
    /// A claim is completed.
    Complete(usize),
    /// Accesses are ordered again.
    FenceAfter,
    /// The pending bits are read again.
    PendingAfter,
    /// Pending interrupts are read again.
    SipAfter,
    /// Interrupts are enabled again.
    Enabled,
}

/// A look at the interrupt controller and the processor after a read has ended.
/// If no interrupt arrived, pending ones are claimed and completed.
#[derive(Clone, Copy, Debug, PartialEq, Eq, Structural)]
pub struct Probe {
    /// Context of the processor.
    pub context: usize,
    /// Interrupts were enabled.
    pub irqs: bool,
    /// Claims so far.
    pub claims: usize,
    /// Where it stands.
    pub phase: ProbePhase,
}

impl Probe {
    /// The look before its first step.
    #[verifier::allow_in_spec]
    pub fn new() -> Probe
        returns
            (Probe { context: 0, irqs: false, claims: 0, phase: ProbePhase::Fence }),
    {
        Probe { context: 0, irqs: false, claims: 0, phase: ProbePhase::Fence }
    }

    /// The look in another phase.
    #[verifier::allow_in_spec]
    pub fn at(self, phase: ProbePhase) -> Step<Probe, ProbeEnd>
        returns
            (Step::<Probe, ProbeEnd>::Next(Probe { phase, ..self })),
    {
        Step::Next(Probe { phase, ..self })
    }

    /// The end.
    #[verifier::allow_in_spec]
    pub fn end(self, attempted: bool) -> Step<Probe, ProbeEnd>
        returns
            (Step::<Probe, ProbeEnd>::Done(
                ProbeEnd { context: self.context, attempted, claim_count: self.claims },
            )),
    {
        Step::Done(ProbeEnd { context: self.context, attempted, claim_count: self.claims })
    }

    /// Offset of the threshold of the context.
    #[verifier::allow_in_spec]
    pub fn threshold_offset(self) -> usize
        returns
            PLIC_CONTEXT_OFFSET.wrapping_add(self.context.wrapping_mul(PLIC_CONTEXT_STRIDE)),
    {
        PLIC_CONTEXT_OFFSET.wrapping_add(self.context.wrapping_mul(PLIC_CONTEXT_STRIDE))
    }

    /// Offset of the register that claims and completes interrupts.
    #[verifier::allow_in_spec]
    pub fn claim_offset(self) -> usize
        returns
            self.threshold_offset().wrapping_add(4),
    {
        self.threshold_offset().wrapping_add(4)
    }

    /// Offset of a word of enable bits.
    #[verifier::allow_in_spec]
    pub fn enable_offset(self, index: usize) -> usize
        returns
            PLIC_ENABLE_OFFSET.wrapping_add(
                self.context.wrapping_mul(PLIC_ENABLE_CONTEXT_STRIDE),
            ).wrapping_add(index.wrapping_mul(4)),
    {
        PLIC_ENABLE_OFFSET.wrapping_add(
            self.context.wrapping_mul(PLIC_ENABLE_CONTEXT_STRIDE),
        ).wrapping_add(index.wrapping_mul(4))
    }

    /// Offset of a word of pending bits.
    #[verifier::allow_in_spec]
    pub fn pending_offset(index: usize) -> usize
        returns
            PLIC_PENDING_OFFSET.wrapping_add(index.wrapping_mul(4)),
    {
        PLIC_PENDING_OFFSET.wrapping_add(index.wrapping_mul(4))
    }
}

impl Machine for Probe {
    type Act = ProbeAct;

    type Event = ProbeReply;

    type Out = ProbeEnd;

    open spec fn op(self) -> ProbeAct {
        match self.phase {
            ProbePhase::Fence | ProbePhase::FenceAfter => ProbeAct::Fence,
            ProbePhase::Cpu => ProbeAct::Cpu,
            ProbePhase::Priority => ProbeAct::ReadPlic {
                offset: VF2_PLIC_SDIO1_SOURCE.wrapping_mul(4),
                slot: PlicSlot::Priority,
            },
            ProbePhase::Threshold => ProbeAct::ReadPlic {
                offset: self.threshold_offset(),
                slot: PlicSlot::Threshold,
            },
            ProbePhase::Pending(index) => ProbeAct::ReadPlic {
                offset: Probe::pending_offset(index),
                slot: PlicSlot::Pending(index),
            },
            ProbePhase::Enable(index) => ProbeAct::ReadPlic {
                offset: self.enable_offset(index),
                slot: PlicSlot::Enable(index),
            },
            ProbePhase::Register(csr) => ProbeAct::ReadCsr(csr),
            ProbePhase::Entries => ProbeAct::Entries,
            ProbePhase::Disable => ProbeAct::DisableIrqs,
            ProbePhase::Claim(index) => ProbeAct::ReadPlic {
                offset: self.claim_offset(),
                slot: PlicSlot::ClaimSource(index),
            },
            ProbePhase::ClaimPriority(index, source) => ProbeAct::ReadPlic {
                offset: (source as usize).wrapping_mul(4),
                slot: PlicSlot::ClaimPriority(index),
            },
            ProbePhase::Complete(index) => ProbeAct::Complete {
                offset: self.claim_offset(),
                index,
            },
            ProbePhase::PendingAfter => ProbeAct::ReadPlic {
                offset: Probe::pending_offset(PLIC_SOURCE_GROUP),
                slot: PlicSlot::PendingAfter,
            },
            ProbePhase::SipAfter => ProbeAct::ReadCsr(Csr::SipAfter),
            ProbePhase::Enabled => ProbeAct::EnableIrqs,
        }
    }

    fn request(&self) -> (op: ProbeAct) {
        match self.phase {
            ProbePhase::Fence | ProbePhase::FenceAfter => ProbeAct::Fence,
            ProbePhase::Cpu => ProbeAct::Cpu,
            ProbePhase::Priority => ProbeAct::ReadPlic {
                offset: VF2_PLIC_SDIO1_SOURCE.wrapping_mul(4),
                slot: PlicSlot::Priority,
            },
            ProbePhase::Threshold => ProbeAct::ReadPlic {
                offset: self.threshold_offset(),
                slot: PlicSlot::Threshold,
            },
            ProbePhase::Pending(index) => ProbeAct::ReadPlic {
                offset: Probe::pending_offset(index),
                slot: PlicSlot::Pending(index),
            },
            ProbePhase::Enable(index) => ProbeAct::ReadPlic {
                offset: self.enable_offset(index),
                slot: PlicSlot::Enable(index),
            },
            ProbePhase::Register(csr) => ProbeAct::ReadCsr(csr),
            ProbePhase::Entries => ProbeAct::Entries,
            ProbePhase::Disable => ProbeAct::DisableIrqs,
            ProbePhase::Claim(index) => ProbeAct::ReadPlic {
                offset: self.claim_offset(),
                slot: PlicSlot::ClaimSource(index),
            },
            ProbePhase::ClaimPriority(index, source) => ProbeAct::ReadPlic {
                offset: (source as usize).wrapping_mul(4),
                slot: PlicSlot::ClaimPriority(index),
            },
            ProbePhase::Complete(index) => ProbeAct::Complete {
                offset: self.claim_offset(),
                index,
            },
            ProbePhase::PendingAfter => ProbeAct::ReadPlic {
                offset: Probe::pending_offset(PLIC_SOURCE_GROUP),
                slot: PlicSlot::PendingAfter,
            },
            ProbePhase::SipAfter => ProbeAct::ReadCsr(Csr::SipAfter),
            ProbePhase::Enabled => ProbeAct::EnableIrqs,
        }
    }

    open spec fn next(self, reply: ProbeReply) -> Step<Probe, ProbeEnd> {
        match self.phase {
            ProbePhase::Fence => self.at(ProbePhase::Cpu),
            ProbePhase::Cpu => Step::Next(
                Probe {
                    context: reply.number().wrapping_add(1).wrapping_mul(2),
                    phase: ProbePhase::Priority,
                    ..self
                },
            ),
            ProbePhase::Priority => self.at(ProbePhase::Threshold),
            ProbePhase::Threshold => self.at(ProbePhase::Pending(0)),
            ProbePhase::Pending(index) => if index < 4 {
                self.at(ProbePhase::Pending(index.wrapping_add(1)))
            } else {
                self.at(ProbePhase::Enable(0))
            },
            ProbePhase::Enable(index) => if index < 4 {
                self.at(ProbePhase::Enable(index.wrapping_add(1)))
            } else {
                self.at(ProbePhase::Register(Csr::SStatus))
            },
            ProbePhase::Register(csr) => match csr {
                Csr::SStatus => self.at(ProbePhase::Register(Csr::Sie)),
                Csr::Sie => self.at(ProbePhase::Register(Csr::Sip)),
                Csr::Sip => self.at(ProbePhase::Register(Csr::SCause)),
                Csr::SCause | Csr::SipAfter => self.at(ProbePhase::Entries),
            },
            ProbePhase::Entries => if reply.number() == 0 {
                self.at(ProbePhase::Disable)
            } else {
                self.end(false)
            },
            ProbePhase::Disable => Step::Next(
                Probe { irqs: reply.flag(), claims: 0, phase: ProbePhase::Claim(0), ..self },
            ),
            ProbePhase::Claim(index) => if reply.word() != 0 {
                self.at(ProbePhase::ClaimPriority(index, reply.word()))
            } else if self.claims > 0 {
                self.at(ProbePhase::Complete(0))
            } else {
                self.at(ProbePhase::FenceAfter)
            },
            ProbePhase::ClaimPriority(index, _) => {
                let later = Probe { claims: index.wrapping_add(1), ..self };
                if index.wrapping_add(1) < ERROR_IRQ_TRACE_CAPACITY {
                    later.at(ProbePhase::Claim(index.wrapping_add(1)))
                } else {
                    later.at(ProbePhase::Complete(0))
                }
            },
            ProbePhase::Complete(index) => if index.wrapping_add(1) < self.claims {
                self.at(ProbePhase::Complete(index.wrapping_add(1)))
            } else {
                self.at(ProbePhase::FenceAfter)
            },
            ProbePhase::FenceAfter => self.at(ProbePhase::PendingAfter),
            ProbePhase::PendingAfter => self.at(ProbePhase::SipAfter),
            ProbePhase::SipAfter => if self.irqs {
                self.at(ProbePhase::Enabled)
            } else {
                self.end(true)
            },
            ProbePhase::Enabled => self.end(true),
        }
    }

    fn step(self, reply: ProbeReply) -> (step: Step<Probe, ProbeEnd>) {
        match self.phase {
            ProbePhase::Fence => self.at(ProbePhase::Cpu),
            ProbePhase::Cpu => Step::Next(
                Probe {
                    context: reply.number().wrapping_add(1).wrapping_mul(2),
                    phase: ProbePhase::Priority,
                    ..self
                },
            ),
            ProbePhase::Priority => self.at(ProbePhase::Threshold),
            ProbePhase::Threshold => self.at(ProbePhase::Pending(0)),
            ProbePhase::Pending(index) => if index < 4 {
                self.at(ProbePhase::Pending(index.wrapping_add(1)))
            } else {
                self.at(ProbePhase::Enable(0))
            },
            ProbePhase::Enable(index) => if index < 4 {
                self.at(ProbePhase::Enable(index.wrapping_add(1)))
            } else {
                self.at(ProbePhase::Register(Csr::SStatus))
            },
            ProbePhase::Register(csr) => match csr {
                Csr::SStatus => self.at(ProbePhase::Register(Csr::Sie)),
                Csr::Sie => self.at(ProbePhase::Register(Csr::Sip)),
                Csr::Sip => self.at(ProbePhase::Register(Csr::SCause)),
                Csr::SCause | Csr::SipAfter => self.at(ProbePhase::Entries),
            },
            ProbePhase::Entries => if reply.number() == 0 {
                self.at(ProbePhase::Disable)
            } else {
                self.end(false)
            },
            ProbePhase::Disable => Step::Next(
                Probe { irqs: reply.flag(), claims: 0, phase: ProbePhase::Claim(0), ..self },
            ),
            ProbePhase::Claim(index) => if reply.word() != 0 {
                self.at(ProbePhase::ClaimPriority(index, reply.word()))
            } else if self.claims > 0 {
                self.at(ProbePhase::Complete(0))
            } else {
                self.at(ProbePhase::FenceAfter)
            },
            ProbePhase::ClaimPriority(index, _) => {
                let later = Probe { claims: index.wrapping_add(1), ..self };
                if index.wrapping_add(1) < ERROR_IRQ_TRACE_CAPACITY {
                    later.at(ProbePhase::Claim(index.wrapping_add(1)))
                } else {
                    later.at(ProbePhase::Complete(0))
                }
            },
            ProbePhase::Complete(index) => if index.wrapping_add(1) < self.claims {
                self.at(ProbePhase::Complete(index.wrapping_add(1)))
            } else {
                self.at(ProbePhase::FenceAfter)
            },
            ProbePhase::FenceAfter => self.at(ProbePhase::PendingAfter),
            ProbePhase::PendingAfter => self.at(ProbePhase::SipAfter),
            ProbePhase::SipAfter => if self.irqs {
                self.at(ProbePhase::Enabled)
            } else {
                self.end(true)
            },
            ProbePhase::Enabled => self.end(true),
        }
    }
}

/// A course of operations and replies.
pub type ProbeCourse = Seq<(ProbeAct, ProbeReply)>;

/// Interrupts that were claimed: claims that gave one.
pub open spec fn claimed(trace: ProbeCourse) -> int
    decreases trace.len(),
{
    if trace.len() == 0 {
        0
    } else {
        claimed(trace.drop_last()) + (match trace.last().0 {
            ProbeAct::ReadPlic { slot: PlicSlot::ClaimSource(_), .. } => if trace.last().1.word()
                != 0 {
                1int
            } else {
                0int
            },
            _ => 0int,
        })
    }
}

/// The claims that were completed, in order.
pub open spec fn completed(trace: ProbeCourse) -> Seq<usize>
    decreases trace.len(),
{
    if trace.len() == 0 {
        Seq::empty()
    } else {
        match trace.last().0 {
            ProbeAct::Complete { index, .. } => completed(trace.drop_last()).push(index),
            _ => completed(trace.drop_last()),
        }
    }
}

/// Interrupts are disabled that were enabled before.
pub open spec fn masked(trace: ProbeCourse) -> bool
    decreases trace.len(),
{
    trace.len() > 0 && match trace.last().0 {
        ProbeAct::DisableIrqs => trace.last().1.flag(),
        ProbeAct::EnableIrqs => false,
        _ => masked(trace.drop_last()),
    }
}

/// The claims were completed from the first one on.
spec fn in_order(done: Seq<usize>) -> bool {
    forall|i: int| 0 <= i < done.len() ==> #[trigger] done[i] == i
}

spec fn probe_invariant(trace: ProbeCourse, at: Step<Probe, ProbeEnd>) -> bool {
    &&& in_order(completed(trace))
    &&& match at {
        Step::Next(m) => {
            &&& m.claims <= ERROR_IRQ_TRACE_CAPACITY
            &&& match m.phase {
                ProbePhase::Claim(index) => {
                    &&& index < ERROR_IRQ_TRACE_CAPACITY && m.claims == index
                    &&& claimed(trace) == index && completed(trace).len() == 0
                    &&& masked(trace) == m.irqs
                },
                ProbePhase::ClaimPriority(index, _) => {
                    &&& index < ERROR_IRQ_TRACE_CAPACITY && m.claims == index
                    &&& claimed(trace) == index + 1 && completed(trace).len() == 0
                    &&& masked(trace) == m.irqs
                },
                ProbePhase::Complete(index) => {
                    &&& index < m.claims
                    &&& claimed(trace) == m.claims && completed(trace).len() == index
                    &&& masked(trace) == m.irqs
                },
                ProbePhase::FenceAfter | ProbePhase::PendingAfter | ProbePhase::SipAfter => {
                    &&& claimed(trace) == m.claims && completed(trace).len() == m.claims
                    &&& masked(trace) == m.irqs
                },
                ProbePhase::Enabled => {
                    &&& claimed(trace) == m.claims && completed(trace).len() == m.claims
                    &&& masked(trace)
                },
                _ => {
                    &&& m.claims == 0
                    &&& claimed(trace) == 0 && completed(trace).len() == 0
                    &&& !masked(trace)
                },
            }
        },
        Step::Done(end) => {
            &&& claimed(trace) == end.claim_count
            &&& completed(trace).len() == end.claim_count
            &&& !masked(trace)
        },
    }
}

proof fn lemma_probe_step(trace: ProbeCourse, m: Probe, reply: ProbeReply)
    requires
        probe_invariant(trace, Step::Next(m)),
    ensures
        probe_invariant(trace.push((m.op(), reply)), m.next(reply)),
{
    let after = trace.push((m.op(), reply));
    assert(after.drop_last() =~= trace);
    assert(after.last() == (m.op(), reply));
}

/// Every interrupt that the look at the platform claims it also completes, once
/// and in order, and interrupts are left as they were found.
pub proof fn law_every_claim_is_completed(replies: Seq<ProbeReply>)
    ensures
        ({
            let done = run(Step::Next(Probe::new()), replies);
            done.at matches Step::Done(end) ==> {
                &&& claimed(done.trace) == end.claim_count <= ERROR_IRQ_TRACE_CAPACITY
                &&& completed(done.trace) == Seq::new(end.claim_count as nat, |i: int| i as usize)
                &&& !masked(done.trace)
            }
        }),
{
    let start = Step::<Probe, ProbeEnd>::Next(Probe::new());
    let inv = |trace: ProbeCourse, at: Step<Probe, ProbeEnd>|
        {
            &&& probe_invariant(trace, at)
            &&& at matches Step::Done(end) ==> end.claim_count <= ERROR_IRQ_TRACE_CAPACITY
        };
    assert forall|trace: ProbeCourse, m: Probe, reply: ProbeReply|
        inv(trace, Step::Next(m)) implies #[trigger] inv(
        trace.push((m.op(), reply)),
        m.next(reply),
    ) by {
        lemma_probe_step(trace, m, reply);
    }
    lemma_run_invariant(start, replies, inv);
    let done = run(start, replies);
    if let Step::Done(end) = done.at {
        assert(completed(done.trace) =~= Seq::new(
            end.claim_count as nat,
            |i: int| i as usize,
        ));
    }
}

/// Why a test of reads cannot run.
#[derive(Clone, Copy, Debug, PartialEq, Eq, Structural)]
pub enum Refusal {
    /// The card does not hold the region.
    Region,
    /// There is no transfer buffer of full size.
    DmaBuffer,
    /// The card has more blocks than can be addressed.
    Capacity,
}

/// What speaks against a test of reads.
pub open spec fn refusal(num_blocks: u64, dma_size: usize) -> Option<Refusal> {
    if TEST_START_LBA as u64 + READ_REGION_BLOCKS as u64 > num_blocks {
        Some(Refusal::Region)
    } else if dma_size < DMA_BUFFER_SIZE {
        Some(Refusal::DmaBuffer)
    } else {
        None
    }
}

/// Checks whether a test of reads can run.
pub fn check_test_region(num_blocks: u64, dma_size: usize) -> (refused: Option<Refusal>)
    ensures
        refused == refusal(num_blocks, dma_size),
{
    if TEST_START_LBA as u64 + READ_REGION_BLOCKS as u64 > num_blocks {
        Some(Refusal::Region)
    } else if dma_size < DMA_BUFFER_SIZE {
        Some(Refusal::DmaBuffer)
    } else {
        None
    }
}

/// What was seen of the failed read.
#[derive(Clone, Copy, Debug, PartialEq, Eq, Structural)]
pub struct ErrorIrqSeen {
    /// The read came to its end.
    pub ready: bool,
    /// From the last interrupt to the end of the wait.
    pub entry_to_resume_ns: u64,
    /// From the last notification to the end of the wait.
    pub notify_to_resume_ns: u64,
    /// Raw status at the end.
    pub rintsts: u32,
    /// DMA status at the end.
    pub idsts: u32,
    /// Interrupt mask at the end.
    pub intmask: u32,
    /// Interrupt enable of the DMA controller at the end.
    pub idinten: u32,
    /// Control register at the end.
    pub ctrl: u32,
    /// The interrupts.
    pub counts: TraceCounts,
}

/// The state of driver and controller after the test.
#[derive(Clone, Copy, Debug, PartialEq, Eq, Structural)]
pub struct Aftermath {
    /// The driver is out of order.
    pub faulted: bool,
    /// The engine could not be stopped.
    pub reset_failed: bool,
    /// Bus mode.
    pub bmod: u32,
    /// Control.
    pub ctrl: u32,
    /// Interrupt mask.
    pub intmask: u32,
    /// Interrupt enable of the DMA controller.
    pub idinten: u32,
}

impl ErrorIrqSeen {
    /// The controller or the DMA engine reported an error.
    #[verifier::allow_in_spec]
    pub fn error_observed(self) -> bool
        returns
            RIntSts(self.rintsts).error() || IdSts(self.idsts).error(),
    {
        RIntSts(self.rintsts).error() || IdSts(self.idsts).error()
    }

    /// The interrupts that matter were enabled: read timeout, end of data and
    /// response error of the controller; abnormal events, card errors and received
    /// data of the engine; and both of them as a whole.
    #[verifier::allow_in_spec]
    pub fn config_ok(self) -> bool
        returns
            self.intmask & RIntSts::DATA_READ_TIMEOUT != 0u32 && self.intmask
                & RIntSts::DATA_TRANSFER_OVER != 0u32 && self.intmask & RIntSts::RESPONSE_ERROR
                != 0u32 && self.idinten & IdSts::AIS != 0u32 && self.idinten & IdSts::CES != 0u32
                && self.idinten & IdSts::RI != 0u32 && Ctrl(self.ctrl).int_enable() && Ctrl(
                self.ctrl,
            ).use_internal_dmac(),
    {
        self.intmask & RIntSts::DATA_READ_TIMEOUT != 0 && self.intmask
            & RIntSts::DATA_TRANSFER_OVER != 0 && self.intmask & RIntSts::RESPONSE_ERROR != 0
            && self.idinten & IdSts::AIS != 0 && self.idinten & IdSts::CES != 0 && self.idinten
            & IdSts::RI != 0 && Ctrl(self.ctrl).int_enable() && Ctrl(
            self.ctrl,
        ).use_internal_dmac()
    }
}

/// The test has passed: the read failed by a hardware error that an interrupt
/// reported, the interrupts were configured and traced as they should, the engine
/// was stopped, and the driver refuses the next read.
pub open spec fn error_irq_passed(
    result: SdMmcResult,
    seen: ErrorIrqSeen,
    next_read: SdMmcResult,
    after: Aftermath,
) -> bool {
    let failed = match result {
        Err(error) => error == SdMmcError::Hardware,
        Ok(_) => false,
    };
    let refused = match next_read {
        Err(error) => error == SdMmcError::DriverFaulted,
        Ok(_) => false,
    };
    failed && seen.ready && seen.entry_to_resume_ns != 0 && seen.notify_to_resume_ns != 0
        && seen.error_observed() && seen.config_ok() && seen.counts.complete() && after.faulted
        && !after.reset_failed && !BMod(after.bmod).de() && !Ctrl(after.ctrl).use_internal_dmac()
        && refused
}

/// Judges the test.
pub fn judge_error_irq(
    result: SdMmcResult,
    seen: ErrorIrqSeen,
    next_read: SdMmcResult,
    after: Aftermath,
) -> (passed: bool)
    ensures
        passed == error_irq_passed(result, seen, next_read, after),
{
    let failed = match result {
        Err(error) => error == SdMmcError::Hardware,
        Ok(_) => false,
    };
    let refused = match next_read {
        Err(error) => error == SdMmcError::DriverFaulted,
        Ok(_) => false,
    };
    failed && seen.ready && seen.entry_to_resume_ns != 0 && seen.notify_to_resume_ns != 0
        && seen.error_observed() && seen.config_ok() && seen.counts.complete() && after.faulted
        && !after.reset_failed && !BMod(after.bmod).de() && !Ctrl(after.ctrl).use_internal_dmac()
        && refused
}

/// What the test asks for.
#[derive(Clone, Copy, Debug, PartialEq, Eq, Structural)]
pub enum ErrorIrqAct {
    /// Tell what the card and the driver look like.
    Card,
    /// Read the clock.
    Now,
    /// Read this block asynchronously, without checking that the card has it.
    ReadBeyond(u32),
    /// Tell what was seen of the read.
    Collect,
    /// Read the first block of the region.
    NextRead,
    /// Tell the state of driver and controller.
    Aftermath,
}

/// What comes back.
#[derive(Clone, Copy, Debug, PartialEq, Eq)]
pub enum ErrorIrqReply {
    /// What the card and the driver look like.
    Card {
        /// Blocks of the card.
        num_blocks: u64,
        /// Bytes of the transfer buffer, 0 without one.
        dma_size: usize,
    },
    /// The time.
    Time(u64),
    /// How the read ended.
    Outcome(SdMmcResult),
    /// What was seen.
    Seen(ErrorIrqSeen),
    /// The state of driver and controller.
    Aftermath(Aftermath),
}

/// What the test ends with.
#[derive(Clone, Copy, Debug, PartialEq, Eq)]
pub struct ErrorIrqEnd {
    /// Time that the read took.
    pub elapsed_ns: u64,
    /// How it ended.
    pub result: SdMmcResult,
    /// What was seen of it.
    pub seen: ErrorIrqSeen,
    /// How the next read ended.
    pub next_read: SdMmcResult,
    /// The state of driver and controller.
    pub after: Aftermath,
    /// The test has passed.
    pub passed: bool,
}

/// Where the test stands.
#[derive(Clone, Copy, Debug, PartialEq, Eq)]
pub enum ErrorIrqPhase {
    /// The card is looked at.
    Card,
    /// The start is timed.
    Start(u32),
    /// The block behind the last one is read.
    Read(u32, u64),
    /// The end is timed.
    End(u64, SdMmcResult),
    /// What was seen is collected.
    Collect(u64, SdMmcResult),
    /// The next read is tried.
    NextRead(u64, SdMmcResult, ErrorIrqSeen),
    /// Driver and controller are looked at.
    Aftermath(u64, SdMmcResult, ErrorIrqSeen, SdMmcResult),
}

/// The test of the interrupt path: a read behind the end of the card.
#[derive(Clone, Copy, Debug, PartialEq, Eq)]
pub struct ErrorIrqTest {
    /// Where it stands.
    pub phase: ErrorIrqPhase,
}

/// How the test ends.
pub type ErrorIrqOut = Result<ErrorIrqEnd, Refusal>;

impl ErrorIrqTest {
    /// The test that is about to begin.
    #[verifier::allow_in_spec]
    pub fn new() -> ErrorIrqTest
        returns
            (ErrorIrqTest { phase: ErrorIrqPhase::Card }),
    {
        ErrorIrqTest { phase: ErrorIrqPhase::Card }
    }

    /// The test in another phase.
    #[verifier::allow_in_spec]
    pub fn at(phase: ErrorIrqPhase) -> Step<ErrorIrqTest, ErrorIrqOut>
        returns
            (Step::<ErrorIrqTest, ErrorIrqOut>::Next(ErrorIrqTest { phase })),
    {
        Step::Next(ErrorIrqTest { phase })
    }
}

impl ErrorIrqReply {
    /// The time; 0 without one.
    #[verifier::allow_in_spec]
    pub fn time(self) -> u64
        returns
            (match self {
                ErrorIrqReply::Time(time) => time,
                _ => 0,
            }),
    {
        match self {
            ErrorIrqReply::Time(time) => time,
            _ => 0,
        }
    }

    /// How the read ended. Without an answer it counts as refused.
    #[verifier::allow_in_spec]
    pub fn outcome(self) -> SdMmcResult
        returns
            (match self {
                ErrorIrqReply::Outcome(result) => result,
                _ => Err(SdMmcError::InvalidParameter),
            }),
    {
        match self {
            ErrorIrqReply::Outcome(result) => result,
            _ => Err(SdMmcError::InvalidParameter),
        }
    }

    /// What was seen; nothing without an answer.
    #[verifier::allow_in_spec]
    pub fn seen(self) -> ErrorIrqSeen
        returns
            (match self {
                ErrorIrqReply::Seen(seen) => seen,
                _ => ErrorIrqSeen {
                    ready: false,
                    entry_to_resume_ns: 0,
                    notify_to_resume_ns: 0,
                    rintsts: 0,
                    idsts: 0,
                    intmask: 0,
                    idinten: 0,
                    ctrl: 0,
                    counts: (TraceCounts {
                        entries: 0,
                        should_notify: 0,
                        notified: 0,
                        woken: 0,
                    }),
                },
            }),
    {
        match self {
            ErrorIrqReply::Seen(seen) => seen,
            _ => ErrorIrqSeen {
                ready: false,
                entry_to_resume_ns: 0,
                notify_to_resume_ns: 0,
                rintsts: 0,
                idsts: 0,
                intmask: 0,
                idinten: 0,
                ctrl: 0,
                counts: TraceCounts { entries: 0, should_notify: 0, notified: 0, woken: 0 },
            },
        }
    }

    /// The state of driver and controller; in order without an answer.
    #[verifier::allow_in_spec]
    pub fn aftermath(self) -> Aftermath
        returns
            (match self {
                ErrorIrqReply::Aftermath(after) => after,
                _ => Aftermath {
                    faulted: false,
                    reset_failed: false,
                    bmod: 0,
                    ctrl: 0,
                    intmask: 0,
                    idinten: 0,
                },
            }),
    {
        match self {
            ErrorIrqReply::Aftermath(after) => after,
            _ => Aftermath {
                faulted: false,
                reset_failed: false,
                bmod: 0,
                ctrl: 0,
                intmask: 0,
                idinten: 0,
            },
        }
    }
}

impl Machine for ErrorIrqTest {
    type Act = ErrorIrqAct;

    type Event = ErrorIrqReply;

    type Out = ErrorIrqOut;

    open spec fn op(self) -> ErrorIrqAct {
        match self.phase {
            ErrorIrqPhase::Card => ErrorIrqAct::Card,
            ErrorIrqPhase::Start(_) => ErrorIrqAct::Now,
            ErrorIrqPhase::Read(lba, _) => ErrorIrqAct::ReadBeyond(lba),
            ErrorIrqPhase::End(_, _) => ErrorIrqAct::Now,
            ErrorIrqPhase::Collect(_, _) => ErrorIrqAct::Collect,
            ErrorIrqPhase::NextRead(_, _, _) => ErrorIrqAct::NextRead,
            ErrorIrqPhase::Aftermath(_, _, _, _) => ErrorIrqAct::Aftermath,
        }
    }

    fn request(&self) -> (op: ErrorIrqAct) {
        match self.phase {
            ErrorIrqPhase::Card => ErrorIrqAct::Card,
            ErrorIrqPhase::Start(_) => ErrorIrqAct::Now,
            ErrorIrqPhase::Read(lba, _) => ErrorIrqAct::ReadBeyond(lba),
            ErrorIrqPhase::End(_, _) => ErrorIrqAct::Now,
            ErrorIrqPhase::Collect(_, _) => ErrorIrqAct::Collect,
            ErrorIrqPhase::NextRead(_, _, _) => ErrorIrqAct::NextRead,
            ErrorIrqPhase::Aftermath(_, _, _, _) => ErrorIrqAct::Aftermath,
        }
    }

    open spec fn next(self, reply: ErrorIrqReply) -> Step<ErrorIrqTest, ErrorIrqOut> {
        match self.phase {
            ErrorIrqPhase::Card => {
                let (num_blocks, dma_size): (u64, usize) = match reply {
                    ErrorIrqReply::Card { num_blocks, dma_size } => (num_blocks, dma_size),
                    _ => (0, 0),
                };
                match refusal(num_blocks, dma_size) {
                    Some(reason) => Step::Done(Err(reason)),
                    None => if num_blocks > u32::MAX as u64 {
                        Step::Done(Err(Refusal::Capacity))
                    } else {
                        ErrorIrqTest::at(ErrorIrqPhase::Start(num_blocks as u32))
                    },
                }
            },
            ErrorIrqPhase::Start(lba) => ErrorIrqTest::at(
                ErrorIrqPhase::Read(lba, reply.time()),
            ),
            ErrorIrqPhase::Read(_, started) => ErrorIrqTest::at(
                ErrorIrqPhase::End(started, reply.outcome()),
            ),
            ErrorIrqPhase::End(started, result) => ErrorIrqTest::at(
                ErrorIrqPhase::Collect(reply.time().saturating_sub(started), result),
            ),
            ErrorIrqPhase::Collect(elapsed, result) => ErrorIrqTest::at(
                ErrorIrqPhase::NextRead(elapsed, result, reply.seen()),
            ),
            ErrorIrqPhase::NextRead(elapsed, result, seen) => ErrorIrqTest::at(
                ErrorIrqPhase::Aftermath(elapsed, result, seen, reply.outcome()),
            ),
            ErrorIrqPhase::Aftermath(elapsed_ns, result, seen, next_read) => Step::Done(
                Ok(
                    ErrorIrqEnd {
                        elapsed_ns,
                        result,
                        seen,
                        next_read,
                        after: reply.aftermath(),
                        passed: error_irq_passed(result, seen, next_read, reply.aftermath()),
                    },
                ),
            ),
        }
    }

    fn step(self, reply: ErrorIrqReply) -> (step: Step<ErrorIrqTest, ErrorIrqOut>) {
        match self.phase {
            ErrorIrqPhase::Card => {
                let (num_blocks, dma_size): (u64, usize) = match reply {
                    ErrorIrqReply::Card { num_blocks, dma_size } => (num_blocks, dma_size),
                    _ => (0, 0),
                };
                match check_test_region(num_blocks, dma_size) {
                    Some(reason) => Step::Done(Err(reason)),
                    None => if num_blocks > u32::MAX as u64 {
                        Step::Done(Err(Refusal::Capacity))
                    } else {
                        ErrorIrqTest::at(ErrorIrqPhase::Start(num_blocks as u32))
                    },
                }
            },
            ErrorIrqPhase::Start(lba) => ErrorIrqTest::at(
                ErrorIrqPhase::Read(lba, reply.time()),
            ),
            ErrorIrqPhase::Read(_, started) => ErrorIrqTest::at(
                ErrorIrqPhase::End(started, reply.outcome()),
            ),
            ErrorIrqPhase::End(started, result) => ErrorIrqTest::at(
                ErrorIrqPhase::Collect(reply.time().saturating_sub(started), result),
            ),
            ErrorIrqPhase::Collect(elapsed, result) => ErrorIrqTest::at(
                ErrorIrqPhase::NextRead(elapsed, result, reply.seen()),
            ),
            ErrorIrqPhase::NextRead(elapsed, result, seen) => ErrorIrqTest::at(
                ErrorIrqPhase::Aftermath(elapsed, result, seen, reply.outcome()),
            ),
            ErrorIrqPhase::Aftermath(elapsed_ns, result, seen, next_read) => Step::Done(
                Ok(
                    ErrorIrqEnd {
                        elapsed_ns,
                        result,
                        seen,
                        next_read,
                        after: reply.aftermath(),
                        passed: judge_error_irq(result, seen, next_read, reply.aftermath()),
                    },
                ),
            ),
        }
    }
}

/// A course of the test.
pub type ErrorIrqCourse = Seq<(ErrorIrqAct, ErrorIrqReply)>;

/// The card admits the test: it holds the region, there is a transfer buffer, and
/// the block behind its last one has a number.
pub open spec fn admitted(reply: ErrorIrqReply) -> bool {
    reply matches ErrorIrqReply::Card { num_blocks, dma_size } && refusal(num_blocks, dma_size)
        is None && num_blocks <= u32::MAX
}

/// The test, as far as it has come, has done what it is to do, in order: it looked
/// at the card, read the block behind the last one between two looks at the clock,
/// collected what was seen, tried another read and looked at what is left.
pub open spec fn scripted(trace: ErrorIrqCourse) -> bool {
    &&& trace.len() <= 7
    &&& trace.len() > 0 ==> trace[0].0 is Card
    &&& trace.len() > 1 ==> admitted(trace[0].1) && trace[1].0 is Now
    &&& trace.len() > 2 ==> trace[2].0 == ErrorIrqAct::ReadBeyond(
        trace[0].1->Card_num_blocks as u32,
    )
    &&& trace.len() > 3 ==> trace[3].0 is Now
    &&& trace.len() > 4 ==> trace[4].0 is Collect
    &&& trace.len() > 5 ==> trace[5].0 is NextRead
    &&& trace.len() > 6 ==> trace[6].0 is Aftermath
}

spec fn error_irq_invariant(trace: ErrorIrqCourse, at: Step<ErrorIrqTest, ErrorIrqOut>) -> bool {
    &&& scripted(trace)
    &&& match at {
        Step::Next(m) => match m.phase {
            ErrorIrqPhase::Card => trace.len() == 0,
            ErrorIrqPhase::Start(lba) => trace.len() == 1 && admitted(trace[0].1) && lba
                == trace[0].1->Card_num_blocks,
            ErrorIrqPhase::Read(lba, started) => trace.len() == 2 && lba
                == trace[0].1->Card_num_blocks && started == trace[1].1.time(),
            ErrorIrqPhase::End(started, result) => trace.len() == 3 && started
                == trace[1].1.time() && result == trace[2].1.outcome(),
            ErrorIrqPhase::Collect(elapsed, result) => trace.len() == 4 && elapsed
                == trace[3].1.time().saturating_sub(trace[1].1.time()) && result
                == trace[2].1.outcome(),
            ErrorIrqPhase::NextRead(elapsed, result, seen) => trace.len() == 5 && elapsed
                == trace[3].1.time().saturating_sub(trace[1].1.time()) && result
                == trace[2].1.outcome() && seen == trace[4].1.seen(),
            ErrorIrqPhase::Aftermath(elapsed, result, seen, next_read) => trace.len() == 6
                && elapsed == trace[3].1.time().saturating_sub(trace[1].1.time()) && result
                == trace[2].1.outcome() && seen == trace[4].1.seen() && next_read
                == trace[5].1.outcome(),
        },
        Step::Done(out) => match out {
            Err(_) => trace.len() == 1 && !admitted(trace[0].1),
            Ok(end) => {
                &&& trace.len() == 7
                &&& end == ErrorIrqEnd {
                    elapsed_ns: trace[3].1.time().saturating_sub(trace[1].1.time()),
                    result: trace[2].1.outcome(),
                    seen: trace[4].1.seen(),
                    next_read: trace[5].1.outcome(),
                    after: trace[6].1.aftermath(),
                    passed: error_irq_passed(
                        trace[2].1.outcome(),
                        trace[4].1.seen(),
                        trace[5].1.outcome(),
                        trace[6].1.aftermath(),
                    ),
                }
            },
        },
    }
}

proof fn lemma_error_irq_step(trace: ErrorIrqCourse, m: ErrorIrqTest, reply: ErrorIrqReply)
    requires
        error_irq_invariant(trace, Step::Next(m)),
    ensures
        error_irq_invariant(trace.push((m.op(), reply)), m.next(reply)),
{
}

/// The test of the interrupt path keeps to its script. It reads nothing but the
/// block behind the last one and one block of its region, and writes nothing. It is
/// refused exactly on a card that does not admit it. It passes exactly if the read
/// behind the card failed as it should, was seen, and left a driver that refuses the
/// next read.
pub proof fn law_error_irq_test_keeps_to_its_script(replies: Seq<ErrorIrqReply>)
    ensures
        ({
            let done = run(Step::Next(ErrorIrqTest::new()), replies);
            let trace = done.trace;
            &&& scripted(trace)
            &&& match done.at {
                Step::Next(_) => true,
                Step::Done(Err(_)) => trace.len() == 1 && !admitted(trace[0].1),
                Step::Done(Ok(end)) => {
                    &&& trace.len() == 7
                    &&& end.elapsed_ns == trace[3].1.time().saturating_sub(trace[1].1.time())
                    &&& end.passed == error_irq_passed(
                        trace[2].1.outcome(),
                        trace[4].1.seen(),
                        trace[5].1.outcome(),
                        trace[6].1.aftermath(),
                    )
                },
            }
        }),
{
    let start = Step::<ErrorIrqTest, ErrorIrqOut>::Next(ErrorIrqTest::new());
    let inv = |trace: ErrorIrqCourse, at: Step<ErrorIrqTest, ErrorIrqOut>|
        error_irq_invariant(trace, at);
    assert forall|trace: ErrorIrqCourse, m: ErrorIrqTest, reply: ErrorIrqReply|
        inv(trace, Step::Next(m)) implies #[trigger] inv(
        trace.push((m.op(), reply)),
        m.next(reply),
    ) by {
        lemma_error_irq_step(trace, m, reply);
    }
    lemma_run_invariant(start, replies, inv);
}

} // verus!
