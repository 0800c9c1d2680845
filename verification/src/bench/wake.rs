//! How an asynchronous read was woken.

use crate::regs::{IdSts, RIntSts};
use vstd::prelude::*;

verus! {

/// Three quarters of the time that a command may take.
pub const COMMAND_FALLBACK: u64 = 1_500_000_000;

/// Three quarters of the time that a data phase may take.
pub const DATA_FALLBACK: u64 = 3_750_000_000;

/// What was seen of one asynchronous read.
#[derive(Clone, Copy, Debug, PartialEq, Eq, Structural)]
pub struct AsyncObservation {
    /// The read came to its end.
    pub ready: bool,
    /// Generation of its transfer.
    pub generation: usize,
    /// Interrupts that woke it.
    pub irq_events: usize,
    /// From the last interrupt to the end of the wait.
    pub entry_to_resume_ns: u64,
    /// From the last notification to the end of the wait.
    pub notify_to_resume_ns: u64,
    /// Time that the wait for the command phase took.
    pub command_wait_elapsed_ns: u64,
    /// Time that the wait for the data phase took.
    pub data_wait_elapsed_ns: u64,
    /// A wait ended by its deadline and not by an interrupt.
    pub deadline_fallback: bool,
    /// Raw status at the end.
    pub rintsts_bits: u32,
    /// DMA status at the end.
    pub idsts_bits: u32,
}

/// What happens to a read that may be observed.
#[derive(Clone, Copy, Debug, PartialEq, Eq, Structural)]
pub enum WakeEvent {
    /// Observation is switched on or off.
    Enable(bool),
    /// A transfer of a generation begins.
    Begin(usize),
    /// An interrupt notified the waiting task.
    Irq {
        /// Generation of the current transfer.
        generation: usize,
        /// Time of its arrival.
        entry_ns: u64,
        /// Time of the notification.
        notify_ns: u64,
    },
    /// The wait for the command phase is over.
    CommandWait {
        /// Generation of the transfer.
        generation: usize,
        /// The wait ran out of time.
        timed_out: bool,
        /// Time that it took.
        elapsed_ns: u64,
    },
    /// The wait for the data phase is over.
    Resume {
        /// Generation of the transfer.
        generation: usize,
        /// Time.
        now: u64,
        /// The wait ran out of time.
        timed_out: bool,
        /// Time that it took.
        elapsed_ns: u64,
        /// Raw status.
        rintsts: u32,
        /// DMA status.
        idsts: u32,
    },
}

/// Collects what is seen of asynchronous reads.
#[derive(Clone, Copy, Debug, PartialEq, Eq, Structural)]
pub struct WakeRecorder {
    /// Reads are observed.
    pub enabled: bool,
    /// Interrupts no longer count.
    pub closed: bool,
    /// Time of the last interrupt, 0 for none.
    pub entry_ns: u64,
    /// Time of the last notification, 0 for none.
    pub notify_ns: u64,
    /// What was seen.
    pub seen: AsyncObservation,
}

/// Time since a stamp; 0 without one.
#[verifier::allow_in_spec]
pub fn since(stamp: u64, now: u64) -> u64
    returns
        (if stamp == 0 {
            0
        } else {
            now.saturating_sub(stamp)
        }),
{
    if stamp == 0 {
        0
    } else {
        now.saturating_sub(stamp)
    }
}

/// The wait ended by its deadline: it ran out of time, or no interrupt came and
/// three quarters of the time had passed.
#[verifier::allow_in_spec]
pub fn fell_back(timed_out: bool, irq_events: usize, elapsed_ns: u64, threshold_ns: u64) -> bool
    returns
        timed_out || (irq_events == 0 && elapsed_ns >= threshold_ns),
{
    timed_out || (irq_events == 0 && elapsed_ns >= threshold_ns)
}

impl WakeRecorder {
    /// A recorder that observes nothing.
    #[verifier::allow_in_spec]
    pub fn idle() -> WakeRecorder
        returns
            (WakeRecorder {
                enabled: false,
                closed: true,
                entry_ns: 0,
                notify_ns: 0,
                seen: (AsyncObservation {
                    ready: false,
                    generation: 0,
                    irq_events: 0,
                    entry_to_resume_ns: 0,
                    notify_to_resume_ns: 0,
                    command_wait_elapsed_ns: 0,
                    data_wait_elapsed_ns: 0,
                    deadline_fallback: false,
                    rintsts_bits: 0,
                    idsts_bits: 0,
                }),
            }),
    {
        WakeRecorder {
            enabled: false,
            closed: true,
            entry_ns: 0,
            notify_ns: 0,
            seen: AsyncObservation {
                ready: false,
                generation: 0,
                irq_events: 0,
                entry_to_resume_ns: 0,
                notify_to_resume_ns: 0,
                command_wait_elapsed_ns: 0,
                data_wait_elapsed_ns: 0,
                deadline_fallback: false,
                rintsts_bits: 0,
                idsts_bits: 0,
            },
        }
    }

    /// The recorder after an event.
    pub open spec fn after(self, event: WakeEvent) -> WakeRecorder {
        match event {
            WakeEvent::Enable(enabled) => WakeRecorder {
                enabled,
                closed: self.closed || !enabled,
                ..self
            },
            WakeEvent::Begin(generation) => if self.enabled {
                WakeRecorder {
                    closed: false,
                    entry_ns: 0,
                    notify_ns: 0,
                    seen: AsyncObservation {
                        ready: false,
                        generation,
                        irq_events: 0,
                        entry_to_resume_ns: 0,
                        notify_to_resume_ns: 0,
                        command_wait_elapsed_ns: 0,
                        data_wait_elapsed_ns: 0,
                        deadline_fallback: false,
                        rintsts_bits: 0,
                        idsts_bits: 0,
                    },
                    ..self
                }
            } else {
                WakeRecorder {
                    closed: true,
                    seen: AsyncObservation { ready: false, generation: 0, ..self.seen },
                    ..self
                }
            },
            WakeEvent::Irq { generation, entry_ns, notify_ns } => if self.enabled
                && self.seen.generation == generation && !self.closed && !self.seen.ready {
                WakeRecorder {
                    entry_ns,
                    notify_ns,
                    seen: AsyncObservation {
                        irq_events: self.seen.irq_events.wrapping_add(1),
                        ..self.seen
                    },
                    ..self
                }
            } else {
                self
            },
            WakeEvent::CommandWait { generation, timed_out, elapsed_ns } => if self.enabled
                && self.seen.generation == generation {
                WakeRecorder {
                    seen: AsyncObservation {
                        command_wait_elapsed_ns: elapsed_ns,
                        deadline_fallback: self.seen.deadline_fallback || fell_back(
                            timed_out,
                            self.seen.irq_events,
                            elapsed_ns,
                            COMMAND_FALLBACK,
                        ),
                        ..self.seen
                    },
                    ..self
                }
            } else {
                self
            },
            WakeEvent::Resume { generation, now, timed_out, elapsed_ns, rintsts, idsts } => if
            self.enabled && self.seen.generation == generation {
                WakeRecorder {
                    closed: true,
                    seen: AsyncObservation {
                        ready: true,
                        entry_to_resume_ns: since(self.entry_ns, now),
                        notify_to_resume_ns: since(self.notify_ns, now),
                        data_wait_elapsed_ns: elapsed_ns,
                        deadline_fallback: self.seen.deadline_fallback || fell_back(
                            timed_out,
                            self.seen.irq_events,
                            elapsed_ns,
                            DATA_FALLBACK,
                        ),
                        rintsts_bits: rintsts,
                        idsts_bits: idsts,
                        ..self.seen
                    },
                    ..self
                }
            } else {
                self
            },
        }
    }

    /// Takes an event.
    pub fn record(self, event: WakeEvent) -> (next: WakeRecorder)
        ensures
            next == self.after(event),
    {
        match event {
            WakeEvent::Enable(enabled) => WakeRecorder {
                enabled,
                closed: self.closed || !enabled,
                ..self
            },
            WakeEvent::Begin(generation) => if self.enabled {
                WakeRecorder {
                    closed: false,
                    entry_ns: 0,
                    notify_ns: 0,
                    seen: AsyncObservation {
                        ready: false,
                        generation,
                        irq_events: 0,
                        entry_to_resume_ns: 0,
                        notify_to_resume_ns: 0,
                        command_wait_elapsed_ns: 0,
                        data_wait_elapsed_ns: 0,
                        deadline_fallback: false,
                        rintsts_bits: 0,
                        idsts_bits: 0,
                    },
                    ..self
                }
            } else {
                WakeRecorder {
                    closed: true,
                    seen: AsyncObservation { ready: false, generation: 0, ..self.seen },
                    ..self
                }
            },
            WakeEvent::Irq { generation, entry_ns, notify_ns } => if self.enabled
                && self.seen.generation == generation && !self.closed && !self.seen.ready {
                WakeRecorder {
                    entry_ns,
                    notify_ns,
                    seen: AsyncObservation {
                        irq_events: self.seen.irq_events.wrapping_add(1),
                        ..self.seen
                    },
                    ..self
                }
            } else {
                self
            },
            WakeEvent::CommandWait { generation, timed_out, elapsed_ns } => if self.enabled
                && self.seen.generation == generation {
                WakeRecorder {
                    seen: AsyncObservation {
                        command_wait_elapsed_ns: elapsed_ns,
                        deadline_fallback: self.seen.deadline_fallback || fell_back(
                            timed_out,
                            self.seen.irq_events,
                            elapsed_ns,
                            COMMAND_FALLBACK,
                        ),
                        ..self.seen
                    },
                    ..self
                }
            } else {
                self
            },
            WakeEvent::Resume { generation, now, timed_out, elapsed_ns, rintsts, idsts } => if
            self.enabled && self.seen.generation == generation {
                WakeRecorder {
                    closed: true,
                    seen: AsyncObservation {
                        ready: true,
                        entry_to_resume_ns: since(self.entry_ns, now),
                        notify_to_resume_ns: since(self.notify_ns, now),
                        data_wait_elapsed_ns: elapsed_ns,
                        deadline_fallback: self.seen.deadline_fallback || fell_back(
                            timed_out,
                            self.seen.irq_events,
                            elapsed_ns,
                            DATA_FALLBACK,
                        ),
                        rintsts_bits: rintsts,
                        idsts_bits: idsts,
                        ..self.seen
                    },
                    ..self
                }
            } else {
                self
            },
        }
    }
}

/// The recorder after a series of events.
pub open spec fn wake_after_all(recorder: WakeRecorder, events: Seq<WakeEvent>) -> WakeRecorder
    decreases events.len(),
{
    if events.len() == 0 {
        recorder
    } else {
        wake_after_all(recorder, events.drop_last()).after(events.last())
    }
}

/// Once a read has come to its end, interrupts no longer count, until the next
/// transfer begins.
pub proof fn law_late_interrupts_do_not_count(recorder: WakeRecorder, events: Seq<WakeEvent>)
    requires
        recorder.seen.ready,
        forall|i: int| 0 <= i < events.len() ==> !(#[trigger] events[i] is Begin),
    ensures
        ({
            let last = wake_after_all(recorder, events);
            &&& last.seen.ready
            &&& last.seen.generation == recorder.seen.generation
            &&& last.seen.irq_events == recorder.seen.irq_events
            &&& last.entry_ns == recorder.entry_ns
        }),
    decreases events.len(),
{
    if events.len() > 0 {
        law_late_interrupts_do_not_count(recorder, events.drop_last());
        assert(!(events[events.len() - 1] is Begin));
    }
}

/// A read that came to its end is the one whose transfer began last while reads
/// were observed.
pub proof fn law_observation_belongs_to_last_transfer(
    recorder: WakeRecorder,
    generation: usize,
    events: Seq<WakeEvent>,
)
    requires
        forall|i: int| 0 <= i < events.len() ==> !(#[trigger] events[i] is Begin),
    ensures
        ({
            let last = wake_after_all(recorder.after(WakeEvent::Begin(generation)), events);
            last.seen.ready ==> last.seen.generation == (if recorder.enabled {
                generation
            } else {
                0
            })
        }),
    decreases events.len(),
{
    lemma_generation_kept(recorder.after(WakeEvent::Begin(generation)), events);
}

/// Nothing but a new transfer changes the generation.
proof fn lemma_generation_kept(recorder: WakeRecorder, events: Seq<WakeEvent>)
    requires
        forall|i: int| 0 <= i < events.len() ==> !(#[trigger] events[i] is Begin),
    ensures
        wake_after_all(recorder, events).seen.generation == recorder.seen.generation,
    decreases events.len(),
{
    if events.len() > 0 {
        lemma_generation_kept(recorder, events.drop_last());
        assert(!(events[events.len() - 1] is Begin));
    }
}

/// Why an observed read does not count.
#[derive(Clone, Copy, Debug, PartialEq, Eq, Structural)]
pub enum WakeFault {
    /// The status at the end is not that of a complete read.
    TerminalStatus,
    /// A wait ended by its deadline.
    DeadlineFallback,
    /// An interrupt came, but its time is missing.
    MissingIrqLatency,
}

impl WakeFault {
    /// Name for reports.
    pub fn name(self) -> (name: &'static str)
        ensures
            name@ == (match self {
                WakeFault::TerminalStatus => "terminal_status"@,
                WakeFault::DeadlineFallback => "deadline_fallback"@,
                WakeFault::MissingIrqLatency => "missing_irq_latency"@,
            }),
    {
        match self {
            WakeFault::TerminalStatus => "terminal_status",
            WakeFault::DeadlineFallback => "deadline_fallback",
            WakeFault::MissingIrqLatency => "missing_irq_latency",
        }
    }
}

impl AsyncObservation {
    /// The status at the end is that of a complete read: command, data and, for
    /// several blocks, the automatic stop are done, the data has reached memory,
    /// and nothing reports an error.
    #[verifier::allow_in_spec]
    pub fn read_complete(self, request_blocks: usize) -> bool
        returns
            self.ready && self.generation != 0 && RIntSts(self.rintsts_bits).command_done()
                && RIntSts(self.rintsts_bits).data_transfer_over() && IdSts(self.idsts_bits).ri()
                && !RIntSts(self.rintsts_bits).error() && !IdSts(self.idsts_bits).error() && (
            request_blocks == 1 || RIntSts(self.rintsts_bits).auto_command_done()),
    {
        self.ready && self.generation != 0 && RIntSts(self.rintsts_bits).command_done() && RIntSts(
            self.rintsts_bits,
        ).data_transfer_over() && IdSts(self.idsts_bits).ri() && !RIntSts(
            self.rintsts_bits,
        ).error() && !IdSts(self.idsts_bits).error() && (request_blocks == 1 || RIntSts(
            self.rintsts_bits,
        ).auto_command_done())
    }

    /// Verdict on an observed read: `None` where it counts.
    pub open spec fn fault(self, request_blocks: usize) -> Option<WakeFault> {
        if !self.read_complete(request_blocks) {
            Some(WakeFault::TerminalStatus)
        } else if self.deadline_fallback {
            Some(WakeFault::DeadlineFallback)
        } else if self.irq_events != 0 && (self.entry_to_resume_ns == 0
            || self.notify_to_resume_ns == 0) {
            Some(WakeFault::MissingIrqLatency)
        } else {
            None
        }
    }

    /// Judges an observed read.
    pub fn validate(self, request_blocks: usize) -> (fault: Option<WakeFault>)
        ensures
            fault == self.fault(request_blocks),
    {
        if !self.read_complete(request_blocks) {
            Some(WakeFault::TerminalStatus)
        } else if self.deadline_fallback {
            Some(WakeFault::DeadlineFallback)
        } else if self.irq_events != 0 && (self.entry_to_resume_ns == 0
            || self.notify_to_resume_ns == 0) {
            Some(WakeFault::MissingIrqLatency)
        } else {
            None
        }
    }
}

} // verus!
