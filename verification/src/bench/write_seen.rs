//! What is seen of one write request, from the call to the end of the busy
//! signal.

use crate::bench::read::IoMode;
use vstd::prelude::*;

verus! {

/// Time stamps and status of one write request.
#[derive(Clone, Copy, Debug, PartialEq, Eq, Structural)]
pub struct RequestObservation {
    /// Call.
    pub api_start_ns: u64,
    /// Return.
    pub api_end_ns: u64,
    /// Generation of the transfer, 0 for none.
    pub generation: usize,
    /// Start of the transfer.
    pub transfer_start_ns: u64,
    /// Last interrupt of the transfer, 0 for none.
    pub irq_entry_ns: u64,
    /// Interrupts of the transfer.
    pub irq_events: usize,
    /// Raw status of all interrupts.
    pub irq_rintsts_bits: u32,
    /// DMA status of all interrupts.
    pub irq_idsts_bits: u32,
    /// End of an asynchronous wait, 0 for none.
    pub dma_resume_ns: u64,
    /// End of the transfer.
    pub dma_terminal_ns: u64,
    /// An asynchronous wait ran out of time.
    pub dma_timed_out: bool,
    /// Raw status at the end of the transfer.
    pub dma_terminal_rintsts_bits: u32,
    /// DMA status at the end of the transfer.
    pub dma_terminal_idsts_bits: u32,
    /// The wait for the card is over.
    pub busy_ready: bool,
    /// That wait was asynchronous.
    pub busy_async: bool,
    /// Start of that wait.
    pub busy_start_ns: u64,
    /// End of that wait.
    pub busy_end_ns: u64,
    /// Inquiries that it took.
    pub busy_attempts: usize,
    /// Last status word of the card.
    pub busy_r1: u32,
    /// The card became ready.
    pub busy_success: bool,
}

/// What happens to a write request while it is observed.
#[derive(Clone, Copy, Debug, PartialEq, Eq, Structural)]
pub enum WriteEvent {
    /// The transfer started.
    Started {
        /// Its generation.
        generation: usize,
        /// Time.
        now: u64,
    },
    /// The transfer is over for a task that polls.
    SyncTerminal {
        /// Its generation.
        generation: usize,
        /// Time.
        now: u64,
        /// Raw status.
        rintsts: u32,
        /// DMA status.
        idsts: u32,
    },
    /// An interrupt arrived.
    Irq {
        /// Generation of the current transfer.
        generation: usize,
        /// Time of its arrival.
        now: u64,
        /// Raw status.
        rintsts: u32,
        /// DMA status.
        idsts: u32,
    },
    /// The transfer is over for a task that slept.
    Resume {
        /// Its generation.
        generation: usize,
        /// Time.
        now: u64,
        /// The wait ran out of time.
        timed_out: bool,
        /// Raw status.
        rintsts: u32,
        /// DMA status.
        idsts: u32,
    },
    /// The wait for the card is over.
    BusyEnd {
        /// It was asynchronous.
        asynchronous: bool,
        /// Its start.
        started_ns: u64,
        /// Time.
        now: u64,
        /// Inquiries that it took.
        attempts: usize,
        /// Last status word of the card.
        r1: u32,
        /// The card became ready.
        success: bool,
    },
}

/// Collects what is seen of a write request.
#[derive(Clone, Copy, Debug, PartialEq, Eq, Structural)]
pub struct WriteRecorder {
    /// A request is observed.
    pub active: bool,
    /// The transfer is over; interrupts no longer count.
    pub transfer_over: bool,
    /// What was seen.
    pub seen: RequestObservation,
}

impl WriteRecorder {
    /// Starts to observe a request; what was seen before is forgotten.
    #[verifier::allow_in_spec]
    pub fn begin(now: u64) -> WriteRecorder
        returns
            (WriteRecorder {
                active: true,
                transfer_over: false,
                seen: (RequestObservation {
                    api_start_ns: now,
                    api_end_ns: 0,
                    generation: 0,
                    transfer_start_ns: 0,
                    irq_entry_ns: 0,
                    irq_events: 0,
                    irq_rintsts_bits: 0,
                    irq_idsts_bits: 0,
                    dma_resume_ns: 0,
                    dma_terminal_ns: 0,
                    dma_timed_out: false,
                    dma_terminal_rintsts_bits: 0,
                    dma_terminal_idsts_bits: 0,
                    busy_ready: false,
                    busy_async: false,
                    busy_start_ns: 0,
                    busy_end_ns: 0,
                    busy_attempts: 0,
                    busy_r1: 0,
                    busy_success: false,
                }),
            }),
    {
        WriteRecorder {
            active: true,
            transfer_over: false,
            seen: RequestObservation {
                api_start_ns: now,
                api_end_ns: 0,
                generation: 0,
                transfer_start_ns: 0,
                irq_entry_ns: 0,
                irq_events: 0,
                irq_rintsts_bits: 0,
                irq_idsts_bits: 0,
                dma_resume_ns: 0,
                dma_terminal_ns: 0,
                dma_timed_out: false,
                dma_terminal_rintsts_bits: 0,
                dma_terminal_idsts_bits: 0,
                busy_ready: false,
                busy_async: false,
                busy_start_ns: 0,
                busy_end_ns: 0,
                busy_attempts: 0,
                busy_r1: 0,
                busy_success: false,
            },
        }
    }

    /// A recorder that observes nothing.
    #[verifier::allow_in_spec]
    pub fn idle() -> WriteRecorder
        returns
            (WriteRecorder { active: false, ..WriteRecorder::begin(0) }),
    {
        WriteRecorder { active: false, ..WriteRecorder::begin(0) }
    }

    /// Ends the observation of a request.
    #[verifier::allow_in_spec]
    pub fn finish(self, now: u64) -> WriteRecorder
        returns
            (WriteRecorder {
                active: false,
                transfer_over: true,
                seen: (RequestObservation { api_end_ns: now, ..self.seen }),
            }),
    {
        WriteRecorder {
            active: false,
            transfer_over: true,
            seen: RequestObservation { api_end_ns: now, ..self.seen },
        }
    }

    /// The recorder after an event. Only an active recorder takes events, and of
    /// those with a generation only those of its own transfer.
    pub open spec fn after(self, event: WriteEvent) -> WriteRecorder {
        if !self.active {
            self
        } else {
            match event {
                WriteEvent::Started { generation, now } => WriteRecorder {
                    seen: RequestObservation {
                        generation,
                        transfer_start_ns: now,
                        ..self.seen
                    },
                    ..self
                },
                WriteEvent::SyncTerminal { generation, now, rintsts, idsts } => if
                self.seen.generation == generation {
                    WriteRecorder {
                        transfer_over: true,
                        seen: RequestObservation {
                            dma_terminal_ns: now,
                            dma_terminal_rintsts_bits: rintsts,
                            dma_terminal_idsts_bits: idsts,
                            ..self.seen
                        },
                        ..self
                    }
                } else {
                    self
                },
                WriteEvent::Irq { generation, now, rintsts, idsts } => if self.seen.generation
                    == generation && !self.transfer_over {
                    WriteRecorder {
                        seen: RequestObservation {
                            irq_entry_ns: now,
                            irq_events: self.seen.irq_events.wrapping_add(1),
                            irq_rintsts_bits: self.seen.irq_rintsts_bits | rintsts,
                            irq_idsts_bits: self.seen.irq_idsts_bits | idsts,
                            ..self.seen
                        },
                        ..self
                    }
                } else {
                    self
                },
                WriteEvent::Resume { generation, now, timed_out, rintsts, idsts } => if
                self.seen.generation == generation {
                    WriteRecorder {
                        transfer_over: true,
                        seen: RequestObservation {
                            dma_resume_ns: now,
                            dma_terminal_ns: now,
                            dma_timed_out: timed_out,
                            dma_terminal_rintsts_bits: rintsts,
                            dma_terminal_idsts_bits: idsts,
                            ..self.seen
                        },
                        ..self
                    }
                } else {
                    self
                },
                WriteEvent::BusyEnd { asynchronous, started_ns, now, attempts, r1, success } =>
                WriteRecorder {
                    seen: RequestObservation {
                        busy_ready: true,
                        busy_async: asynchronous,
                        busy_start_ns: started_ns,
                        busy_end_ns: now,
                        busy_attempts: attempts,
                        busy_r1: r1,
                        busy_success: success,
                        ..self.seen
                    },
                    ..self
                },
            }
        }
    }

    /// Takes an event.
    pub fn record(self, event: WriteEvent) -> (next: WriteRecorder)
        ensures
            next == self.after(event),
    {
        if !self.active {
            self
        } else {
            match event {
                WriteEvent::Started { generation, now } => WriteRecorder {
                    seen: RequestObservation {
                        generation,
                        transfer_start_ns: now,
                        ..self.seen
                    },
                    ..self
                },
                WriteEvent::SyncTerminal { generation, now, rintsts, idsts } => if
                self.seen.generation == generation {
                    WriteRecorder {
                        transfer_over: true,
                        seen: RequestObservation {
                            dma_terminal_ns: now,
                            dma_terminal_rintsts_bits: rintsts,
                            dma_terminal_idsts_bits: idsts,
                            ..self.seen
                        },
                        ..self
                    }
                } else {
                    self
                },
                WriteEvent::Irq { generation, now, rintsts, idsts } => if self.seen.generation
                    == generation && !self.transfer_over {
                    WriteRecorder {
                        seen: RequestObservation {
                            irq_entry_ns: now,
                            irq_events: self.seen.irq_events.wrapping_add(1),
                            irq_rintsts_bits: self.seen.irq_rintsts_bits | rintsts,
                            irq_idsts_bits: self.seen.irq_idsts_bits | idsts,
                            ..self.seen
                        },
                        ..self
                    }
                } else {
                    self
                },
                WriteEvent::Resume { generation, now, timed_out, rintsts, idsts } => if
                self.seen.generation == generation {
                    WriteRecorder {
                        transfer_over: true,
                        seen: RequestObservation {
                            dma_resume_ns: now,
                            dma_terminal_ns: now,
                            dma_timed_out: timed_out,
                            dma_terminal_rintsts_bits: rintsts,
                            dma_terminal_idsts_bits: idsts,
                            ..self.seen
                        },
                        ..self
                    }
                } else {
                    self
                },
                WriteEvent::BusyEnd { asynchronous, started_ns, now, attempts, r1, success } =>
                WriteRecorder {
                    seen: RequestObservation {
                        busy_ready: true,
                        busy_async: asynchronous,
                        busy_start_ns: started_ns,
                        busy_end_ns: now,
                        busy_attempts: attempts,
                        busy_r1: r1,
                        busy_success: success,
                        ..self.seen
                    },
                    ..self
                },
            }
        }
    }
}

/// The recorder after a series of events.
pub open spec fn write_after_all(recorder: WriteRecorder, events: Seq<WriteEvent>) -> WriteRecorder
    decreases events.len(),
{
    if events.len() == 0 {
        recorder
    } else {
        write_after_all(recorder, events.drop_last()).after(events.last())
    }
}

/// Outside of a request nothing is recorded.
pub proof fn law_idle_write_recorder_takes_nothing(
    recorder: WriteRecorder,
    events: Seq<WriteEvent>,
)
    requires
        !recorder.active,
    ensures
        write_after_all(recorder, events) == recorder,
    decreases events.len(),
{
    if events.len() > 0 {
        law_idle_write_recorder_takes_nothing(recorder, events.drop_last());
    }
}

/// Interrupts that arrive after the end of the transfer do not count.
pub proof fn law_interrupts_of_the_busy_wait_do_not_count(
    recorder: WriteRecorder,
    events: Seq<WriteEvent>,
)
    requires
        recorder.transfer_over,
    ensures
        ({
            let last = write_after_all(recorder, events);
            &&& last.transfer_over
            &&& last.seen.irq_events == recorder.seen.irq_events
            &&& last.seen.irq_entry_ns == recorder.seen.irq_entry_ns
        }),
    decreases events.len(),
{
    if events.len() > 0 {
        law_interrupts_of_the_busy_wait_do_not_count(recorder, events.drop_last());
    }
}

/// Why an observed write does not count.
#[derive(Clone, Copy, Debug, PartialEq, Eq, Structural)]
pub enum WriteFault {
    /// The call or the wait for the card is incomplete or out of order.
    InvalidBusyOrApiTimeline,
    /// The interrupt or the end of an asynchronous wait is missing or out of
    /// order.
    AsyncDmaIrqOrWatchdog,
    /// The end of a polled transfer is out of order.
    SyncDmaTerminalTimeline,
}

impl WriteFault {
    /// Name for reports.
    pub fn name(self) -> (name: &'static str)
        ensures
            name@ == (match self {
                WriteFault::InvalidBusyOrApiTimeline => "invalid_busy_or_api_timeline"@,
                WriteFault::AsyncDmaIrqOrWatchdog => "async_dma_irq_or_watchdog"@,
                WriteFault::SyncDmaTerminalTimeline => "sync_dma_terminal_timeline"@,
            }),
    {
        match self {
            WriteFault::InvalidBusyOrApiTimeline => "invalid_busy_or_api_timeline",
            WriteFault::AsyncDmaIrqOrWatchdog => "async_dma_irq_or_watchdog",
            WriteFault::SyncDmaTerminalTimeline => "sync_dma_terminal_timeline",
        }
    }
}

impl RequestObservation {
    /// The call and the wait for the card are complete and in order.
    pub open spec fn call_in_order(self, mode: IoMode) -> bool {
        self.generation != 0 && self.busy_ready && self.busy_success && self.busy_attempts != 0
            && self.busy_async == (mode == IoMode::Async) && self.api_start_ns != 0
            && self.api_start_ns <= self.transfer_start_ns && self.busy_start_ns
            <= self.busy_end_ns && self.busy_end_ns <= self.api_end_ns && self.api_start_ns
            <= self.api_end_ns
    }

    /// Checks the call and the wait for the card.
    fn check_call(self, mode: IoMode) -> (ordered: bool)
        ensures
            ordered == self.call_in_order(mode),
    {
        self.generation != 0 && self.busy_ready && self.busy_success && self.busy_attempts != 0
            && self.busy_async == (mode == IoMode::Async) && self.api_start_ns != 0
            && self.api_start_ns <= self.transfer_start_ns && self.busy_start_ns
            <= self.busy_end_ns && self.busy_end_ns <= self.api_end_ns && self.api_start_ns
            <= self.api_end_ns
    }

    /// The transfer ended by an interrupt: its times are there and in order.
    pub open spec fn sleep_in_order(self) -> bool {
        !self.dma_timed_out && self.irq_events != 0 && self.irq_entry_ns != 0
            && self.dma_resume_ns != 0 && self.dma_terminal_ns == self.dma_resume_ns
            && self.transfer_start_ns <= self.irq_entry_ns && self.irq_entry_ns
            <= self.dma_resume_ns && self.dma_resume_ns <= self.busy_start_ns
    }

    /// Checks an asynchronous transfer.
    fn check_sleep(self) -> (ordered: bool)
        ensures
            ordered == self.sleep_in_order(),
    {
        !self.dma_timed_out && self.irq_events != 0 && self.irq_entry_ns != 0
            && self.dma_resume_ns != 0 && self.dma_terminal_ns == self.dma_resume_ns
            && self.transfer_start_ns <= self.irq_entry_ns && self.irq_entry_ns
            <= self.dma_resume_ns && self.dma_resume_ns <= self.busy_start_ns
    }

    /// Verdict on an observed write: `None` where it counts.
    pub open spec fn fault(self, mode: IoMode) -> Option<WriteFault> {
        if !self.call_in_order(mode) {
            Some(WriteFault::InvalidBusyOrApiTimeline)
        } else {
            match mode {
                IoMode::Async => if self.sleep_in_order() {
                    None
                } else {
                    Some(WriteFault::AsyncDmaIrqOrWatchdog)
                },
                IoMode::Sync => if self.transfer_start_ns <= self.dma_terminal_ns
                    && self.dma_terminal_ns <= self.busy_start_ns {
                    None
                } else {
                    Some(WriteFault::SyncDmaTerminalTimeline)
                },
            }
        }
    }

    /// Judges an observed write.
    pub fn validate(self, mode: IoMode) -> (fault: Option<WriteFault>)
        ensures
            fault == self.fault(mode),
    {
        if !self.check_call(mode) {
            Some(WriteFault::InvalidBusyOrApiTimeline)
        } else {
            match mode {
                IoMode::Async => if self.check_sleep() {
                    None
                } else {
                    Some(WriteFault::AsyncDmaIrqOrWatchdog)
                },
                IoMode::Sync => if self.transfer_start_ns <= self.dma_terminal_ns
                    && self.dma_terminal_ns <= self.busy_start_ns {
                    None
                } else {
                    Some(WriteFault::SyncDmaTerminalTimeline)
                },
            }
        }
    }
}

} // verus!
