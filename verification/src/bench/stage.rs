//! Where the time of a transfer goes: time stamps of its stages.

use crate::bench::stats::low64;
use crate::regs::{IdSts, RIntSts};
use vstd::prelude::*;

verus! {

/// Time stamps and interrupt status of one transfer. A stamp of 0 is missing.
#[derive(Clone, Copy, Debug, PartialEq, Eq, Structural)]
pub struct DriverStageObservation {
    /// Generation of the transfer, 0 for none.
    pub generation: usize,
    /// Call.
    pub api_start_ns: u64,
    /// Return.
    pub api_end_ns: u64,
    /// Start of the preparation.
    pub prepare_start_ns: u64,
    /// End of the preparation.
    pub prepare_end_ns: u64,
    /// Write of the command register.
    pub cmd_write_ns: u64,
    /// End of the submission.
    pub submit_end_ns: u64,
    /// End of the command phase.
    pub command_seen_ns: u64,
    /// End of the data phase.
    pub terminal_seen_ns: u64,
    /// End of the validation.
    pub validation_end_ns: u64,
    /// Start of the cleanup.
    pub cleanup_start_ns: u64,
    /// End of the cleanup.
    pub cleanup_end_ns: u64,
    /// First interrupt.
    pub first_irq_ns: u64,
    /// First interrupt that showed the end of the command.
    pub irq_command_ns: u64,
    /// First interrupt that showed the end of the data.
    pub irq_data_done_ns: u64,
    /// First interrupt that showed the automatic stop.
    pub irq_acd_ns: u64,
    /// Raw status of all interrupts.
    pub irq_rintsts_bits: u32,
    /// DMA status of all interrupts.
    pub irq_idsts_bits: u32,
}

impl DriverStageObservation {
    /// Nothing was seen yet.
    #[verifier::allow_in_spec]
    pub fn empty() -> DriverStageObservation
        returns
            (DriverStageObservation {
                generation: 0,
                api_start_ns: 0,
                api_end_ns: 0,
                prepare_start_ns: 0,
                prepare_end_ns: 0,
                cmd_write_ns: 0,
                submit_end_ns: 0,
                command_seen_ns: 0,
                terminal_seen_ns: 0,
                validation_end_ns: 0,
                cleanup_start_ns: 0,
                cleanup_end_ns: 0,
                first_irq_ns: 0,
                irq_command_ns: 0,
                irq_data_done_ns: 0,
                irq_acd_ns: 0,
                irq_rintsts_bits: 0,
                irq_idsts_bits: 0,
            }),
    {
        DriverStageObservation {
            generation: 0,
            api_start_ns: 0,
            api_end_ns: 0,
            prepare_start_ns: 0,
            prepare_end_ns: 0,
            cmd_write_ns: 0,
            submit_end_ns: 0,
            command_seen_ns: 0,
            terminal_seen_ns: 0,
            validation_end_ns: 0,
            cleanup_start_ns: 0,
            cleanup_end_ns: 0,
            first_irq_ns: 0,
            irq_command_ns: 0,
            irq_data_done_ns: 0,
            irq_acd_ns: 0,
            irq_rintsts_bits: 0,
            irq_idsts_bits: 0,
        }
    }

    /// The observation with the stamp of a stage.
    pub open spec fn stamped(self, stage: Stage, now: u64) -> DriverStageObservation {
        match stage {
            Stage::PrepareStart => DriverStageObservation { prepare_start_ns: now, ..self },
            Stage::PrepareEnd => DriverStageObservation { prepare_end_ns: now, ..self },
            Stage::CmdWrite => DriverStageObservation { cmd_write_ns: now, ..self },
            Stage::SubmitEnd => DriverStageObservation { submit_end_ns: now, ..self },
            Stage::CommandSeen => DriverStageObservation { command_seen_ns: now, ..self },
            Stage::TerminalSeen => DriverStageObservation { terminal_seen_ns: now, ..self },
            Stage::ValidationEnd => DriverStageObservation { validation_end_ns: now, ..self },
            Stage::CleanupStart => DriverStageObservation { cleanup_start_ns: now, ..self },
            Stage::CleanupEnd => DriverStageObservation { cleanup_end_ns: now, ..self },
        }
    }

    /// Sets the stamp of a stage.
    pub fn stamp(self, stage: Stage, now: u64) -> (next: DriverStageObservation)
        ensures
            next == self.stamped(stage, now),
    {
        match stage {
            Stage::PrepareStart => DriverStageObservation { prepare_start_ns: now, ..self },
            Stage::PrepareEnd => DriverStageObservation { prepare_end_ns: now, ..self },
            Stage::CmdWrite => DriverStageObservation { cmd_write_ns: now, ..self },
            Stage::SubmitEnd => DriverStageObservation { submit_end_ns: now, ..self },
            Stage::CommandSeen => DriverStageObservation { command_seen_ns: now, ..self },
            Stage::TerminalSeen => DriverStageObservation { terminal_seen_ns: now, ..self },
            Stage::ValidationEnd => DriverStageObservation { validation_end_ns: now, ..self },
            Stage::CleanupStart => DriverStageObservation { cleanup_start_ns: now, ..self },
            Stage::CleanupEnd => DriverStageObservation { cleanup_end_ns: now, ..self },
        }
    }
}

/// Stage of a transfer that is stamped.
#[derive(Clone, Copy, Debug, PartialEq, Eq, Structural)]
pub enum Stage {
    /// Start of the preparation.
    PrepareStart,
    /// End of the preparation.
    PrepareEnd,
    /// Write of the command register.
    CmdWrite,
    /// End of the submission.
    SubmitEnd,
    /// End of the command phase.
    CommandSeen,
    /// End of the data phase.
    TerminalSeen,
    /// End of the validation.
    ValidationEnd,
    /// Start of the cleanup.
    CleanupStart,
    /// End of the cleanup.
    CleanupEnd,
}

/// What the driver reports about a transfer while it is observed.
#[derive(Clone, Copy, Debug, PartialEq, Eq, Structural)]
pub enum StageEvent {
    /// A stage that has no generation yet was reached.
    Reached {
        /// The stage.
        stage: Stage,
        /// Time.
        now: u64,
    },
    /// The transfer got its generation.
    Generation(usize),
    /// A stage of the transfer of a generation was reached.
    ReachedBy {
        /// The stage.
        stage: Stage,
        /// The generation.
        generation: usize,
        /// Time.
        now: u64,
    },
    /// An interrupt arrived.
    Irq {
        /// Generation of the current transfer.
        generation: usize,
        /// Time of its arrival.
        now: u64,
        /// Raw status.
        rintsts: u32,
        /// DMA status.
        idsts: u32,
    },
}

/// Collects the time stamps of one transfer.
#[derive(Clone, Copy, Debug, PartialEq, Eq, Structural)]
pub struct StageRecorder {
    /// A transfer is observed.
    pub active: bool,
    /// What was seen.
    pub seen: DriverStageObservation,
}

/// The time that is kept: the first one.
#[verifier::allow_in_spec]
pub fn first_time(kept: u64, now: u64) -> u64
    returns
        (if kept == 0 {
            now
        } else {
            kept
        }),
{
    if kept == 0 {
        now
    } else {
        kept
    }
}

impl StageRecorder {
    /// A recorder that observes nothing.
    #[verifier::allow_in_spec]
    pub fn idle() -> StageRecorder
        returns
            (StageRecorder { active: false, seen: DriverStageObservation::empty() }),
    {
        StageRecorder { active: false, seen: DriverStageObservation::empty() }
    }

    /// Starts to observe a call; what was seen before is forgotten.
    #[verifier::allow_in_spec]
    pub fn begin(now: u64) -> StageRecorder
        returns
            (StageRecorder {
                active: true,
                seen: (DriverStageObservation {
                    api_start_ns: now,
                    ..DriverStageObservation::empty()
                }),
            }),
    {
        StageRecorder {
            active: true,
            seen: DriverStageObservation {
                api_start_ns: now,
                ..DriverStageObservation::empty()
            },
        }
    }

    /// Ends the observation of a call.
    #[verifier::allow_in_spec]
    pub fn finish(self, now: u64) -> StageRecorder
        returns
            (StageRecorder {
                active: false,
                seen: (DriverStageObservation { api_end_ns: now, ..self.seen }),
            }),
    {
        StageRecorder {
            active: false,
            seen: DriverStageObservation { api_end_ns: now, ..self.seen },
        }
    }

    /// The recorder after an event. Only an active recorder takes events, and of
    /// those with a generation only those of its own.
    pub open spec fn after(self, event: StageEvent) -> StageRecorder {
        if !self.active {
            self
        } else {
            match event {
                StageEvent::Reached { stage, now } => StageRecorder {
                    seen: self.seen.stamped(stage, now),
                    ..self
                },
                StageEvent::Generation(generation) => StageRecorder {
                    seen: DriverStageObservation { generation, ..self.seen },
                    ..self
                },
                StageEvent::ReachedBy { stage, generation, now } => if self.seen.generation
                    == generation {
                    StageRecorder { seen: self.seen.stamped(stage, now), ..self }
                } else {
                    self
                },
                StageEvent::Irq { generation, now, rintsts, idsts } => if self.seen.generation
                    == generation {
                    StageRecorder { seen: self.seen.with_irq(now, rintsts, idsts), ..self }
                } else {
                    self
                },
            }
        }
    }

    /// Takes an event.
    pub fn record(self, event: StageEvent) -> (next: StageRecorder)
        ensures
            next == self.after(event),
    {
        if !self.active {
            self
        } else {
            match event {
                StageEvent::Reached { stage, now } => StageRecorder {
                    seen: self.seen.stamp(stage, now),
                    ..self
                },
                StageEvent::Generation(generation) => StageRecorder {
                    seen: DriverStageObservation { generation, ..self.seen },
                    ..self
                },
                StageEvent::ReachedBy { stage, generation, now } => if self.seen.generation
                    == generation {
                    StageRecorder { seen: self.seen.stamp(stage, now), ..self }
                } else {
                    self
                },
                StageEvent::Irq { generation, now, rintsts, idsts } => if self.seen.generation
                    == generation {
                    StageRecorder { seen: self.seen.take_irq(now, rintsts, idsts), ..self }
                } else {
                    self
                },
            }
        }
    }
}

impl DriverStageObservation {
    /// The observation after an interrupt: of each kind the first time is kept,
    /// and the status bits are gathered.
    pub open spec fn with_irq(self, now: u64, rintsts: u32, idsts: u32) -> DriverStageObservation {
        DriverStageObservation {
            first_irq_ns: first_time(self.first_irq_ns, now),
            irq_command_ns: if RIntSts(rintsts).command_done() {
                first_time(self.irq_command_ns, now)
            } else {
                self.irq_command_ns
            },
            irq_data_done_ns: if RIntSts(rintsts).data_transfer_over() || IdSts(idsts).ri()
                || IdSts(idsts).ti() {
                first_time(self.irq_data_done_ns, now)
            } else {
                self.irq_data_done_ns
            },
            irq_acd_ns: if RIntSts(rintsts).auto_command_done() {
                first_time(self.irq_acd_ns, now)
            } else {
                self.irq_acd_ns
            },
            irq_rintsts_bits: self.irq_rintsts_bits | rintsts,
            irq_idsts_bits: self.irq_idsts_bits | idsts,
            ..self
        }
    }

    /// Takes an interrupt.
    pub fn take_irq(self, now: u64, rintsts: u32, idsts: u32) -> (next: DriverStageObservation)
        ensures
            next == self.with_irq(now, rintsts, idsts),
    {
        DriverStageObservation {
            first_irq_ns: first_time(self.first_irq_ns, now),
            irq_command_ns: if RIntSts(rintsts).command_done() {
                first_time(self.irq_command_ns, now)
            } else {
                self.irq_command_ns
            },
            irq_data_done_ns: if RIntSts(rintsts).data_transfer_over() || IdSts(idsts).ri()
                || IdSts(idsts).ti() {
                first_time(self.irq_data_done_ns, now)
            } else {
                self.irq_data_done_ns
            },
            irq_acd_ns: if RIntSts(rintsts).auto_command_done() {
                first_time(self.irq_acd_ns, now)
            } else {
                self.irq_acd_ns
            },
            irq_rintsts_bits: self.irq_rintsts_bits | rintsts,
            irq_idsts_bits: self.irq_idsts_bits | idsts,
            ..self
        }
    }
}

/// The recorder after a series of events.
pub open spec fn after_all(recorder: StageRecorder, events: Seq<StageEvent>) -> StageRecorder
    decreases events.len(),
{
    if events.len() == 0 {
        recorder
    } else {
        after_all(recorder, events.drop_last()).after(events.last())
    }
}

/// Outside of a call nothing is recorded.
pub proof fn law_idle_recorder_takes_nothing(recorder: StageRecorder, events: Seq<StageEvent>)
    requires
        !recorder.active,
    ensures
        after_all(recorder, events) == recorder,
    decreases events.len(),
{
    if events.len() > 0 {
        law_idle_recorder_takes_nothing(recorder, events.drop_last());
    }
}

/// The time of the first interrupt stays, whatever follows.
pub proof fn law_first_interrupt_stays(recorder: StageRecorder, events: Seq<StageEvent>)
    requires
        recorder.seen.first_irq_ns != 0,
    ensures
        after_all(recorder, events).seen.first_irq_ns == recorder.seen.first_irq_ns,
    decreases events.len(),
{
    if events.len() > 0 {
        law_first_interrupt_stays(recorder, events.drop_last());
    }
}

/// Why an observation cannot be used.
#[derive(Clone, Copy, Debug, PartialEq, Eq, Structural)]
pub enum StageFault {
    /// The transfer never got a generation.
    MissingGeneration,
    /// A stage has no time stamp.
    MissingStageTimestamp,
    /// The time stamps are out of order.
    StageTimestampOrder,
}

impl StageFault {
    /// Name for reports.
    pub fn name(self) -> (name: &'static str)
        ensures
            name@ == (match self {
                StageFault::MissingGeneration => "missing_generation"@,
                StageFault::MissingStageTimestamp => "missing_stage_timestamp"@,
                StageFault::StageTimestampOrder => "stage_timestamp_order"@,
            }),
    {
        match self {
            StageFault::MissingGeneration => "missing_generation",
            StageFault::MissingStageTimestamp => "missing_stage_timestamp",
            StageFault::StageTimestampOrder => "stage_timestamp_order",
        }
    }
}

/// Time that a transfer spent in each stage.
#[derive(Clone, Copy, Debug, PartialEq, Eq, Structural)]
pub struct StageDurations {
    /// Whole call.
    pub api_total_ns: u64,
    /// From the call to the preparation.
    pub api_to_prepare_ns: u64,
    /// Preparation.
    pub prepare_ns: u64,
    /// From the preparation to the command.
    pub prepare_to_cmd_ns: u64,
    /// Submission of the command.
    pub submit_ns: u64,
    /// Wait for the command phase.
    pub command_wait_ns: u64,
    /// Wait for the data phase.
    pub data_wait_ns: u64,
    /// Validation.
    pub validation_ns: u64,
    /// From the validation to the cleanup.
    pub validation_to_cleanup_ns: u64,
    /// Cleanup.
    pub cleanup_ns: u64,
    /// From the cleanup to the end of the call.
    pub copy_to_user_ns: u64,
    /// From the command to the end of the data phase.
    pub command_to_terminal_ns: u64,
    /// Everything but the time between the command and the end of the data phase.
    pub software_ns: u64,
    /// From the last interrupt of the transfer to the end of the data phase, 0 if
    /// there was none.
    pub irq_to_terminal_ns: u64,
    /// From the interrupt of the data to that of the automatic stop, 0 if either
    /// is missing.
    pub data_irq_to_acd_ns: u64,
}

impl DriverStageObservation {
    /// The time stamps in the order in which the stages follow each other.
    pub open spec fn timeline(self) -> Seq<u64> {
        seq![
            self.api_start_ns,
            self.prepare_start_ns,
            self.prepare_end_ns,
            self.cmd_write_ns,
            self.submit_end_ns,
            self.command_seen_ns,
            self.terminal_seen_ns,
            self.validation_end_ns,
            self.cleanup_start_ns,
            self.cleanup_end_ns,
            self.api_end_ns,
        ]
    }

    /// Every stage has a time stamp.
    pub open spec fn complete(self) -> bool {
        forall|i: int| 0 <= i < 11 ==> #[trigger] self.timeline()[i] != 0
    }

    /// The stages followed each other.
    pub open spec fn ordered(self) -> bool {
        forall|i: int, j: int|
            0 <= i <= j < 11 ==> #[trigger] self.timeline()[i] <= #[trigger] self.timeline()[j]
    }

    /// Time of the interrupt that ended the transfer: that of the data for one
    /// block, the later one of data and automatic stop for several.
    pub open spec fn terminal_irq(self, request_blocks: usize) -> u64 {
        if request_blocks == 1 {
            self.irq_data_done_ns
        } else if self.irq_data_done_ns == 0 || self.irq_acd_ns == 0 {
            0
        } else if self.irq_data_done_ns < self.irq_acd_ns {
            self.irq_acd_ns
        } else {
            self.irq_data_done_ns
        }
    }
}

/// Time from one stamp to a later one.
pub open spec fn span(from: u64, to: u64) -> u64 {
    (to - from) as u64
}

impl StageDurations {
    /// The durations that an ordered observation shows.
    pub open spec fn of(seen: DriverStageObservation, request_blocks: usize) -> StageDurations {
        StageDurations {
            api_total_ns: span(seen.api_start_ns, seen.api_end_ns),
            api_to_prepare_ns: span(seen.api_start_ns, seen.prepare_start_ns),
            prepare_ns: span(seen.prepare_start_ns, seen.prepare_end_ns),
            prepare_to_cmd_ns: span(seen.prepare_end_ns, seen.cmd_write_ns),
            submit_ns: span(seen.cmd_write_ns, seen.submit_end_ns),
            command_wait_ns: span(seen.submit_end_ns, seen.command_seen_ns),
            data_wait_ns: span(seen.command_seen_ns, seen.terminal_seen_ns),
            validation_ns: span(seen.terminal_seen_ns, seen.validation_end_ns),
            validation_to_cleanup_ns: span(seen.validation_end_ns, seen.cleanup_start_ns),
            cleanup_ns: span(seen.cleanup_start_ns, seen.cleanup_end_ns),
            copy_to_user_ns: span(seen.cleanup_end_ns, seen.api_end_ns),
            command_to_terminal_ns: span(seen.cmd_write_ns, seen.terminal_seen_ns),
            software_ns: (span(seen.api_start_ns, seen.cmd_write_ns) + span(
                seen.terminal_seen_ns,
                seen.api_end_ns,
            )) as u64,
            irq_to_terminal_ns: if 0 < seen.terminal_irq(request_blocks)
                <= seen.terminal_seen_ns {
                span(seen.terminal_irq(request_blocks), seen.terminal_seen_ns)
            } else {
                0
            },
            data_irq_to_acd_ns: if 0 < seen.irq_data_done_ns <= seen.irq_acd_ns {
                span(seen.irq_data_done_ns, seen.irq_acd_ns)
            } else {
                0
            },
        }
    }

    /// The durations of an observation, or what is wrong with it.
    pub open spec fn judged(
        observation: DriverStageObservation,
        request_blocks: usize,
    ) -> Result<StageDurations, StageFault> {
        if observation.generation == 0 {
            Err(StageFault::MissingGeneration)
        } else if !observation.complete() {
            Err(StageFault::MissingStageTimestamp)
        } else if !observation.ordered() {
            Err(StageFault::StageTimestampOrder)
        } else {
            Ok(StageDurations::of(observation, request_blocks))
        }
    }

    /// Takes the durations from an observation.
    pub fn from_observation(
        observation: DriverStageObservation,
        request_blocks: usize,
    ) -> (result: Result<StageDurations, StageFault>)
        ensures
            result == StageDurations::judged(observation, request_blocks),
    {
        if observation.generation == 0 {
            return Err(StageFault::MissingGeneration);
        }
        let ghost line = observation.timeline();
        let missing = observation.api_start_ns == 0
            || observation.prepare_start_ns == 0
            || observation.prepare_end_ns == 0
            || observation.cmd_write_ns == 0
            || observation.submit_end_ns == 0
            || observation.command_seen_ns == 0
            || observation.terminal_seen_ns == 0
            || observation.validation_end_ns == 0
            || observation.cleanup_start_ns == 0
            || observation.cleanup_end_ns == 0
            || observation.api_end_ns == 0;
        if missing {
            proof {
                assert(line[0] == observation.api_start_ns);
                assert(line[1] == observation.prepare_start_ns);
                assert(line[2] == observation.prepare_end_ns);
                assert(line[3] == observation.cmd_write_ns);
                assert(line[4] == observation.submit_end_ns);
                assert(line[5] == observation.command_seen_ns);
                assert(line[6] == observation.terminal_seen_ns);
                assert(line[7] == observation.validation_end_ns);
                assert(line[8] == observation.cleanup_start_ns);
                assert(line[9] == observation.cleanup_end_ns);
                assert(line[10] == observation.api_end_ns);
            }
            return Err(StageFault::MissingStageTimestamp);
        }
        let ordered = observation.api_start_ns <= observation.prepare_start_ns
            && observation.prepare_start_ns <= observation.prepare_end_ns
            && observation.prepare_end_ns <= observation.cmd_write_ns
            && observation.cmd_write_ns <= observation.submit_end_ns
            && observation.submit_end_ns <= observation.command_seen_ns
            && observation.command_seen_ns <= observation.terminal_seen_ns
            && observation.terminal_seen_ns <= observation.validation_end_ns
            && observation.validation_end_ns <= observation.cleanup_start_ns
            && observation.cleanup_start_ns <= observation.cleanup_end_ns
            && observation.cleanup_end_ns <= observation.api_end_ns;
        if !ordered {
            proof {
                assert(line[0] == observation.api_start_ns);
                assert(line[1] == observation.prepare_start_ns);
                assert(line[2] == observation.prepare_end_ns);
                assert(line[3] == observation.cmd_write_ns);
                assert(line[4] == observation.submit_end_ns);
                assert(line[5] == observation.command_seen_ns);
                assert(line[6] == observation.terminal_seen_ns);
                assert(line[7] == observation.validation_end_ns);
                assert(line[8] == observation.cleanup_start_ns);
                assert(line[9] == observation.cleanup_end_ns);
                assert(line[10] == observation.api_end_ns);
            }
            return Err(StageFault::StageTimestampOrder);
        }
        let terminal_irq: u64 = if request_blocks == 1 {
            observation.irq_data_done_ns
        } else if observation.irq_data_done_ns == 0 || observation.irq_acd_ns == 0 {
            0
        } else if observation.irq_data_done_ns < observation.irq_acd_ns {
            observation.irq_acd_ns
        } else {
            observation.irq_data_done_ns
        };
        Ok(
            StageDurations {
                api_total_ns: observation.api_end_ns - observation.api_start_ns,
                api_to_prepare_ns: observation.prepare_start_ns - observation.api_start_ns,
                prepare_ns: observation.prepare_end_ns - observation.prepare_start_ns,
                prepare_to_cmd_ns: observation.cmd_write_ns - observation.prepare_end_ns,
                submit_ns: observation.submit_end_ns - observation.cmd_write_ns,
                command_wait_ns: observation.command_seen_ns - observation.submit_end_ns,
                data_wait_ns: observation.terminal_seen_ns - observation.command_seen_ns,
                validation_ns: observation.validation_end_ns - observation.terminal_seen_ns,
                validation_to_cleanup_ns: observation.cleanup_start_ns
                    - observation.validation_end_ns,
                cleanup_ns: observation.cleanup_end_ns - observation.cleanup_start_ns,
                copy_to_user_ns: observation.api_end_ns - observation.cleanup_end_ns,
                command_to_terminal_ns: observation.terminal_seen_ns - observation.cmd_write_ns,
                software_ns: (observation.cmd_write_ns - observation.api_start_ns) + (
                observation.api_end_ns - observation.terminal_seen_ns),
                irq_to_terminal_ns: if terminal_irq != 0 && terminal_irq
                    <= observation.terminal_seen_ns {
                    observation.terminal_seen_ns - terminal_irq
                } else {
                    0
                },
                data_irq_to_acd_ns: if observation.irq_data_done_ns != 0
                    && observation.irq_data_done_ns <= observation.irq_acd_ns {
                    observation.irq_acd_ns - observation.irq_data_done_ns
                } else {
                    0
                },
            },
        )
    }
}

/// The stages of an ordered observation fill the whole call, without gaps or
/// overlaps, and so do the software and the card.
pub proof fn law_stages_fill_the_call(seen: DriverStageObservation, request_blocks: usize)
    requires
        seen.ordered(),
    ensures
        ({
            let d = StageDurations::of(seen, request_blocks);
            &&& d.api_total_ns == d.api_to_prepare_ns + d.prepare_ns + d.prepare_to_cmd_ns
                + d.submit_ns + d.command_wait_ns + d.data_wait_ns + d.validation_ns
                + d.validation_to_cleanup_ns + d.cleanup_ns + d.copy_to_user_ns
            &&& d.command_to_terminal_ns == d.submit_ns + d.command_wait_ns + d.data_wait_ns
            &&& d.software_ns == d.api_to_prepare_ns + d.prepare_ns + d.prepare_to_cmd_ns
                + d.validation_ns + d.validation_to_cleanup_ns + d.cleanup_ns
                + d.copy_to_user_ns
            &&& d.api_total_ns == d.software_ns + d.command_to_terminal_ns
        }),
{
    let line = seen.timeline();
    assert(line[0] <= line[1]);
    assert(line[1] <= line[2]);
    assert(line[2] <= line[3]);
    assert(line[3] <= line[4]);
    assert(line[4] <= line[5]);
    assert(line[5] <= line[6]);
    assert(line[6] <= line[7]);
    assert(line[7] <= line[8]);
    assert(line[8] <= line[9]);
    assert(line[9] <= line[10]);
}

/// Totals over the transfers of a run.
#[derive(Clone, Copy, Debug, PartialEq, Eq, Structural)]
pub struct StageAggregate {
    /// Transfers.
    pub requests: usize,
    /// Whole call.
    pub api_total_ns: u128,
    /// From the call to the preparation.
    pub api_to_prepare_ns: u128,
    /// Preparation.
    pub prepare_ns: u128,
    /// From the preparation to the command.
    pub prepare_to_cmd_ns: u128,
    /// Submission of the command.
    pub submit_ns: u128,
    /// Wait for the command phase.
    pub command_wait_ns: u128,
    /// Wait for the data phase.
    pub data_wait_ns: u128,
    /// Validation.
    pub validation_ns: u128,
    /// From the validation to the cleanup.
    pub validation_to_cleanup_ns: u128,
    /// Cleanup.
    pub cleanup_ns: u128,
    /// From the cleanup to the end of the call.
    pub copy_to_user_ns: u128,
    /// From the command to the end of the data phase.
    pub command_to_terminal_ns: u128,
    /// Everything but the time between the command and the end of the data phase.
    pub software_ns: u128,
    /// From the last interrupt to the end of the data phase, where there was one.
    pub irq_to_terminal_ns: u128,
    /// Transfers that count there.
    pub irq_to_terminal_samples: usize,
    /// From the interrupt of the data to that of the automatic stop.
    pub data_irq_to_acd_ns: u128,
    /// Transfers that count there.
    pub data_irq_to_acd_samples: usize,
    /// Raw status of all interrupts.
    pub irq_rintsts_bits: u32,
    /// DMA status of all interrupts.
    pub irq_idsts_bits: u32,
    /// Time of the slowest call.
    pub slowest_api_ns: u64,
    /// The slowest request, the first one of several.
    pub slowest_request: usize,
    /// Its first block.
    pub slowest_lba: u32,
    /// Its durations.
    pub slowest: Option<StageDurations>,
}

/// One observed transfer.
#[derive(Clone, Copy, Debug, PartialEq, Eq, Structural)]
pub struct StageSample {
    /// Number of the request.
    pub request: usize,
    /// Its first block.
    pub lba: u32,
    /// Its durations.
    pub durations: StageDurations,
    /// Raw status of its interrupts.
    pub irq_rintsts_bits: u32,
    /// DMA status of its interrupts.
    pub irq_idsts_bits: u32,
}

/// A number counts as a sample unless it is 0.
pub open spec fn counted(value: u64) -> int {
    if value != 0 {
        1
    } else {
        0
    }
}

impl StageAggregate {
    /// Each total fits: it is made of as many times as there are transfers.
    pub open spec fn wf(self) -> bool {
        &&& self.irq_to_terminal_samples <= self.requests
        &&& self.data_irq_to_acd_samples <= self.requests
        &&& self.api_total_ns <= self.requests * u64::MAX
        &&& self.api_to_prepare_ns <= self.requests * u64::MAX
        &&& self.prepare_ns <= self.requests * u64::MAX
        &&& self.prepare_to_cmd_ns <= self.requests * u64::MAX
        &&& self.submit_ns <= self.requests * u64::MAX
        &&& self.command_wait_ns <= self.requests * u64::MAX
        &&& self.data_wait_ns <= self.requests * u64::MAX
        &&& self.validation_ns <= self.requests * u64::MAX
        &&& self.validation_to_cleanup_ns <= self.requests * u64::MAX
        &&& self.cleanup_ns <= self.requests * u64::MAX
        &&& self.copy_to_user_ns <= self.requests * u64::MAX
        &&& self.command_to_terminal_ns <= self.requests * u64::MAX
        &&& self.software_ns <= self.requests * u64::MAX
        &&& self.irq_to_terminal_ns <= self.requests * u64::MAX
        &&& self.data_irq_to_acd_ns <= self.requests * u64::MAX
    }

    /// No transfer yet.
    #[verifier::allow_in_spec]
    pub fn empty() -> StageAggregate
        returns
            (StageAggregate {
                requests: 0,
                api_total_ns: 0,
                api_to_prepare_ns: 0,
                prepare_ns: 0,
                prepare_to_cmd_ns: 0,
                submit_ns: 0,
                command_wait_ns: 0,
                data_wait_ns: 0,
                validation_ns: 0,
                validation_to_cleanup_ns: 0,
                cleanup_ns: 0,
                copy_to_user_ns: 0,
                command_to_terminal_ns: 0,
                software_ns: 0,
                irq_to_terminal_ns: 0,
                irq_to_terminal_samples: 0,
                data_irq_to_acd_ns: 0,
                data_irq_to_acd_samples: 0,
                irq_rintsts_bits: 0,
                irq_idsts_bits: 0,
                slowest_api_ns: 0,
                slowest_request: 0,
                slowest_lba: 0,
                slowest: None,
            }),
    {
        StageAggregate {
            requests: 0,
            api_total_ns: 0,
            api_to_prepare_ns: 0,
            prepare_ns: 0,
            prepare_to_cmd_ns: 0,
            submit_ns: 0,
            command_wait_ns: 0,
            data_wait_ns: 0,
            validation_ns: 0,
            validation_to_cleanup_ns: 0,
            cleanup_ns: 0,
            copy_to_user_ns: 0,
            command_to_terminal_ns: 0,
            software_ns: 0,
            irq_to_terminal_ns: 0,
            irq_to_terminal_samples: 0,
            data_irq_to_acd_ns: 0,
            data_irq_to_acd_samples: 0,
            irq_rintsts_bits: 0,
            irq_idsts_bits: 0,
            slowest_api_ns: 0,
            slowest_request: 0,
            slowest_lba: 0,
            slowest: None,
        }
    }

    /// The totals with one more transfer.
    pub open spec fn with(self, sample: StageSample) -> StageAggregate {
        StageAggregate {
            requests: (self.requests + 1) as usize,
            api_total_ns: (self.api_total_ns + sample.durations.api_total_ns) as u128,
            api_to_prepare_ns: (self.api_to_prepare_ns
                + sample.durations.api_to_prepare_ns) as u128,
            prepare_ns: (self.prepare_ns + sample.durations.prepare_ns) as u128,
            prepare_to_cmd_ns: (self.prepare_to_cmd_ns
                + sample.durations.prepare_to_cmd_ns) as u128,
            submit_ns: (self.submit_ns + sample.durations.submit_ns) as u128,
            command_wait_ns: (self.command_wait_ns + sample.durations.command_wait_ns) as u128,
            data_wait_ns: (self.data_wait_ns + sample.durations.data_wait_ns) as u128,
            validation_ns: (self.validation_ns + sample.durations.validation_ns) as u128,
            validation_to_cleanup_ns: (self.validation_to_cleanup_ns
                + sample.durations.validation_to_cleanup_ns) as u128,
            cleanup_ns: (self.cleanup_ns + sample.durations.cleanup_ns) as u128,
            copy_to_user_ns: (self.copy_to_user_ns + sample.durations.copy_to_user_ns) as u128,
            command_to_terminal_ns: (self.command_to_terminal_ns
                + sample.durations.command_to_terminal_ns) as u128,
            software_ns: (self.software_ns + sample.durations.software_ns) as u128,
            irq_to_terminal_ns: (self.irq_to_terminal_ns
                + sample.durations.irq_to_terminal_ns) as u128,
            irq_to_terminal_samples: (self.irq_to_terminal_samples + counted(
                sample.durations.irq_to_terminal_ns,
            )) as usize,
            data_irq_to_acd_ns: (self.data_irq_to_acd_ns
                + sample.durations.data_irq_to_acd_ns) as u128,
            data_irq_to_acd_samples: (self.data_irq_to_acd_samples + counted(
                sample.durations.data_irq_to_acd_ns,
            )) as usize,
            irq_rintsts_bits: self.irq_rintsts_bits | sample.irq_rintsts_bits,
            irq_idsts_bits: self.irq_idsts_bits | sample.irq_idsts_bits,
            slowest_api_ns: if sample.durations.api_total_ns > self.slowest_api_ns {
                sample.durations.api_total_ns
            } else {
                self.slowest_api_ns
            },
            slowest_request: if sample.durations.api_total_ns > self.slowest_api_ns {
                sample.request
            } else {
                self.slowest_request
            },
            slowest_lba: if sample.durations.api_total_ns > self.slowest_api_ns {
                sample.lba
            } else {
                self.slowest_lba
            },
            slowest: if sample.durations.api_total_ns > self.slowest_api_ns {
                Some(sample.durations)
            } else {
                self.slowest
            },
        }
    }

    /// Takes one more transfer.
    pub fn add(&mut self, sample: StageSample)
        requires
            old(self).wf(),
            old(self).requests < usize::MAX,
        ensures
            final(self).wf(),
            *final(self) == old(self).with(sample),
    {
        proof {
            lemma_room(self.requests as int + 1);
        }
        self.requests = self.requests + 1;
        self.api_total_ns = self.api_total_ns + sample.durations.api_total_ns as u128;
        self.api_to_prepare_ns = self.api_to_prepare_ns
            + sample.durations.api_to_prepare_ns as u128;
        self.prepare_ns = self.prepare_ns + sample.durations.prepare_ns as u128;
        self.prepare_to_cmd_ns = self.prepare_to_cmd_ns
            + sample.durations.prepare_to_cmd_ns as u128;
        self.submit_ns = self.submit_ns + sample.durations.submit_ns as u128;
        self.command_wait_ns = self.command_wait_ns + sample.durations.command_wait_ns as u128;
        self.data_wait_ns = self.data_wait_ns + sample.durations.data_wait_ns as u128;
        self.validation_ns = self.validation_ns + sample.durations.validation_ns as u128;
        self.validation_to_cleanup_ns = self.validation_to_cleanup_ns
            + sample.durations.validation_to_cleanup_ns as u128;
        self.cleanup_ns = self.cleanup_ns + sample.durations.cleanup_ns as u128;
        self.copy_to_user_ns = self.copy_to_user_ns + sample.durations.copy_to_user_ns as u128;
        self.command_to_terminal_ns = self.command_to_terminal_ns
            + sample.durations.command_to_terminal_ns as u128;
        self.software_ns = self.software_ns + sample.durations.software_ns as u128;
        if sample.durations.irq_to_terminal_ns != 0 {
            self.irq_to_terminal_ns = self.irq_to_terminal_ns
                + sample.durations.irq_to_terminal_ns as u128;
            self.irq_to_terminal_samples = self.irq_to_terminal_samples + 1;
        }
        if sample.durations.data_irq_to_acd_ns != 0 {
            self.data_irq_to_acd_ns = self.data_irq_to_acd_ns
                + sample.durations.data_irq_to_acd_ns as u128;
            self.data_irq_to_acd_samples = self.data_irq_to_acd_samples + 1;
        }
        self.irq_rintsts_bits = self.irq_rintsts_bits | sample.irq_rintsts_bits;
        self.irq_idsts_bits = self.irq_idsts_bits | sample.irq_idsts_bits;
        if sample.durations.api_total_ns > self.slowest_api_ns {
            self.slowest_api_ns = sample.durations.api_total_ns;
            self.slowest_request = sample.request;
            self.slowest_lba = sample.lba;
            self.slowest = Some(sample.durations);
        }
    }

    /// The totals of two runs together.
    pub open spec fn joined(self, other: StageAggregate) -> StageAggregate {
        StageAggregate {
            requests: (self.requests + other.requests) as usize,
            api_total_ns: (self.api_total_ns + other.api_total_ns) as u128,
            api_to_prepare_ns: (self.api_to_prepare_ns + other.api_to_prepare_ns) as u128,
            prepare_ns: (self.prepare_ns + other.prepare_ns) as u128,
            prepare_to_cmd_ns: (self.prepare_to_cmd_ns + other.prepare_to_cmd_ns) as u128,
            submit_ns: (self.submit_ns + other.submit_ns) as u128,
            command_wait_ns: (self.command_wait_ns + other.command_wait_ns) as u128,
            data_wait_ns: (self.data_wait_ns + other.data_wait_ns) as u128,
            validation_ns: (self.validation_ns + other.validation_ns) as u128,
            validation_to_cleanup_ns: (self.validation_to_cleanup_ns
                + other.validation_to_cleanup_ns) as u128,
            cleanup_ns: (self.cleanup_ns + other.cleanup_ns) as u128,
            copy_to_user_ns: (self.copy_to_user_ns + other.copy_to_user_ns) as u128,
            command_to_terminal_ns: (self.command_to_terminal_ns
                + other.command_to_terminal_ns) as u128,
            software_ns: (self.software_ns + other.software_ns) as u128,
            irq_to_terminal_ns: (self.irq_to_terminal_ns + other.irq_to_terminal_ns) as u128,
            data_irq_to_acd_ns: (self.data_irq_to_acd_ns + other.data_irq_to_acd_ns) as u128,
            irq_to_terminal_samples: (self.irq_to_terminal_samples
                + other.irq_to_terminal_samples) as usize,
            data_irq_to_acd_samples: (self.data_irq_to_acd_samples
                + other.data_irq_to_acd_samples) as usize,
            irq_rintsts_bits: self.irq_rintsts_bits | other.irq_rintsts_bits,
            irq_idsts_bits: self.irq_idsts_bits | other.irq_idsts_bits,
            slowest_api_ns: if other.slowest_api_ns > self.slowest_api_ns {
                other.slowest_api_ns
            } else {
                self.slowest_api_ns
            },
            slowest_request: if other.slowest_api_ns > self.slowest_api_ns {
                other.slowest_request
            } else {
                self.slowest_request
            },
            slowest_lba: if other.slowest_api_ns > self.slowest_api_ns {
                other.slowest_lba
            } else {
                self.slowest_lba
            },
            slowest: if other.slowest_api_ns > self.slowest_api_ns {
                other.slowest
            } else {
                self.slowest
            },
        }
    }

    /// Takes the totals of another run.
    pub fn merge(&mut self, other: &StageAggregate)
        requires
            old(self).wf(),
            other.wf(),
            old(self).requests + other.requests <= usize::MAX,
        ensures
            final(self).wf(),
            *final(self) == old(self).joined(*other),
    {
        proof {
            lemma_room(self.requests + other.requests);
            assert((self.requests + other.requests) * u64::MAX == self.requests * u64::MAX
                + other.requests * u64::MAX) by (nonlinear_arith);
        }
        self.requests = self.requests + other.requests;
        self.api_total_ns = self.api_total_ns + other.api_total_ns;
        self.api_to_prepare_ns = self.api_to_prepare_ns + other.api_to_prepare_ns;
        self.prepare_ns = self.prepare_ns + other.prepare_ns;
        self.prepare_to_cmd_ns = self.prepare_to_cmd_ns + other.prepare_to_cmd_ns;
        self.submit_ns = self.submit_ns + other.submit_ns;
        self.command_wait_ns = self.command_wait_ns + other.command_wait_ns;
        self.data_wait_ns = self.data_wait_ns + other.data_wait_ns;
        self.validation_ns = self.validation_ns + other.validation_ns;
        self.validation_to_cleanup_ns = self.validation_to_cleanup_ns
            + other.validation_to_cleanup_ns;
        self.cleanup_ns = self.cleanup_ns + other.cleanup_ns;
        self.copy_to_user_ns = self.copy_to_user_ns + other.copy_to_user_ns;
        self.command_to_terminal_ns = self.command_to_terminal_ns + other.command_to_terminal_ns;
        self.software_ns = self.software_ns + other.software_ns;
        self.irq_to_terminal_ns = self.irq_to_terminal_ns + other.irq_to_terminal_ns;
        self.irq_to_terminal_samples = self.irq_to_terminal_samples + other.irq_to_terminal_samples;
        self.data_irq_to_acd_ns = self.data_irq_to_acd_ns + other.data_irq_to_acd_ns;
        self.data_irq_to_acd_samples = self.data_irq_to_acd_samples + other.data_irq_to_acd_samples;
        self.irq_rintsts_bits = self.irq_rintsts_bits | other.irq_rintsts_bits;
        self.irq_idsts_bits = self.irq_idsts_bits | other.irq_idsts_bits;
        if other.slowest_api_ns > self.slowest_api_ns {
            self.slowest_api_ns = other.slowest_api_ns;
            self.slowest_request = other.slowest_request;
            self.slowest_lba = other.slowest_lba;
            self.slowest = other.slowest;
        }
    }

    /// Mean of a total over all transfers.
    pub fn average(&self, total: u128) -> (average: u64)
        ensures
            average == mean_over(total, self.requests),
    {
        divide(total, self.requests)
    }

    /// Mean time from the last interrupt to the end of the data phase.
    pub fn irq_to_terminal_average(&self) -> (average: u64)
        ensures
            average == mean_over(self.irq_to_terminal_ns, self.irq_to_terminal_samples),
    {
        divide(self.irq_to_terminal_ns, self.irq_to_terminal_samples)
    }

    /// Mean time from the interrupt of the data to that of the automatic stop.
    pub fn data_irq_to_acd_average(&self) -> (average: u64)
        ensures
            average == mean_over(self.data_irq_to_acd_ns, self.data_irq_to_acd_samples),
    {
        divide(self.data_irq_to_acd_ns, self.data_irq_to_acd_samples)
    }
}

/// A total divided by a count; a count of 0 stands for 1.
pub open spec fn mean_over(total: u128, count: usize) -> u64 {
    low64(
        total as int / (if count == 0 {
            1int
        } else {
            count as int
        }),
    )
}

/// Divides a total by a count.
fn divide(total: u128, count: usize) -> (mean: u64)
    ensures
        mean == mean_over(total, count),
{
    let divisor: u128 = if count == 0 {
        1
    } else {
        count as u128
    };
    (total / divisor % 0x1_0000_0000_0000_0000) as u64
}

/// As many times as a count can hold add up to a number of 128 bits.
proof fn lemma_room(count: int)
    requires
        0 <= count <= usize::MAX,
    ensures
        count * u64::MAX <= u128::MAX,
        count > 0 ==> count * u64::MAX == (count - 1) * u64::MAX + u64::MAX,
{
    assert(count * u64::MAX <= u128::MAX) by (nonlinear_arith)
        requires
            0 <= count <= u64::MAX,
    ;
    assert(count * u64::MAX == (count - 1) * u64::MAX + u64::MAX) by (nonlinear_arith);
}

/// The totals of a series of transfers.
pub open spec fn aggregate_of(samples: Seq<StageSample>) -> StageAggregate
    decreases samples.len(),
{
    if samples.len() == 0 {
        StageAggregate::empty()
    } else {
        aggregate_of(samples.drop_last()).with(samples.last())
    }
}

/// The totals of a series are well formed and count its transfers.
proof fn lemma_aggregate(samples: Seq<StageSample>)
    requires
        samples.len() <= usize::MAX,
    ensures
        aggregate_of(samples).wf(),
        aggregate_of(samples).requests == samples.len(),
    decreases samples.len(),
{
    if samples.len() > 0 {
        lemma_aggregate(samples.drop_last());
        lemma_room(samples.len() as int);
    }
}

/// Merging the totals of two series gives the totals of the one that is made of
/// both.
pub proof fn law_merge_joins_runs(a: Seq<StageSample>, b: Seq<StageSample>)
    requires
        a.len() + b.len() <= usize::MAX,
    ensures
        aggregate_of(a).joined(aggregate_of(b)) == aggregate_of(a + b),
    decreases b.len(),
{
    lemma_aggregate(a);
    lemma_aggregate(b);
    if b.len() == 0 {
        assert(a + b =~= a);
        lemma_or(aggregate_of(a).irq_rintsts_bits, 0, 0);
        lemma_or(aggregate_of(a).irq_idsts_bits, 0, 0);
    } else {
        let c = b.drop_last();
        assert((a + b).drop_last() =~= a + c);
        law_merge_joins_runs(a, c);
        lemma_aggregate(c);
        lemma_join_then_add(aggregate_of(a), aggregate_of(c), b.last());
    }
}

/// A transfer can be added before or after two runs are joined.
proof fn lemma_join_then_add(x: StageAggregate, y: StageAggregate, sample: StageSample)
    requires
        x.wf(),
        y.wf(),
        x.requests + y.requests < usize::MAX,
    ensures
        x.joined(y.with(sample)) == x.joined(y).with(sample),
{
    lemma_or(x.irq_rintsts_bits, y.irq_rintsts_bits, sample.irq_rintsts_bits);
    lemma_or(x.irq_idsts_bits, y.irq_idsts_bits, sample.irq_idsts_bits);
    lemma_room(x.requests + y.requests + 1);
    assert((x.requests + y.requests) * u64::MAX == x.requests * u64::MAX + y.requests * u64::MAX)
        by (nonlinear_arith);
    assert(x.requests * u64::MAX >= 0 && y.requests * u64::MAX >= 0) by (nonlinear_arith)
        requires
            x.requests >= 0,
            y.requests >= 0,
    ;
    let (l, r) = (x.joined(y.with(sample)), x.joined(y).with(sample));
    assert(l.requests == r.requests);
    assert(l.api_total_ns == r.api_total_ns);
    assert(l.api_to_prepare_ns == r.api_to_prepare_ns);
    assert(l.prepare_ns == r.prepare_ns);
    assert(l.prepare_to_cmd_ns == r.prepare_to_cmd_ns);
    assert(l.submit_ns == r.submit_ns);
    assert(l.command_wait_ns == r.command_wait_ns);
    assert(l.data_wait_ns == r.data_wait_ns);
    assert(l.validation_ns == r.validation_ns);
    assert(l.validation_to_cleanup_ns == r.validation_to_cleanup_ns);
    assert(l.cleanup_ns == r.cleanup_ns);
    assert(l.copy_to_user_ns == r.copy_to_user_ns);
    assert(l.command_to_terminal_ns == r.command_to_terminal_ns);
    assert(l.software_ns == r.software_ns);
    assert(l.irq_to_terminal_ns == r.irq_to_terminal_ns);
    assert(l.data_irq_to_acd_ns == r.data_irq_to_acd_ns);
    assert(l.irq_to_terminal_samples == r.irq_to_terminal_samples);
    assert(l.data_irq_to_acd_samples == r.data_irq_to_acd_samples);
}

/// Gathering bits does not depend on the order of the steps.
proof fn lemma_or(a: u32, b: u32, c: u32)
    by (bit_vector)
    ensures
        (a | b) | c == a | (b | c),
        a | 0 == a,
{
}

} // verus!
