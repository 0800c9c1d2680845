//! Completion events of DMA transfers, collected by the interrupt handler.
//!
//! The handler clears status bits in the registers, so a waiter must see the
//! bits that the handler has seen. Transfers are numbered by generations: bits
//! count only for the generation during which the handler recorded them.

use vstd::prelude::*;

use crate::enable::idmac_controller_interrupt_mask;
use crate::regs::{Cmd, IdIntEn, IdSts, RIntSts};

verus! {

/// Status bits recorded by the interrupt handler, per transfer generation.
#[derive(Clone, Copy, Debug, PartialEq, Eq, Structural)]
pub struct IdmacCompletion {
    /// Generation of the current transfer, 0 before the first one.
    pub generation: usize,
    /// Generation to which the recorded bits belong.
    pub snapshot_generation: usize,
    /// Recorded bits of RINTSTS.
    pub rintsts_bits: u32,
    /// Recorded bits of IDSTS.
    pub idsts_bits: u32,
    /// Transfers for which at least one interrupt was recorded.
    pub irq_transfer_count: usize,
}

impl IdmacCompletion {
    /// No transfer yet.
    pub fn new() -> (completion: Self)
        ensures
            completion.generation == 0,
            completion.recorded(0) == Some((0u32, 0u32)),
            completion.irq_transfer_count == 0,
    {
        IdmacCompletion {
            generation: 0,
            snapshot_generation: 0,
            rintsts_bits: 0,
            idsts_bits: 0,
            irq_transfer_count: 0,
        }
    }

    /// The bits recorded for a generation, if any are known for it.
    pub open spec fn recorded(self, generation: usize) -> Option<(u32, u32)> {
        if self.snapshot_generation == generation {
            Some((self.rintsts_bits, self.idsts_bits))
        } else {
            None
        }
    }

    /// What the start of a new transfer leaves behind: the next generation,
    /// for which nothing is recorded yet.
    pub open spec fn after_begin(self) -> Self {
        IdmacCompletion {
            generation: if self.generation == usize::MAX {
                0
            } else {
                (self.generation + 1) as usize
            },
            snapshot_generation: 0,
            rintsts_bits: 0,
            idsts_bits: 0,
            irq_transfer_count: self.irq_transfer_count,
        }
    }

    /// Starts a new generation with nothing recorded and returns its number.
    pub fn begin_transfer(&mut self) -> (generation: usize)
        ensures
            *final(self) == old(self).after_begin(),
            generation == final(self).generation,
    {
        self.snapshot_generation = 0;
        self.rintsts_bits = 0;
        self.idsts_bits = 0;
        self.generation = self.generation.wrapping_add(1);
        self.generation
    }

    /// Number of the current generation.
    pub fn current_generation(&self) -> (generation: usize)
        ensures
            generation == self.generation,
    {
        self.generation
    }

    /// What recording an interrupt leaves behind: the bits are added to those
    /// of the current generation. Before the first transfer nothing is kept.
    pub open spec fn after_irq(self, rintsts: RIntSts, idsts: IdSts) -> Self {
        if self.generation == 0 {
            self
        } else {
            IdmacCompletion {
                generation: self.generation,
                snapshot_generation: self.generation,
                rintsts_bits: self.rintsts_bits | rintsts.0,
                idsts_bits: self.idsts_bits | idsts.0,
                irq_transfer_count: if self.snapshot_generation == self.generation {
                    self.irq_transfer_count
                } else {
                    self.irq_transfer_count.wrapping_add(1)
                },
            }
        }
    }

    /// Records the status that an interrupt found.
    pub fn record_irq(&mut self, rintsts: RIntSts, idsts: IdSts)
        ensures
            *final(self) == old(self).after_irq(rintsts, idsts),
    {
        if self.generation == 0 {
            return;
        }
        if self.snapshot_generation != self.generation {
            self.irq_transfer_count = self.irq_transfer_count.wrapping_add(1);
        }
        self.rintsts_bits = self.rintsts_bits | rintsts.0;
        self.idsts_bits = self.idsts_bits | idsts.0;
        self.snapshot_generation = self.generation;
    }

    /// The bits recorded for `generation`, or nothing if the recorded bits
    /// belong to another one.
    pub fn snapshot_bits(&self, generation: usize) -> (bits: Option<(u32, u32)>)
        ensures
            bits == self.recorded(generation),
    {
        if self.snapshot_generation != generation {
            return None;
        }
        Some((self.rintsts_bits, self.idsts_bits))
    }
}

/// Status of a transfer as a waiter sees it.
#[derive(Clone, Copy, Debug, PartialEq, Eq, Structural)]
pub struct IdmacStatus {
    /// Controller events, current and recorded.
    pub rintsts: RIntSts,
    /// DMA engine events, current and recorded.
    pub idsts: IdSts,
    /// The interrupt handler has seen an error.
    pub error_flag: bool,
}

impl IdmacStatus {
    /// The status that results from the current registers and from what the
    /// interrupt handler recorded.
    pub open spec fn merged(
        rintsts: u32,
        idsts: u32,
        recorded: Option<(u32, u32)>,
        error_flag: bool,
    ) -> Self {
        match recorded {
            Some((r, i)) => IdmacStatus {
                rintsts: RIntSts(rintsts | r),
                idsts: IdSts(idsts | i),
                error_flag,
            },
            None => IdmacStatus { rintsts: RIntSts(rintsts), idsts: IdSts(idsts), error_flag },
        }
    }

    /// Merges the current registers with what the interrupt handler recorded.
    pub fn idmac_completion_status(
        rintsts: u32,
        idsts: u32,
        recorded: Option<(u32, u32)>,
        error_flag: bool,
    ) -> (status: Self)
        ensures
            status == IdmacStatus::merged(rintsts, idsts, recorded, error_flag),
    {
        let (r, i): (u32, u32) = match recorded {
            Some(bits) => bits,
            None => (0, 0),
        };
        assert(rintsts | 0u32 == rintsts && idsts | 0u32 == idsts) by (bit_vector);
        IdmacStatus { rintsts: RIntSts(rintsts | r), idsts: IdSts(idsts | i), error_flag }
    }

    /// An error was reported by the handler, the controller or the engine.
    #[verifier::allow_in_spec]
    pub fn idmac_status_has_error(self) -> bool
        returns
            self.error_flag || self.rintsts.error() || self.idsts.error(),
    {
        self.error_flag || self.rintsts.error() || self.idsts.error()
    }

    /// The command phase is over.
    #[verifier::allow_in_spec]
    pub fn idmac_command_done_or_error(self) -> bool
        returns
            self.rintsts.command_done() || self.idmac_status_has_error(),
    {
        self.rintsts.command_done() || self.idmac_status_has_error()
    }

    /// Every event has arrived that the completion of `cmd` brings: the
    /// response, the automatic stop and the DMA direction that apply to it, and
    /// the end of the data phase.
    #[verifier::allow_in_spec]
    pub fn terminal_events(self, cmd: Cmd) -> bool
        returns
            (!cmd.response_expect() || self.rintsts.command_done()) && (!cmd.send_auto_stop()
                || self.rintsts.auto_command_done()) && (if cmd.read_write() {
                self.idsts.ti()
            } else {
                self.idsts.ri()
            }) && self.rintsts.data_transfer_over(),
    {
        (!cmd.response_expect() || self.rintsts.command_done()) && (!cmd.send_auto_stop()
            || self.rintsts.auto_command_done()) && (if cmd.read_write() {
            self.idsts.ti()
        } else {
            self.idsts.ri()
        }) && self.rintsts.data_transfer_over()
    }

    /// The transfer of `cmd` is over, with or without success.
    #[verifier::allow_in_spec]
    pub fn idmac_terminal_events_or_error(self, cmd: Cmd) -> bool
        returns
            self.idmac_status_has_error() || self.terminal_events(cmd),
    {
        self.idmac_status_has_error() || self.terminal_events(cmd)
    }
}

/// What the interrupt handler does about a pair of status words.
#[derive(Clone, Copy, Debug, PartialEq, Eq, Structural)]
pub struct IrqActions {
    /// Raise the error flag.
    pub error: bool,
    /// Word to write to IDSTS, which clears its bits.
    pub clear_idsts: Option<u32>,
    /// Word to write to RINTSTS, which clears its bits.
    pub clear_rintsts: Option<u32>,
    /// Wake the waiter.
    pub notify: bool,
}

/// RINTSTS bits that the interrupt handler may clear. Command done stays for
/// the command path, which polls for it.
pub const IRQ_CLEARABLE: u32 = 0xfffa;

impl IrqActions {
    /// An error of the engine, the card or the controller.
    pub open spec fn is_error(rintsts: RIntSts, idsts: IdSts) -> bool {
        idsts.error() || rintsts.error()
    }

    /// A step of a transfer was completed.
    pub open spec fn is_event(rintsts: RIntSts, idsts: IdSts) -> bool {
        idsts.ri() || idsts.ti() || rintsts.data_transfer_over() || rintsts.auto_command_done()
    }

    /// The actions that answer a pair of status words.
    pub open spec fn answer(rintsts: RIntSts, idsts: IdSts) -> Self {
        let relevant = Self::is_event(rintsts, idsts) || Self::is_error(rintsts, idsts);
        IrqActions {
            error: Self::is_error(rintsts, idsts),
            clear_idsts: if idsts.any_event() {
                Some(idsts.0)
            } else {
                None
            },
            clear_rintsts: if relevant || rintsts.receive_fifo_data_request()
                || rintsts.transmit_fifo_data_request() {
                Some(rintsts.0 & IRQ_CLEARABLE)
            } else {
                None
            },
            notify: relevant,
        }
    }

    /// Decides what to do about a pair of status words.
    pub fn decide(rintsts: RIntSts, idsts: IdSts) -> (actions: Self)
        ensures
            actions == Self::answer(rintsts, idsts),
    {
        let idmac_error = idsts.error() || rintsts.error();
        let transfer_done = idsts.ri() || idsts.ti() || rintsts.data_transfer_over();
        let transfer_event = transfer_done || rintsts.auto_command_done();
        IrqActions {
            error: idmac_error,
            clear_idsts: if idsts.any_event() {
                Some(idsts.0)
            } else {
                None
            },
            clear_rintsts: if transfer_event || idmac_error || rintsts.receive_fifo_data_request()
                || rintsts.transmit_fifo_data_request() {
                Some(rintsts.0 & IRQ_CLEARABLE)
            } else {
                None
            },
            notify: transfer_event || idmac_error,
        }
    }
}

/// The interrupt handler never clears command done, which the command path
/// polls for.
pub proof fn law_irq_keeps_command_done(rintsts: RIntSts, idsts: IdSts)
    ensures
        IrqActions::answer(rintsts, idsts).clear_rintsts matches Some(word) ==> !RIntSts(
            word,
        ).command_done(),
{
    let word = rintsts.0;
    assert((word & 0xfffa) & 0x4 == 0) by (bit_vector);
}

/// Whatever the handler clears in the registers stays visible to the waiter of
/// the current generation: a status merged after the handler ran shows every
/// bit that the handler found.
pub proof fn law_cleared_bits_stay_visible(
    completion: IdmacCompletion,
    rintsts: RIntSts,
    idsts: IdSts,
    later_rintsts: u32,
    later_idsts: u32,
    error_flag: bool,
)
    requires
        completion.generation != 0,
    ensures
        ({
            let after = completion.after_irq(rintsts, idsts);
            let status = IdmacStatus::merged(
                later_rintsts,
                later_idsts,
                after.recorded(completion.generation),
                error_flag,
            );
            &&& status.rintsts.0 & rintsts.0 == rintsts.0
            &&& status.idsts.0 & idsts.0 == idsts.0
        }),
{
    lemma_or_keeps_bits(completion.rintsts_bits, rintsts.0, later_rintsts);
    lemma_or_keeps_bits(completion.idsts_bits, idsts.0, later_idsts);
}

proof fn lemma_or_keeps_bits(a: u32, b: u32, c: u32)
    by (bit_vector)
    ensures
        (c | (a | b)) & b == b,
        (c | (a | b)) & a == a,
{
}

/// Bits recorded earlier in the same generation are never lost.
pub proof fn law_records_accumulate(completion: IdmacCompletion, rintsts: RIntSts, idsts: IdSts)
    ensures
        completion.after_irq(rintsts, idsts).rintsts_bits & completion.rintsts_bits
            == completion.rintsts_bits,
        completion.after_irq(rintsts, idsts).idsts_bits & completion.idsts_bits
            == completion.idsts_bits,
{
    lemma_or_keeps_bits(completion.rintsts_bits, rintsts.0, 0);
    lemma_or_keeps_bits(completion.idsts_bits, idsts.0, 0);
    let (a, b) = (completion.rintsts_bits, completion.idsts_bits);
    let (r, i) = (rintsts.0, idsts.0);
    assert((a | r) & a == a && (b | i) & b == b && a & a == a && b & b == b) by (bit_vector);
}

/// Nothing recorded before a transfer began counts for that transfer, and a
/// record made during one generation counts for no other.
pub proof fn law_stale_records_do_not_count(
    completion: IdmacCompletion,
    rintsts: RIntSts,
    idsts: IdSts,
    generation: usize,
)
    requires
        generation != 0,
    ensures
        completion.after_begin().recorded(generation) is None,
        completion.generation != 0 && completion.generation != generation
            ==> completion.after_irq(rintsts, idsts).recorded(generation) is None,
{
}

/// The handler silences what raised the interrupt: of the interrupts that are
/// enabled, none that it found pending is pending any more once its clearing words
/// are written. So the interrupt is not raised again for the same events.
pub proof fn law_handler_silences_enabled_interrupts(rintsts: RIntSts, idsts: IdSts)
    ensures
        ({
            let actions = IrqActions::answer(rintsts, idsts);
            let mask = idmac_controller_interrupt_mask().0;
            &&& rintsts.0 & mask != 0 ==> {
                &&& actions.clear_rintsts matches Some(word)
                &&& (rintsts.0 & !word) & mask == 0
            }
            &&& idsts.0 & IdIntEn::ALL != 0 ==> actions.clear_idsts == Some(idsts.0)
        }),
{
    let r = rintsts.0;
    assert(r & 0xdfca != 0 ==> r & 0xbfc2 != 0 || r & 0x8 != 0 || r & 0x4000 != 0)
        by (bit_vector);
    assert((r & !(r & 0xfffa)) & 0xdfca == 0) by (bit_vector);
}

/// Every enabled interrupt of the controller wakes the waiter. Command done and
/// the FIFO requests alone wake nobody and are no error.
pub proof fn law_only_transfer_events_wake(rintsts: RIntSts, idsts: IdSts)
    ensures
        rintsts.0 & idmac_controller_interrupt_mask().0 != 0 ==> IrqActions::answer(
            rintsts,
            idsts,
        ).notify,
        rintsts.0 & !(RIntSts::COMMAND_DONE | RIntSts::RECEIVE_FIFO_DATA_REQUEST
            | RIntSts::TRANSMIT_FIFO_DATA_REQUEST) == 0 && !idsts.any_event() ==> {
            let actions = IrqActions::answer(rintsts, idsts);
            !actions.notify && !actions.error && actions.clear_idsts is None
        },
{
    let (r, i) = (rintsts.0, idsts.0);
    assert(r & 0xdfca != 0 ==> r & 0xbfc2 != 0 || r & 0x8 != 0 || r & 0x4000 != 0)
        by (bit_vector);
    assert(r & !((0x4u32 | 0x20) | 0x10) == 0 ==> r & 0xbfc2 == 0 && r & 0x8 == 0 && r & 0x4000
        == 0) by (bit_vector);
    assert(i & 0x337 == 0 ==> i & 0x234 == 0 && i & 0x2 == 0 && i & 0x1 == 0) by (bit_vector);
}

/// What a status says, bit by bit. An error is one of the controller's error bits, one of
/// the engine's, or one that the handler has flagged. A transfer is over when the command
/// is done, if it has a response, the automatic stop is done, if there is one, the engine
/// has moved the data in its direction, and the data phase is over.
pub proof fn law_status_is_read_bit_by_bit(status: IdmacStatus, cmd: Cmd)
    ensures
        ({
            let raw = status.rintsts.0;
            let id = status.idsts.0;
            let word = cmd.0;
            let direction = if word & 0x400 != 0 {
                0x1u32
            } else {
                0x2u32
            };
            let failed = status.error_flag || raw & 0xbfc2 != 0 || id & 0x234 != 0;
            let over = (word & 0x40 == 0 || raw & 0x4 != 0) && (word & 0x1000 == 0 || raw & 0x4000
                != 0) && id & direction != 0 && raw & 0x8 != 0;
            &&& status.idmac_status_has_error() == failed
            &&& status.idmac_command_done_or_error() == (failed || raw & 0x4 != 0)
            &&& status.terminal_events(cmd) == over
            &&& status.idmac_terminal_events_or_error(cmd) == (failed || over)
        }),
{
}

/// What the handler does about an interrupt, bit by bit. It wakes whoever waits for an error,
/// for data that the engine has moved, for the end of the data phase or of the automatic
/// stop. It acknowledges what the engine reports, and what the controller reports but for
/// the end of the command, which is left to those who look for it.
pub proof fn law_interrupt_is_answered_bit_by_bit(rintsts: RIntSts, idsts: IdSts)
    ensures
        ({
            let raw = rintsts.0;
            let id = idsts.0;
            let answer = IrqActions::answer(rintsts, idsts);
            &&& answer.error == (raw & 0xbfc2 != 0 || id & 0x234 != 0)
            &&& answer.notify == (raw & 0xffca != 0 || id & 0x237 != 0)
            &&& answer.clear_idsts == (if id & 0x337 != 0 {
                Some(id)
            } else {
                None
            })
            &&& answer.clear_rintsts == (if raw & 0xfffa != 0 || id & 0x237 != 0 {
                Some(raw & 0xfffa)
            } else {
                None
            })
        }),
{
    let raw = rintsts.0;
    let id = idsts.0;
    assert({
        &&& (raw & 0xbfc2 != 0 || raw & 0x8 != 0 || raw & 0x4000 != 0) == (raw & 0xffca != 0)
        &&& (raw & 0xffca != 0 || raw & 0x20 != 0 || raw & 0x10 != 0) == (raw & 0xfffa != 0)
        &&& (id & 0x234 != 0 || id & 0x2 != 0 || id & 0x1 != 0) == (id & 0x237 != 0)
    }) by (bit_vector);
}

/// Interrupts that were recorded one after another.
pub open spec fn after_irqs(completion: IdmacCompletion, irqs: Seq<(u32, u32)>) -> IdmacCompletion
    decreases irqs.len(),
{
    if irqs.len() == 0 {
        completion
    } else {
        after_irqs(completion, irqs.drop_last()).after_irq(
            RIntSts(irqs.last().0),
            IdSts(irqs.last().1),
        )
    }
}

/// However many interrupts a transfer has, it counts as one that had an interrupt, and a
/// transfer without one does not count. What is recorded belongs to it alone.
pub proof fn law_transfer_with_interrupts_counts_once(
    completion: IdmacCompletion,
    irqs: Seq<(u32, u32)>,
)
    requires
        completion.generation < usize::MAX,
        completion.irq_transfer_count < usize::MAX,
    ensures
        ({
            let begun = completion.after_begin();
            let after = after_irqs(begun, irqs);
            &&& begun.generation == completion.generation + 1
            &&& after.generation == begun.generation
            &&& after.irq_transfer_count == completion.irq_transfer_count + (if irqs.len() == 0 {
                0int
            } else {
                1
            })
            &&& after.recorded(begun.generation) is Some <==> irqs.len() > 0
        }),
    decreases irqs.len(),
{
    if irqs.len() > 0 {
        law_transfer_with_interrupts_counts_once(completion, irqs.drop_last());
        vstd::arithmetic::div_mod::lemma_small_mod(
            completion.irq_transfer_count as nat + 1,
            usize::MAX as nat + 1,
        );
    }
}

} // verus!
