//! What a trace of operations and replies amounts to.

use vstd::prelude::*;

use crate::dma::IdmacDescriptor;
use crate::io::{Op, Reply};
use crate::regs::{Cmd, Reg};

verus! {

/// The reply of a trace, counted from the end.
pub open spec fn reply_back(trace: Seq<(Op, Reply)>, n: int) -> Reply {
    trace[trace.len() - 1 - n].1
}

/// The operation of a trace, counted from the end.
pub open spec fn op_back(trace: Seq<(Op, Reply)>, n: int) -> Op {
    trace[trace.len() - 1 - n].0
}

/// The operation writes the command register, which submits a command.
pub open spec fn submits(op: Op) -> bool {
    op matches Op::Write(Reg::Cmd, _)
}

/// Descriptor allocations that were made and not given back.
pub open spec fn descriptors_held(trace: Seq<(Op, Reply)>) -> int
    decreases trace.len(),
{
    if trace.len() == 0 {
        0
    } else {
        let before = descriptors_held(trace.drop_last());
        match trace.last().0 {
            Op::AllocDescriptors(_) => if trace.last().1.address() is Some {
                before + 1
            } else {
                before
            },
            Op::FreeDescriptors => before - 1,
            _ => before,
        }
    }
}

/// Transfer buffers that were allocated and not given back.
pub open spec fn buffers_held(trace: Seq<(Op, Reply)>) -> int
    decreases trace.len(),
{
    if trace.len() == 0 {
        0
    } else {
        let before = buffers_held(trace.drop_last());
        match trace.last().0 {
            Op::AllocBuffer { .. } => if trace.last().1.address() is Some {
                before + 1
            } else {
                before
            },
            Op::FreeBuffer { .. } => before - 1,
            _ => before,
        }
    }
}

/// The interrupt handler was registered.
pub open spec fn handler_registered(trace: Seq<(Op, Reply)>) -> bool
    decreases trace.len(),
{
    trace.len() > 0 && ((trace.last().0 is RegisterIrq && trace.last().1.flag())
        || handler_registered(trace.drop_last()))
}

/// The operation enables an interrupt.
pub open spec fn enables_interrupt(op: Op) -> bool {
    match op {
        Op::Write(Reg::IntMask, word) => word != 0,
        Op::Write(Reg::IdIntEn, word) => word != 0,
        Op::Update { reg: Reg::Ctrl, set, .. } => set & crate::regs::Ctrl::INT_ENABLE != 0,
        _ => false,
    }
}

/// Number of commands submitted.
pub open spec fn submissions(trace: Seq<(Op, Reply)>) -> int
    decreases trace.len(),
{
    if trace.len() == 0 {
        0
    } else {
        submissions(trace.drop_last()) + (if submits(trace.last().0) {
            1int
        } else {
            0int
        })
    }
}

/// The words written to the command register, in order.
pub open spec fn commands(trace: Seq<(Op, Reply)>) -> Seq<u32>
    decreases trace.len(),
{
    if trace.len() == 0 {
        Seq::empty()
    } else {
        match trace.last().0 {
            Op::Write(Reg::Cmd, word) => commands(trace.drop_last()).push(word),
            _ => commands(trace.drop_last()),
        }
    }
}

/// Descriptors stored, in the order of the store operations.
pub open spec fn stored(trace: Seq<(Op, Reply)>) -> Seq<(usize, IdmacDescriptor)>
    decreases trace.len(),
{
    if trace.len() == 0 {
        Seq::empty()
    } else {
        match trace.last().0 {
            Op::StoreDescriptor(index, descriptor) => stored(trace.drop_last()).push(
                (index, descriptor),
            ),
            _ => stored(trace.drop_last()),
        }
    }
}

/// The word last written to a register.
pub open spec fn last_written(trace: Seq<(Op, Reply)>, reg: Reg) -> Option<u32>
    decreases trace.len(),
{
    if trace.len() == 0 {
        None
    } else {
        match trace.last().0 {
            Op::Write(r, word) => if r == reg {
                Some(word)
            } else {
                last_written(trace.drop_last(), reg)
            },
            _ => last_written(trace.drop_last(), reg),
        }
    }
}

/// The block size that was programmed last: what the low half of the block size register
/// holds, where all of it was programmed at once.
pub open spec fn block_size(trace: Seq<(Op, Reply)>) -> Option<u32>
    decreases trace.len(),
{
    if trace.len() == 0 {
        None
    } else {
        match trace.last().0 {
            Op::Write(Reg::BlkSiz, word) => Some(word & 0xffff),
            Op::Update { reg: Reg::BlkSiz, clear, set } => if clear & 0xffff == 0xffff {
                Some(set & 0xffff)
            } else {
                None
            },
            _ => block_size(trace.drop_last()),
        }
    }
}

/// Programming a block size leaves it in the register.
pub proof fn lemma_block_size_programmed(old: u32, size: u32)
    requires
        size <= 0xffff,
    ensures
        0xffffu32 & 0xffff == 0xffff,
        size & 0xffff == size,
        crate::regs::updated(old, 0xffff, size) & 0xffff == size,
{
    assert(0xffffu32 & 0xffff == 0xffff) by (bit_vector);
    assert(size & 0xffff == size && ((old & !0xffffu32) | size) & 0xffff == size) by (bit_vector)
        requires
            size <= 0xffff,
    ;
}

/// The command that was submitted last.
pub open spec fn submitted(trace: Seq<(Op, Reply)>) -> Cmd {
    match last_written(trace, Reg::Cmd) {
        Some(word) => Cmd(word),
        None => Cmd(0),
    }
}

/// The operation looks at the register.
pub open spec fn looks(op: Op, reg: Reg) -> bool {
    op == Op::Read(reg) || op == Op::Poll(reg)
}

/// The operation reads the status by which a command is judged: it acknowledges it
/// after the response was read.
pub open spec fn judged(trace: Seq<(Op, Reply)>, i: int) -> bool {
    i >= 1 && trace[i].0 == Op::Acknowledge(Reg::RIntSts) && trace[i - 1].0 == Op::Response
}

/// The operation makes a procedure take longer: it looks once more at what was found
/// wanting, pauses before that, or finds that a transfer is not over yet.
pub open spec fn delays(before: Seq<(Op, Reply)>, op: Op, reply: Reply) -> bool {
    match op {
        Op::Poll(_) => true,
        Op::Yield => true,
        Op::BusyWait(_) => true,
        Op::Observe(_) => !reply.status().idmac_command_done_or_error()
            || !reply.status().idmac_terminal_events_or_error(submitted(before)),
        _ => false,
    }
}

/// Number of operations that made a procedure take longer.
pub open spec fn delay(trace: Seq<(Op, Reply)>) -> int
    decreases trace.len(),
{
    if trace.len() == 0 {
        0
    } else {
        delay(trace.drop_last()) + (if delays(
            trace.drop_last(),
            trace.last().0,
            trace.last().1,
        ) {
            1int
        } else {
            0int
        })
    }
}

/// Descriptors given back.
pub open spec fn frees(trace: Seq<(Op, Reply)>) -> int
    decreases trace.len(),
{
    if trace.len() == 0 {
        0
    } else {
        frees(trace.drop_last()) + (if trace.last().0 is FreeDescriptors {
            1int
        } else {
            0int
        })
    }
}

/// What one more operation makes of the accounts of a trace.
pub proof fn lemma_accounts_push(trace: Seq<(Op, Reply)>, op: Op, reply: Reply)
    ensures
        ({
            let after = trace.push((op, reply));
            &&& stored(after) == (match op {
                Op::StoreDescriptor(index, descriptor) => stored(trace).push((index, descriptor)),
                _ => stored(trace),
            })
            &&& forall|reg: Reg| #[trigger]
                last_written(after, reg) == (match op {
                    Op::Write(r, word) => if r == reg {
                        Some(word)
                    } else {
                        last_written(trace, reg)
                    },
                    _ => last_written(trace, reg),
                })
            &&& block_size(after) == (match op {
                Op::Write(Reg::BlkSiz, word) => Some(word & 0xffff),
                Op::Update { reg: Reg::BlkSiz, clear, set } => if clear & 0xffff == 0xffff {
                    Some(set & 0xffff)
                } else {
                    None
                },
                _ => block_size(trace),
            })
            &&& op_back(after, 0) == op
            &&& trace.len() > 0 ==> op_back(after, 1) == op_back(trace, 0)
        }),
{
    assert(trace.push((op, reply)).drop_last() =~= trace);
}

} // verus!
