//! The boundary between the driver's decisions and the hardware.
//!
//! A procedure of the driver is a [`Machine`]. Its state names the one
//! operation that it wants performed next; the reply to that operation moves it
//! on or ends it. Whoever runs the machine performs the operations on the real
//! controller, clock and memory; the machine itself only decides.

use vstd::prelude::*;

use crate::completion::IdmacStatus;
use crate::dma::IdmacDescriptor;
use crate::regs::{Cmd, Reg};

verus! {

/// Event that an asynchronous wait ends with.
#[derive(Clone, Copy, Debug, PartialEq, Eq, Structural)]
pub enum Until {
    /// The command phase is over.
    CommandDone,
    /// The transfer of the command is over.
    Terminal(Cmd),
}

impl Until {
    /// The status shows the awaited event.
    #[verifier::allow_in_spec]
    pub fn reached(self, status: IdmacStatus) -> bool
        returns
            (match self {
                Until::CommandDone => status.idmac_command_done_or_error(),
                Until::Terminal(cmd) => status.idmac_terminal_events_or_error(cmd),
            }),
    {
        match self {
            Until::CommandDone => status.idmac_command_done_or_error(),
            Until::Terminal(cmd) => status.idmac_terminal_events_or_error(cmd),
        }
    }
}

/// What the operator is told.
#[derive(Clone, Copy, Debug, PartialEq, Eq, Structural)]
pub enum Notice {
    /// A transfer was started.
    Started {
        /// Its command.
        cmd: Cmd,
        /// State of the engine.
        fsm: u32,
        /// The engine owns a descriptor.
        desc_own: bool,
        /// Address of the chain.
        dbaddr: u32,
    },
    /// The engine reported something abnormal when its bus mode was set.
    BusModeStatus {
        /// Its status.
        idsts: u32,
    },
}

/// One operation on the outside world.
#[derive(Clone, Copy, Debug, PartialEq, Eq, Structural)]
pub enum Op {
    /// Read a register; the reply is its word.
    Read(Reg),
    /// Relax the processor for a moment, then read a register.
    Poll(Reg),
    /// Read a register for a report; nothing is decided by it.
    Peek(Reg),
    /// Write a word to a register.
    Write(Reg, u32),
    /// Read a register and write the word back, which clears the bits that were
    /// found set; the reply is the word.
    Acknowledge(Reg),
    /// Clear, then set bits of a register.
    Update {
        /// The register.
        reg: Reg,
        /// Bits to clear.
        clear: u32,
        /// Bits to set.
        set: u32,
    },
    /// Order all earlier memory and device accesses before all later ones.
    Fence,
    /// Read the monotonic clock; the reply is a time.
    Now,
    /// Spin for a number of iterations.
    Delay(u32),
    /// Wait for a number of nanoseconds without giving up the processor.
    BusyWait(u64),
    /// Let other tasks run once.
    Yield,
    /// Read the four response registers.
    Response,
    /// Take eight bytes from the FIFO and store them at an offset of the
    /// command's buffer.
    FifoRead(usize),
    /// Put the eight bytes at an offset of the command's buffer into the FIFO.
    FifoWrite(usize),
    /// Lower the done and error flags that the interrupt handler raises.
    ClearFlags,
    /// Start a new transfer generation; the reply is its number.
    BeginTransfer,
    /// Collect the status of the transfer of a generation.
    Observe(usize),
    /// Sleep until an event of a generation or until a number of nanoseconds
    /// has passed; the reply tells whether the time ran out.
    Await {
        /// The event.
        until: Until,
        /// The generation.
        generation: usize,
        /// Nanoseconds to wait at most.
        timeout: u64,
    },
    /// Allocate memory for a number of descriptors; the reply is its bus
    /// address, or a failure.
    AllocDescriptors(usize),
    /// Store a descriptor at a position of the chain.
    StoreDescriptor(usize, IdmacDescriptor),
    /// Load the control word of the descriptor at a position.
    LoadDes0(usize),
    /// Load the control word of the descriptor at a position for a report.
    PeekDes0(usize),
    /// Give the memory of the descriptors back.
    FreeDescriptors,
    /// Allocate the transfer buffer; the reply is its bus address, or a failure.
    AllocBuffer {
        /// Bytes.
        size: usize,
        /// Alignment.
        align: usize,
    },
    /// Give the transfer buffer back.
    FreeBuffer {
        /// Bytes.
        size: usize,
        /// Alignment.
        align: usize,
    },
    /// Register the interrupt handler; the reply tells whether that worked.
    RegisterIrq,
    /// Copy bytes of the caller's data, from an offset on, to the start of the
    /// transfer buffer.
    CopyIn {
        /// Offset in the caller's data.
        offset: usize,
        /// Number of bytes.
        len: usize,
    },
    /// Copy bytes from the start of the transfer buffer to an offset of the
    /// caller's data.
    CopyOut {
        /// Offset in the caller's data.
        offset: usize,
        /// Number of bytes.
        len: usize,
    },
    /// Tell the operator something.
    Report(Notice),
}

/// What came back from an operation.
#[derive(Clone, Copy, Debug, PartialEq, Eq)]
pub enum Reply {
    /// The operation was carried out.
    Done,
    /// A register word or a control word.
    Word(u32),
    /// A time in nanoseconds.
    Time(u64),
    /// A bus address.
    Address(u64),
    /// A generation number.
    Generation(usize),
    /// Yes or no.
    Flag(bool),
    /// The response registers.
    Response([u32; 4]),
    /// The status of a transfer.
    Status(IdmacStatus),
    /// The operation failed.
    Failed,
}

impl Reply {
    /// The word of the reply; 0 if there is none.
    #[verifier::allow_in_spec]
    pub fn word(self) -> u32
        returns
            (match self {
                Reply::Word(word) => word,
                _ => 0u32,
            }),
    {
        match self {
            Reply::Word(word) => word,
            _ => 0,
        }
    }

    /// The time of the reply; 0 if there is none.
    #[verifier::allow_in_spec]
    pub fn time(self) -> u64
        returns
            (match self {
                Reply::Time(time) => time,
                _ => 0u64,
            }),
    {
        match self {
            Reply::Time(time) => time,
            _ => 0,
        }
    }

    /// The address of the reply; nothing if the operation failed.
    #[verifier::allow_in_spec]
    pub fn address(self) -> Option<u64>
        returns
            (match self {
                Reply::Address(address) => Some(address),
                _ => None::<u64>,
            }),
    {
        match self {
            Reply::Address(address) => Some(address),
            _ => None,
        }
    }

    /// The generation number of the reply; 0 if there is none.
    #[verifier::allow_in_spec]
    pub fn generation(self) -> usize
        returns
            (match self {
                Reply::Generation(generation) => generation,
                _ => 0usize,
            }),
    {
        match self {
            Reply::Generation(generation) => generation,
            _ => 0,
        }
    }

    /// The answer of the reply; no if there is none.
    #[verifier::allow_in_spec]
    pub fn flag(self) -> bool
        returns
            (match self {
                Reply::Flag(flag) => flag,
                _ => false,
            }),
    {
        match self {
            Reply::Flag(flag) => flag,
            _ => false,
        }
    }

    /// The response words of the reply; zeros if there are none.
    #[verifier::allow_in_spec]
    pub fn response(self) -> [u32; 4]
        returns
            (match self {
                Reply::Response(response) => response,
                _ => [0u32, 0u32, 0u32, 0u32],
            }),
    {
        match self {
            Reply::Response(response) => response,
            _ => [0u32, 0u32, 0u32, 0u32],
        }
    }

    /// The transfer status of the reply. Without one the transfer counts as
    /// failed.
    #[verifier::allow_in_spec]
    pub fn status(self) -> IdmacStatus
        returns
            (match self {
                Reply::Status(status) => status,
                _ => IdmacStatus {
                    rintsts: crate::regs::RIntSts(0),
                    idsts: crate::regs::IdSts(0),
                    error_flag: true,
                },
            }),
    {
        match self {
            Reply::Status(status) => status,
            _ => IdmacStatus {
                rintsts: crate::regs::RIntSts(0),
                idsts: crate::regs::IdSts(0),
                error_flag: true,
            },
        }
    }
}

/// What a reply makes of a machine.
#[derive(Debug, PartialEq, Eq)]
pub enum Step<M, T> {
    /// The machine goes on in this state.
    Next(M),
    /// The machine has ended with this outcome.
    Done(T),
}

/// A procedure that decides which operation to perform next.
pub trait Machine: Sized + Copy {
    /// The operations that the procedure asks for.
    type Act;

    /// What comes back from them.
    type Event;

    /// What the procedure ends with.
    type Out;

    /// The operation that this state waits for.
    spec fn op(self) -> Self::Act;

    /// What the reply to that operation makes of this state.
    spec fn next(self, reply: Self::Event) -> Step<Self, Self::Out>;

    /// Tells the operation to perform.
    fn request(&self) -> (op: Self::Act)
        ensures
            op == self.op(),
    ;

    /// Takes the reply to the operation.
    fn step(self, reply: Self::Event) -> (step: Step<Self, Self::Out>)
        ensures
            step == self.next(reply),
    ;
}

/// Runs of a machine: what it has asked for and where it stands.
pub ghost struct Run<M: Machine> {
    /// The operations performed so far, each with its reply.
    pub trace: Seq<(M::Act, M::Event)>,
    /// Where the machine stands.
    pub at: Step<M, M::Out>,
}

/// The run that a sequence of replies produces from a starting point. Replies
/// after the end are left out of account.
pub open spec fn run<M: Machine>(start: Step<M, M::Out>, replies: Seq<M::Event>) -> Run<M>
    decreases replies.len(),
{
    if replies.len() == 0 {
        Run { trace: Seq::empty(), at: start }
    } else {
        let before = run(start, replies.drop_last());
        match before.at {
            Step::Done(_) => before,
            Step::Next(m) => Run {
                trace: before.trace.push((m.op(), replies.last())),
                at: m.next(replies.last()),
            },
        }
    }
}

/// A property that holds at the start and is kept by every step holds
/// throughout every run.
pub proof fn lemma_run_invariant<M: Machine>(
    start: Step<M, M::Out>,
    replies: Seq<M::Event>,
    inv: spec_fn(Seq<(M::Act, M::Event)>, Step<M, M::Out>) -> bool,
)
    requires
        inv(Seq::empty(), start),
        forall|trace: Seq<(M::Act, M::Event)>, m: M, reply: M::Event|
            inv(trace, Step::Next(m)) ==> #[trigger] inv(
                trace.push((m.op(), reply)),
                m.next(reply),
            ),
    ensures
        inv(run(start, replies).trace, run(start, replies).at),
    decreases replies.len(),
{
    if replies.len() > 0 {
        lemma_run_invariant(start, replies.drop_last(), inv);
    }
}

/// At no point of the run the reply is one that `bad` tells of there.
pub open spec fn never<M: Machine>(
    start: Step<M, M::Out>,
    replies: Seq<M::Event>,
    bad: spec_fn(M, M::Event) -> bool,
) -> bool {
    forall|i: int|
        0 <= i < replies.len() ==> (run(start, replies.take(i)).at matches Step::Next(m) ==> !bad(
            m,
            #[trigger] replies[i],
        ))
}

/// A property that holds at the start and is kept by every step that is not bad holds
/// throughout every run without such steps.
pub proof fn lemma_run_invariant_without<M: Machine>(
    start: Step<M, M::Out>,
    replies: Seq<M::Event>,
    bad: spec_fn(M, M::Event) -> bool,
    inv: spec_fn(Seq<(M::Act, M::Event)>, Step<M, M::Out>) -> bool,
)
    requires
        never(start, replies, bad),
        inv(Seq::empty(), start),
        forall|trace: Seq<(M::Act, M::Event)>, m: M, reply: M::Event|
            inv(trace, Step::Next(m)) && !bad(m, reply) ==> #[trigger] inv(
                trace.push((m.op(), reply)),
                m.next(reply),
            ),
    ensures
        inv(run(start, replies).trace, run(start, replies).at),
    decreases replies.len(),
{
    if replies.len() > 0 {
        let earlier = replies.drop_last();
        assert forall|i: int| 0 <= i < earlier.len() implies (run(start, earlier.take(i)).at
            matches Step::Next(m) ==> !bad(m, #[trigger] earlier[i])) by {
            assert(earlier.take(i) =~= replies.take(i));
            assert(earlier[i] == replies[i]);
        }
        lemma_run_invariant_without(start, earlier, bad, inv);
        assert(replies.take(replies.len() - 1) =~= earlier);
        assert(replies[replies.len() - 1] == replies.last());
    }
}

/// A run that has not ended has taken all replies.
pub proof fn lemma_unended<M: Machine>(start: Step<M, M::Out>, replies: Seq<M::Event>)
    ensures
        run(start, replies).at is Next ==> run(start, replies).trace.len() == replies.len(),
    decreases replies.len(),
{
    if replies.len() > 0 {
        lemma_unended(start, replies.drop_last());
    }
}

} // verus!
