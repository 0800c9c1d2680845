//! How commands and resets come to an end, and when they are given up.

use vstd::prelude::*;

use crate::cmd::DataPhase;
use crate::io::{Machine, Reply, Step};
use crate::regs::{Cmd, RIntSts};
use crate::send::{SendCmd, SendPhase};
use crate::transfer::{ResetIdmac, ResetPhase};

verus! {

/// Further operations that one operation which makes a procedure take longer costs at
/// most.
pub const DELAY_COST: u32 = 128;

/// Times that eight bytes can still be moved from an offset on.
#[verifier::opaque]
pub open spec fn moves_left(data: DataPhase, offset: int) -> int {
    if offset <= data.len() {
        (data.len() - offset) / 8
    } else {
        0
    }
}

impl SendCmd {
    /// The reply ends a wait without success: the controller is still busy at the last
    /// look, or the time is over.
    pub open spec fn gives_up(self, reply: Reply) -> bool {
        match self.phase {
            SendPhase::IdleCheck => Cmd(reply.word()).start_cmd(),
            SendPhase::AcceptCheck => Cmd(reply.word()).start_cmd(),
            SendPhase::ResponseClock { deadline } => reply.time() >= deadline,
            SendPhase::BusyClock { deadline } => reply.time() >= deadline,
            _ => false,
        }
    }

    /// No wait was given up, and the response phase has not failed.
    pub open spec fn hopeful(self) -> bool {
        &&& !self.busy_timed_out
        &&& !(self.phase is NotAccepted)
        &&& !(self.phase is ResponseTimeout)
        &&& !(self.phase is ResponseError)
    }

    /// Replies that the submission takes at most from here on, if it need not wait.
    pub open spec fn rank(self) -> int {
        let data = self.request.data;
        let moves = 2 * moves_left(data, 0);
        match self.phase {
            SendPhase::Idle { count } => moves + if count == 0 {
                40int
            } else {
                38
            },
            SendPhase::IdleClock { .. } => moves + 39,
            SendPhase::IdleCheck => moves + 37,
            SendPhase::DataIdle { again } => moves + if again {
                35int
            } else {
                36
            },
            SendPhase::ClearStale => moves + 34,
            SendPhase::WriteArg => moves + 33,
            SendPhase::WriteCmd => moves + 32,
            SendPhase::Accept { count } => moves + if count == 0 {
                31int
            } else {
                29
            },
            SendPhase::AcceptClock { .. } => moves + 30,
            SendPhase::AcceptCheck => moves + 28,
            SendPhase::ResponseStart => moves + 27,
            SendPhase::ResponseWait { again, .. } => moves + if again {
                24int
            } else {
                26
            },
            SendPhase::ResponseClock { .. } => moves + 25,
            SendPhase::ResponseStatus => moves + 23,
            SendPhase::BusyStart => moves + 22,
            SendPhase::Busy { again, .. } => moves + if again {
                19int
            } else {
                21
            },
            SendPhase::BusyClock { .. } => moves + 20,
            SendPhase::Data { offset, again } => 2 * moves_left(data, offset as int) + if again {
                13int
            } else {
                16
            },
            SendPhase::FifoLevel { offset, .. } => 2 * moves_left(data, offset as int) + 14,
            SendPhase::Fifo { offset, .. } => 2 * moves_left(data, offset + 8) + 15,
            SendPhase::Response => 2,
            SendPhase::NotAccepted => 1,
            SendPhase::ResponseTimeout => 1,
            SendPhase::ResponseError { .. } => 1,
            SendPhase::ClearFinal { .. } => 1,
        }
    }
}

/// A reply that neither gives up a wait nor shows that the response phase has failed
/// leaves a submission hopeful; its outcome is then decided by response and final status.
pub proof fn lemma_send_hopeful(send: SendCmd, reply: Reply)
    requires
        send.hopeful(),
        !send.gives_up(reply),
        send.phase is ResponseStatus ==> !RIntSts(reply.word()).error(),
    ensures
        match send.next(reply) {
            Step::Next(later) => later.hopeful(),
            Step::Done(_) => send.phase is ClearFinal,
        },
{
}

/// Moving eight bytes leaves one move less.
proof fn lemma_moves_left(send: SendCmd, offset: usize)
    ensures
        moves_left(send.request.data, offset as int) >= 0,
        moves_left(send.request.data, offset + 8) >= moves_left(
            send.request.data,
            offset.saturating_add(8) as int,
        ),
        forall|count: u32| #[trigger]
            send.can_move(offset, count) ==> moves_left(send.request.data, offset + 8)
                == moves_left(send.request.data, offset as int) - 1,
{
    reveal(moves_left);
}

/// Whatever the reply, a submission comes closer to its end, unless it had to look once
/// more.
pub proof fn lemma_send_progress(send: SendCmd, reply: Reply)
    ensures
        send.rank() > 0,
        send.next(reply) matches Step::Next(later) ==> {
            &&& later.request == send.request
            &&& later.rank() < send.rank() + (if send.op() is Poll {
                2int
            } else {
                0
            })
        },
{
    lemma_moves_left(send, 0);
    match send.phase {
        SendPhase::Data { offset, .. } => {
            lemma_moves_left(send, offset);
        },
        SendPhase::FifoLevel { offset, .. } => {
            lemma_moves_left(send, offset);
            lemma_moves_left(send, offset.saturating_add(8));
        },
        SendPhase::Fifo { offset, .. } => {
            lemma_moves_left(send, offset);
            lemma_moves_left(send, offset.saturating_add(8));
        },
        _ => {},
    }
}

impl ResetIdmac {
    /// The time for the reset is over.
    pub open spec fn gives_up(self, reply: Reply) -> bool {
        self.phase matches ResetPhase::Deadline { deadline } && reply.time() >= deadline
    }

    /// Replies that the reset takes at most from here on, if it need not wait.
    pub open spec fn rank(self) -> int {
        match self.phase {
            ResetPhase::Engine => 8,
            ResetPhase::Interface => 7,
            ResetPhase::Fence => 6,
            ResetPhase::Clock => 5,
            ResetPhase::EngineBit { again, .. } => if again {
                1
            } else {
                4
            },
            ResetPhase::InterfaceBit { .. } => 3,
            ResetPhase::Deadline { .. } => 2,
        }
    }
}

/// Whatever the reply, a reset comes closer to its end, unless it had to look once more.
/// It fails only when it is given up.
pub proof fn lemma_reset_progress(reset: ResetIdmac, reply: Reply)
    ensures
        reset.rank() > 0,
        reset.next(reply) matches Step::Next(later) ==> later.rank() < reset.rank()
            + if reset.op() is Poll {
            3int
        } else {
            0
        },
        reset.next(reply) == Step::<ResetIdmac, bool>::Done(false) ==> reset.gives_up(reply),
{
}

} // verus!
