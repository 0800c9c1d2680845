//! Which data commands a request for blocks sends.

use vstd::prelude::*;

use crate::block_laws::{is_read, is_write, plan};
use crate::blocks::{chunk_request, BlockEnd, BlockPhase, BlockRequest, Direction};
use crate::cmd::CommandKind;
use crate::enable::IdmacState;
use crate::io::{run, Machine, Op, Reply, Step};
use crate::ready::AskReadyPhase;
use crate::regs::Reg;
use crate::trace::{
    block_size, last_written, lemma_accounts_push, lemma_block_size_programmed,
};
use crate::transfer::{IdmacTransfer, StartPhase, TransferPhase, WaitMode};

verus! {

/// A data command: its word, its argument, its byte count and its block size.
pub ghost struct DataCommand {
    /// The word.
    pub word: u32,
    /// The argument, if one was written.
    pub arg: Option<u32>,
    /// The byte count, if one was written.
    pub count: Option<u32>,
    /// The block size, if one was programmed.
    pub block_size: Option<u32>,
}

/// The data commands that a trace submits, in order.
pub open spec fn data_commands(trace: Seq<(Op, Reply)>) -> Seq<DataCommand>
    decreases trace.len(),
{
    if trace.len() == 0 {
        Seq::empty()
    } else {
        let before = trace.drop_last();
        match trace.last().0 {
            Op::Write(Reg::Cmd, word) => if is_read(word) || is_write(word) {
                data_commands(before).push(
                    DataCommand {
                        word,
                        arg: last_written(before, Reg::CmdArg),
                        count: last_written(before, Reg::BytCnt),
                        block_size: block_size(before),
                    },
                )
            } else {
                data_commands(before)
            },
            _ => data_commands(before),
        }
    }
}

/// The command of a chunk: CMD17 or CMD24 for one block, CMD18 or CMD25 for more.
pub open spec fn command_for(direction: Direction, chunk: (int, int)) -> DataCommand {
    let kind = match direction {
        Direction::Read => if chunk.1 == 1 {
            CommandKind::ReadSingleBlock
        } else {
            CommandKind::ReadMultipleBlocks
        },
        Direction::Write => if chunk.1 == 1 {
            CommandKind::WriteSingleBlock
        } else {
            CommandKind::WriteMultipleBlocks
        },
    };
    DataCommand {
        word: kind.word().0,
        arg: Some(chunk.0 as u32),
        count: Some((chunk.1 * 512) as u32),
        block_size: Some(512),
    }
}

/// The commands of chunks.
pub open spec fn commands_for(direction: Direction, chunks: Seq<(int, int)>) -> Seq<DataCommand> {
    Seq::new(chunks.len(), |i: int| command_for(direction, chunks[i]))
}

/// Blocks of the current chunk.
spec fn chunk_of(m: BlockRequest) -> int {
    m.chunk_len() as int / 512
}

/// Blocks that are not done.
spec fn rest_of(m: BlockRequest) -> int {
    (m.len - m.offset) / 512
}

/// What the commands of a request amount to: those that were sent, and those of the
/// chunks that are left.
spec fn on_plan(
    trace: Seq<(Op, Reply)>,
    all: Seq<DataCommand>,
    direction: Direction,
    block: int,
    blocks: int,
) -> bool {
    data_commands(trace) + commands_for(direction, plan(direction, block, blocks as nat)) == all
}

/// The command of the current chunk is still to be sent.
spec fn to_send(trace: Seq<(Op, Reply)>, all: Seq<DataCommand>, m: BlockRequest) -> bool {
    on_plan(trace, all, m.direction, m.block as int, rest_of(m))
}

/// The command of the current chunk was sent.
spec fn sent(trace: Seq<(Op, Reply)>, all: Seq<DataCommand>, m: BlockRequest) -> bool {
    on_plan(trace, all, m.direction, m.block + chunk_of(m), rest_of(m) - chunk_of(m))
}

/// The request stands at a chunk boundary.
spec fn at_chunk(m: BlockRequest) -> bool {
    &&& m.offset < m.len
    &&& m.offset % 512 == 0
    &&& m.len % 512 == 0
    &&& m.block + rest_of(m) <= 0x1_0000_0000
}

proof fn lemma_chunk(m: BlockRequest)
    requires
        at_chunk(m),
    ensures
        1 <= chunk_of(m) <= rest_of(m),
        chunk_of(m) <= 32,
        m.chunk_len() == chunk_of(m) * 512,
        chunk_of(m) == crate::blocks::chunk_blocks(m.direction, rest_of(m) as usize),
{
    assert((m.len - m.offset) % 512 == 0);
}

/// Byte count and block size of the current chunk are programmed.
spec fn measured(trace: Seq<(Op, Reply)>, m: BlockRequest) -> bool {
    &&& last_written(trace, Reg::BytCnt) == Some(m.chunk_len() as u32)
    &&& block_size(trace) == Some(512u32)
}

/// How far the commands have come at each point of the transfer of a chunk.
spec fn transfer_on_plan(
    trace: Seq<(Op, Reply)>,
    all: Seq<DataCommand>,
    m: BlockRequest,
    t: IdmacTransfer,
) -> bool {
    let request = chunk_request(m.direction, m.block, m.chunk_len());
    let counted = measured(trace, m);
    match t.phase {
        TransferPhase::Prepare(p) => p.request == request && p.len == m.chunk_len() && counted
            && to_send(trace, all, m),
        TransferPhase::Start(s) => {
            &&& s.context.cmd == request.kind.word()
            &&& s.context.arg == m.block
            &&& match s.phase {
                StartPhase::Begin | StartPhase::WriteArg => counted && to_send(trace, all, m),
                StartPhase::ArgFence | StartPhase::WriteCmd => counted && to_send(trace, all, m)
                    && last_written(trace, Reg::CmdArg) == Some(m.block),
                _ => sent(trace, all, m),
            }
        },
        TransferPhase::Finish { result, .. } => result is Ok ==> sent(trace, all, m),
        _ => sent(trace, all, m),
    }
}

spec fn request_on_plan(
    trace: Seq<(Op, Reply)>,
    all: Seq<DataCommand>,
    at: Step<BlockRequest, BlockEnd>,
) -> bool {
    match at {
        Step::Done(end) => end.result is Ok ==> data_commands(trace) == all,
        Step::Next(m) => {
            &&& at_chunk(m)
            &&& match m.phase {
                BlockPhase::BlockSize => to_send(trace, all, m),
                BlockPhase::ByteCount => block_size(trace) == Some(512u32) && to_send(
                    trace,
                    all,
                    m,
                ),
                BlockPhase::CopyIn => measured(trace, m) && to_send(trace, all, m),
                BlockPhase::Transfer(t) => transfer_on_plan(trace, all, m, t),
                BlockPhase::AskReady(ask) => sent(trace, all, m) && (ask.phase
                    matches AskReadyPhase::Ask { send, .. } ==> send.request.kind
                    == CommandKind::SendStatus),
                _ => sent(trace, all, m),
            }
        },
    }
}

/// Sending the command of the current chunk takes it from those that are left.
proof fn lemma_send(trace: Seq<(Op, Reply)>, all: Seq<DataCommand>, m: BlockRequest, reply: Reply)
    requires
        at_chunk(m),
        to_send(trace, all, m),
        measured(trace, m),
        last_written(trace, Reg::CmdArg) == Some(m.block),
    ensures
        sent(
            trace.push(
                (
                    Op::Write(
                        Reg::Cmd,
                        chunk_request(m.direction, m.block, m.chunk_len()).kind.word().0,
                    ),
                    reply,
                ),
            ),
            all,
            m,
        ),
{
    lemma_chunk(m);
    let word = chunk_request(m.direction, m.block, m.chunk_len()).kind.word().0;
    let after = trace.push((Op::Write(Reg::Cmd, word), reply));
    assert(after.drop_last() =~= trace);
    let n = chunk_of(m);
    let first = (m.block as int, n);
    let later = plan(m.direction, m.block + n, (rest_of(m) - n) as nat);
    let whole = plan(m.direction, m.block as int, rest_of(m) as nat);
    assert(whole == seq![first] + later);
    let command = command_for(m.direction, first);
    assert(data_commands(after) == data_commands(trace).push(command));
    assert(data_commands(after) + commands_for(m.direction, later) =~= data_commands(trace)
        + commands_for(m.direction, whole));
}

/// Whatever submits no data command leaves the commands as they are.
proof fn lemma_no_command(trace: Seq<(Op, Reply)>, op: Op, reply: Reply)
    requires
        op matches Op::Write(Reg::Cmd, word) ==> !is_read(word) && !is_write(word),
    ensures
        data_commands(trace.push((op, reply))) == data_commands(trace),
{
    assert(trace.push((op, reply)).drop_last() =~= trace);
}

/// After a chunk the request is complete or at the next chunk.
proof fn lemma_next_chunk(trace: Seq<(Op, Reply)>, all: Seq<DataCommand>, m: BlockRequest)
    requires
        at_chunk(m),
        sent(trace, all, m),
    ensures
        request_on_plan(trace, all, m.next_chunk()),
{
    lemma_chunk(m);
    let n = chunk_of(m);
    assert(rest_of(m) * 512 == m.len - m.offset);
    if rest_of(m) == n {
        let none = commands_for(m.direction, plan(m.direction, m.block + n, 0));
        assert(none =~= Seq::empty());
        assert(data_commands(trace) + none =~= data_commands(trace));
    }
}

/// The transfer of a chunk begins.
proof fn lemma_begin_transfer(trace: Seq<(Op, Reply)>, all: Seq<DataCommand>, m: BlockRequest)
    requires
        at_chunk(m),
        to_send(trace, all, m),
        measured(trace, m),
    ensures
        request_on_plan(trace, all, m.begin_transfer()),
{
    lemma_chunk(m);
}

proof fn lemma_transfer_on_plan(
    trace: Seq<(Op, Reply)>,
    all: Seq<DataCommand>,
    m: BlockRequest,
    t: IdmacTransfer,
    reply: Reply,
)
    requires
        at_chunk(m),
        transfer_on_plan(trace, all, m, t),
    ensures
        ({
            let after = trace.push((t.op(), reply));
            match t.next(reply) {
                Step::Next(u) => transfer_on_plan(after, all, m, u),
                Step::Done(end) => end.result is Ok ==> sent(after, all, m),
            }
        }),
{
    lemma_chunk(m);
    lemma_accounts_push(trace, t.op(), reply);
    match t.phase {
        TransferPhase::Start(s) => {
            if s.phase is WriteCmd {
                lemma_send(trace, all, m, reply);
            } else {
                lemma_no_command(trace, t.op(), reply);
            }
        },
        _ => {
            lemma_no_command(trace, t.op(), reply);
        },
    }
}

proof fn lemma_request_on_plan(
    trace: Seq<(Op, Reply)>,
    all: Seq<DataCommand>,
    m: BlockRequest,
    reply: Reply,
)
    requires
        request_on_plan(trace, all, Step::Next(m)),
    ensures
        request_on_plan(trace.push((m.op(), reply)), all, m.next(reply)),
{
    let after = trace.push((m.op(), reply));
    lemma_chunk(m);
    lemma_accounts_push(trace, m.op(), reply);
    match m.phase {
        BlockPhase::Transfer(t) => {
            lemma_transfer_on_plan(trace, all, m, t, reply);
        },
        _ => {
            lemma_no_command(trace, m.op(), reply);
            match m.phase {
                BlockPhase::ByteCount | BlockPhase::CopyIn => {
                    lemma_begin_transfer(after, all, m);
                },
                BlockPhase::BlockSize => {
                    lemma_block_size_programmed(0, 512);
                },
                _ => {
                    lemma_next_chunk(after, all, m);
                },
            }
        },
    }
}

/// The data commands of a request that succeeds are exactly those of its plan: for
/// each chunk, in order, one command with its first block, its bytes and the block size
/// of 512 bytes, CMD17 or CMD24 if it has one block, and CMD18 or CMD25 if it has more.
pub proof fn law_request_sends_its_plan(
    direction: Direction,
    mode: WaitMode,
    rca: u16,
    num_blocks: u64,
    state: IdmacState,
    block: u32,
    len: usize,
    replies: Seq<Reply>,
)
    ensures
        ({
            let done = run(
                BlockRequest::start(direction, mode, rca, num_blocks, state, block, len),
                replies,
            );
            done.at matches Step::Done(end) ==> (end.result is Ok ==> data_commands(done.trace)
                == commands_for(direction, plan(direction, block as int, (len / 512) as nat)))
        }),
{
    let start = BlockRequest::start(direction, mode, rca, num_blocks, state, block, len);
    let all = commands_for(direction, plan(direction, block as int, (len / 512) as nat));
    let inv = |trace: Seq<(Op, Reply)>, at: Step<BlockRequest, BlockEnd>|
        request_on_plan(trace, all, at);
    assert forall|trace: Seq<(Op, Reply)>, m: BlockRequest, reply: Reply|
        inv(trace, Step::Next(m)) implies #[trigger] inv(
        trace.push((m.op(), reply)),
        m.next(reply),
    ) by {
        lemma_request_on_plan(trace, all, m, reply);
    }
    assert(inv(Seq::empty(), start)) by {
        let none = data_commands(Seq::<(Op, Reply)>::empty());
        assert(none =~= Seq::empty());
        assert(none + all =~= all);
    }
    crate::io::lemma_run_invariant(start, replies, inv);
}

} // verus!
