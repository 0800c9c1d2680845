//! What block requests do to the data on the card and in memory.
//!
//! The laws follow the data through a model of the hardware in which a data
//! command that is carried out moves the announced number of bytes between the
//! card and the transfer buffer.

use vstd::prelude::*;

use crate::blocks::{
    chunk_blocks, chunk_request, range_verdict, BlockEnd, BlockPhase, BlockRequest, Direction,
};
use crate::cmd::CommandKind;
use crate::enable::IdmacState;
use crate::error::SdMmcError;
use crate::io::{run, Machine, Op, Reply, Step};
use crate::ready::{ask_invariant, lemma_ask_step, ready_seen, AskReadyPhase};
use crate::regs::Reg;
use crate::transfer::{
    IdmacTransfer, Prepare, StartPhase, StartTransfer, TransferEnd, TransferPhase, WaitMode,
};

verus! {

/// The chunks of a request, each with its first block and its number of blocks.
pub open spec fn plan(direction: Direction, block: int, blocks: nat) -> Seq<(int, int)>
    decreases blocks,
{
    if blocks == 0 || blocks > usize::MAX {
        Seq::empty()
    } else {
        let n = chunk_blocks(direction, blocks as usize);
        seq![(block, n as int)] + plan(direction, block + n, (blocks - n) as nat)
    }
}

/// Blocks of all chunks together.
pub open spec fn total(chunks: Seq<(int, int)>) -> int
    decreases chunks.len(),
{
    if chunks.len() == 0 {
        0
    } else {
        total(chunks.drop_last()) + chunks.last().1
    }
}

/// Blocks of the next chunk while so many remain: as many as there are, up to 32; but fewer
/// than four are read one by one.
pub open spec fn next_chunk(direction: Direction, remaining: int) -> int {
    if remaining >= 32 {
        32
    } else if direction == Direction::Read && remaining < 4 {
        1
    } else {
        remaining
    }
}

/// The chunks of a request cover its blocks without gap or overlap. A chunk has
/// as many blocks as remain, up to 32, but the last three blocks of a read come one by one.
pub proof fn law_plan_partitions_request(direction: Direction, block: int, blocks: usize)
    ensures
        ({
            let chunks = plan(direction, block, blocks as nat);
            &&& total(chunks) == blocks
            &&& forall|i: int|
                0 <= i < chunks.len() ==> (#[trigger] chunks[i]).0 == block + total(
                    chunks.take(i),
                ) && 1 <= chunks[i].1 <= 32 && (direction == Direction::Read ==> chunks[i].1 == 1
                    || chunks[i].1 >= 4) && chunks[i].1 == next_chunk(
                    direction,
                    blocks - total(chunks.take(i)),
                )
        }),
    decreases blocks,
{
    let chunks = plan(direction, block, blocks as nat);
    if blocks > 0 {
        let n = chunk_blocks(direction, blocks);
        let rest = plan(direction, block + n, (blocks - n) as nat);
        let first = seq![(block, n as int)];
        law_plan_partitions_request(direction, block + n, (blocks - n) as usize);
        lemma_total_cons((block, n as int), rest);
        assert forall|i: int| 0 <= i < chunks.len() implies (#[trigger] chunks[i]).0 == block
            + total(chunks.take(i)) && 1 <= chunks[i].1 <= 32 && (direction == Direction::Read
            ==> chunks[i].1 == 1 || chunks[i].1 >= 4) && chunks[i].1 == next_chunk(
            direction,
            blocks - total(chunks.take(i)),
        ) by {
            assert(total(chunks.take(0)) == 0);
            if i > 0 {
                assert(chunks[i] == rest[i - 1]);
                assert(chunks.take(i) =~= first + rest.take(i - 1));
                lemma_total_cons((block, n as int), rest.take(i - 1));
            }
        }
    }
}

proof fn lemma_total_cons(first: (int, int), rest: Seq<(int, int)>)
    ensures
        total(seq![first] + rest) == first.1 + total(rest),
    decreases rest.len(),
{
    let all = seq![first] + rest;
    if rest.len() == 0 {
        assert(all.drop_last() =~= Seq::empty());
        assert(total(all.drop_last()) == 0);
    } else {
        assert(all.drop_last() =~= seq![first] + rest.drop_last());
        lemma_total_cons(first, rest.drop_last());
    }
}

/// `data` in place of what stands in `bytes` from `pos` on.
pub open spec fn overwrite(bytes: Seq<u8>, pos: int, data: Seq<u8>) -> Seq<u8> {
    bytes.take(pos) + data + bytes.skip(pos + data.len())
}

/// The data that a request deals with, and the registers that decide where a
/// data command moves it.
#[verifier::ext_equal]
pub ghost struct World {
    /// Contents of the card.
    pub card: Seq<u8>,
    /// Contents of the transfer buffer.
    pub staging: Seq<u8>,
    /// The caller's buffer.
    pub user: Seq<u8>,
    /// Argument of the next command.
    pub arg: u32,
    /// Bytes of the next data phase.
    pub count: u32,
    /// The block size register. The card sends and takes blocks of 512 bytes, each with a
    /// checksum of its own; with any other size nothing of use is moved.
    pub block_size: u32,
}

impl World {
    /// The controller expects the blocks that the card has.
    pub open spec fn blocks_agree(self) -> bool {
        self.block_size & 0xffff == 512
    }
}

/// The word submits a read command.
pub open spec fn is_read(word: u32) -> bool {
    word == CommandKind::ReadSingleBlock.word().0 || word
        == CommandKind::ReadMultipleBlocks.word().0
}

/// The word submits a write command.
pub open spec fn is_write(word: u32) -> bool {
    word == CommandKind::WriteSingleBlock.word().0 || word
        == CommandKind::WriteMultipleBlocks.word().0
}

/// What an operation does to the data.
pub open spec fn effect(world: World, op: Op) -> World {
    match op {
        Op::Write(Reg::CmdArg, word) => World { arg: word, ..world },
        Op::Write(Reg::BytCnt, word) => World { count: word, ..world },
        Op::Write(Reg::BlkSiz, word) => World { block_size: word, ..world },
        Op::Update { reg: Reg::BlkSiz, clear, set } => World {
            block_size: (world.block_size & !clear) | set,
            ..world
        },
        Op::Write(Reg::Cmd, word) => if (is_read(word) || is_write(word))
            && !world.blocks_agree() {
            World { staging: Seq::empty(), ..world }
        } else if is_read(word) {
            World {
                staging: world.card.subrange(
                    world.arg * 512,
                    world.arg * 512 + world.count,
                ),
                ..world
            }
        } else if is_write(word) {
            World {
                card: overwrite(
                    world.card,
                    world.arg * 512,
                    world.staging.take(world.count as int),
                ),
                ..world
            }
        } else {
            world
        },
        Op::CopyIn { offset, len } => World {
            staging: world.user.subrange(offset as int, offset + len),
            ..world
        },
        Op::CopyOut { offset, len } => World {
            user: overwrite(world.user, offset as int, world.staging.take(len as int)),
            ..world
        },
        _ => world,
    }
}

/// What a trace does to the data.
pub open spec fn world_after(world: World, trace: Seq<(Op, Reply)>) -> World
    decreases trace.len(),
{
    if trace.len() == 0 {
        world
    } else {
        effect(world_after(world, trace.drop_last()), trace.last().0)
    }
}

/// A request together with the data at its start.
pub ghost struct Job {
    /// Direction.
    pub direction: Direction,
    /// First block.
    pub block: u32,
    /// Bytes.
    pub len: usize,
    /// The data at the start.
    pub world: World,
}

impl Job {
    /// The request lies on the card and fits the caller's buffer.
    pub open spec fn wf(self) -> bool {
        &&& 0 < self.len
        &&& self.len % 512 == 0
        &&& self.block + self.len / 512 <= 0x1_0000_0000
        &&& self.block * 512 + self.len <= self.world.card.len()
        &&& self.world.user.len() == self.len
    }

    /// The caller's data on the card, or the card's data in the caller's
    /// buffer, as far as the first `done` bytes go.
    pub open spec fn progress(self, done: int, world: World) -> bool {
        match self.direction {
            Direction::Write => {
                &&& world.user == self.world.user
                &&& world.card == overwrite(
                    self.world.card,
                    self.block * 512,
                    self.world.user.take(done),
                )
            },
            Direction::Read => {
                &&& world.card == self.world.card
                &&& world.user == overwrite(
                    self.world.user,
                    0,
                    self.world.card.subrange(self.block * 512, self.block * 512 + done),
                )
            },
        }
    }

    /// The data of a chunk is where the transfer needs it.
    pub open spec fn staged(self, m: BlockRequest, world: World) -> bool {
        &&& self.progress(m.offset as int, world)
        &&& world.blocks_agree()
        &&& world.count == m.chunk_len()
        &&& self.direction == Direction::Write ==> world.staging == self.world.user.subrange(
            m.offset as int,
            m.offset + m.chunk_len(),
        )
    }

    /// The data command of a chunk has moved its data.
    pub open spec fn transferred(self, m: BlockRequest, world: World) -> bool {
        match self.direction {
            Direction::Write => self.progress(m.offset + m.chunk_len(), world),
            Direction::Read => {
                &&& self.progress(m.offset as int, world)
                &&& world.staging == self.world.card.subrange(
                    self.block * 512 + m.offset,
                    self.block * 512 + m.offset + m.chunk_len(),
                )
            },
        }
    }

    /// The request is the one of the job and stands at a chunk boundary.
    pub open spec fn tracks(self, m: BlockRequest) -> bool {
        &&& m.direction == self.direction
        &&& m.len == self.len
        &&& m.offset < self.len
        &&& m.offset % 512 == 0
        &&& m.block == self.block + m.offset / 512
    }

    /// How far the data has got at each point of the transfer of a chunk.
    pub open spec fn in_transfer(self, m: BlockRequest, t: IdmacTransfer, world: World) -> bool {
        let request = chunk_request(m.direction, m.block, m.chunk_len());
        match t.phase {
            TransferPhase::Prepare(p) => {
                p.request == request && p.len == m.chunk_len() && self.staged(m, world)
            },
            TransferPhase::Start(s) => {
                &&& s.context.cmd == request.kind.word()
                &&& s.context.arg == m.block
                &&& match s.phase {
                    StartPhase::Begin => self.staged(m, world),
                    StartPhase::WriteArg => self.staged(m, world),
                    StartPhase::ArgFence => self.staged(m, world) && world.arg == m.block,
                    StartPhase::WriteCmd => self.staged(m, world) && world.arg == m.block,
                    _ => self.transferred(m, world),
                }
            },
            TransferPhase::Finish { finish, result } => result is Ok ==> self.transferred(m, world),
            _ => self.transferred(m, world),
        }
    }

    /// How far the data has got at each point of the request.
    pub open spec fn follows(self, world: World, at: Step<BlockRequest, BlockEnd>) -> bool {
        match at {
            Step::Done(end) => end.result is Ok ==> self.progress(self.len as int, world),
            Step::Next(m) => {
                &&& self.tracks(m)
                &&& match m.phase {
                    BlockPhase::BlockSize => self.progress(m.offset as int, world),
                    BlockPhase::ByteCount => {
                        &&& self.progress(m.offset as int, world)
                        &&& world.blocks_agree()
                    },
                    BlockPhase::CopyIn => {
                        &&& self.direction == Direction::Write
                        &&& self.progress(m.offset as int, world)
                        &&& world.blocks_agree()
                        &&& world.count == m.chunk_len()
                    },
                    BlockPhase::Transfer(t) => self.in_transfer(m, t, world),
                    BlockPhase::CopyOut => {
                        &&& self.direction == Direction::Read
                        &&& self.transferred(m, world)
                    },
                    BlockPhase::PollReady(_) => {
                        &&& self.direction == Direction::Write
                        &&& self.transferred(m, world)
                    },
                    BlockPhase::AskReady(ask) => {
                        &&& self.direction == Direction::Write
                        &&& self.transferred(m, world)
                        &&& (ask.phase matches AskReadyPhase::Ask { send, .. }
                            ==> send.request.kind == CommandKind::SendStatus)
                    },
                }
            },
        }
    }
}

/// Overwriting two adjacent pieces is overwriting both at once.
proof fn lemma_overwrite_append(bytes: Seq<u8>, pos: int, a: Seq<u8>, b: Seq<u8>)
    requires
        0 <= pos,
        pos + a.len() + b.len() <= bytes.len(),
    ensures
        overwrite(overwrite(bytes, pos, a), pos + a.len(), b) == overwrite(bytes, pos, a + b),
{
    assert(overwrite(overwrite(bytes, pos, a), pos + a.len(), b) =~= overwrite(bytes, pos, a + b));
}

/// A chunk ends within the request, on a chunk boundary.
proof fn lemma_chunk_fits(job: Job, m: BlockRequest)
    requires
        job.wf(),
        job.tracks(m),
    ensures
        512 <= m.chunk_len() <= 16384,
        m.chunk_len() % 512 == 0,
        m.offset + m.chunk_len() <= job.len,
{
    assert((m.len - m.offset) % 512 == 0);
}

/// The data command of a chunk moves its data.
proof fn lemma_data_command(job: Job, m: BlockRequest, world: World)
    requires
        job.wf(),
        job.tracks(m),
        job.staged(m, world),
        world.arg == m.block,
    ensures
        job.transferred(
            m,
            effect(
                world,
                Op::Write(
                    Reg::Cmd,
                    chunk_request(m.direction, m.block, m.chunk_len()).kind.word().0,
                ),
            ),
        ),
{
    lemma_chunk_fits(job, m);
    let chunk = m.chunk_len() as int;
    let start = job.block * 512;
    assert(m.block * 512 == start + m.offset);
    match job.direction {
        Direction::Write => {
            let done = job.world.user.take(m.offset as int);
            let piece = job.world.user.subrange(m.offset as int, m.offset + chunk);
            assert(world.staging.take(world.count as int) =~= piece);
            assert(done + piece =~= job.world.user.take(m.offset + chunk));
            lemma_overwrite_append(job.world.card, start, done, piece);
        },
        Direction::Read => {},
    }
}

/// The copy from the transfer buffer brings a chunk to the caller.
proof fn lemma_copy_out(job: Job, m: BlockRequest, world: World)
    requires
        job.wf(),
        job.tracks(m),
        job.direction == Direction::Read,
        job.transferred(m, world),
    ensures
        job.progress(
            m.offset + m.chunk_len(),
            effect(world, Op::CopyOut { offset: m.offset, len: m.chunk_len() }),
        ),
{
    lemma_chunk_fits(job, m);
    let chunk = m.chunk_len() as int;
    let start = job.block * 512;
    let done = job.world.card.subrange(start, start + m.offset);
    let piece = job.world.card.subrange(start + m.offset, start + m.offset + chunk);
    assert(world.staging.take(chunk) =~= piece);
    assert(done + piece =~= job.world.card.subrange(start, start + m.offset + chunk));
    lemma_overwrite_append(job.world.user, 0, done, piece);
}

/// After a chunk the request is complete or at the next chunk.
proof fn lemma_next_chunk(job: Job, m: BlockRequest, world: World)
    requires
        job.wf(),
        job.tracks(m),
        job.progress(m.offset + m.chunk_len(), world),
    ensures
        job.follows(world, m.next_chunk()),
{
    lemma_chunk_fits(job, m);
}

/// The transfer of a chunk begins.
proof fn lemma_begin_transfer(job: Job, m: BlockRequest, world: World)
    requires
        job.wf(),
        job.tracks(m),
        job.staged(m, world),
    ensures
        job.follows(world, m.begin_transfer()),
{
    lemma_chunk_fits(job, m);
}

proof fn lemma_transfer_prepare(
    job: Job,
    m: BlockRequest,
    mode: WaitMode,
    p: Prepare,
    world: World,
    reply: Reply,
)
    requires
        job.wf(),
        job.tracks(m),
        job.in_transfer(m, IdmacTransfer { mode, phase: TransferPhase::Prepare(p) }, world),
    ensures
        ({
            let after = effect(world, p.op());
            match IdmacTransfer::after_prepare(mode, false, p.next(reply)) {
                Step::Next(t) => job.in_transfer(m, t, after),
                Step::Done(end) => end.result is Err,
            }
        }),
{
    lemma_chunk_fits(job, m);
    assert(effect(world, p.op()) == world) by {
        if p.phase is ByteCount {
            assert(p.op() == Op::Write(Reg::BytCnt, world.count));
            assert(World { count: world.count, ..world } =~= world);
        }
    }
}

proof fn lemma_transfer_start(
    job: Job,
    m: BlockRequest,
    t: IdmacTransfer,
    s: StartTransfer,
    world: World,
    reply: Reply,
)
    requires
        job.wf(),
        job.tracks(m),
        t.phase == TransferPhase::Start(s),
        job.in_transfer(m, t, world),
    ensures
        t.next(reply) matches Step::Next(n) && job.in_transfer(m, n, effect(world, t.op())),
{
    match s.phase {
        StartPhase::WriteCmd => {
            lemma_data_command(job, m, world);
        },
        _ => {},
    }
}

proof fn lemma_transfer_rest(
    job: Job,
    m: BlockRequest,
    t: IdmacTransfer,
    world: World,
    reply: Reply,
)
    requires
        !(t.phase is Prepare),
        !(t.phase is Start),
        job.in_transfer(m, t, world),
    ensures
        effect(world, t.op()) == world,
        match t.next(reply) {
            Step::Next(n) => job.in_transfer(m, n, world),
            Step::Done(end) => end.result is Ok ==> job.transferred(m, world),
        },
{
}

/// One step of a request moves the data as the request says.
proof fn lemma_follows_step(job: Job, world: World, m: BlockRequest, reply: Reply)
    requires
        job.wf(),
        job.follows(world, Step::Next(m)),
    ensures
        job.follows(effect(world, m.op()), m.next(reply)),
{
    lemma_chunk_fits(job, m);
    let after = effect(world, m.op());
    match m.phase {
        BlockPhase::BlockSize => {
            crate::trace::lemma_block_size_programmed(world.block_size, 512);
        },
        BlockPhase::ByteCount => {
            assert(after.count == m.chunk_len());
            if job.direction == Direction::Read {
                lemma_begin_transfer(job, m, after);
            }
        },
        BlockPhase::CopyIn => {
            lemma_begin_transfer(job, m, after);
        },
        BlockPhase::Transfer(t) => {
            match t.phase {
                TransferPhase::Prepare(p) => {
                    lemma_transfer_prepare(job, m, t.mode, p, world, reply);
                },
                TransferPhase::Start(s) => {
                    lemma_transfer_start(job, m, t, s, world, reply);
                },
                _ => {
                    lemma_transfer_rest(job, m, t, world, reply);
                },
            }
            lemma_after_transfer(job, m, after, t.next(reply));
        },
        BlockPhase::CopyOut => {
            lemma_copy_out(job, m, world);
            lemma_next_chunk(job, m, after);
        },
        BlockPhase::PollReady(ready) => {
            assert(after == world);
            if ready.next(reply) is Done {
                lemma_next_chunk(job, m, after);
            }
        },
        BlockPhase::AskReady(ask) => {
            lemma_inquiry_moves_nothing(world, ask);
            if ask.next(reply) is Done {
                lemma_next_chunk(job, m, after);
            }
        },
    }
}

/// Where a step of the transfer leads the request.
proof fn lemma_after_transfer(
    job: Job,
    m: BlockRequest,
    world: World,
    step: Step<IdmacTransfer, TransferEnd>,
)
    requires
        job.tracks(m),
        match step {
            Step::Next(t) => job.in_transfer(m, t, world),
            Step::Done(end) => end.result is Ok ==> job.transferred(m, world),
        },
    ensures
        job.follows(world, m.after_transfer(step)),
{
}

/// Asking the card for its status moves no data.
proof fn lemma_inquiry_moves_nothing(world: World, ask: crate::ready::AskReady)
    requires
        ask.phase matches AskReadyPhase::Ask { send, .. } ==> send.request.kind
            == CommandKind::SendStatus,
    ensures
        effect(world, ask.op()).card == world.card,
        effect(world, ask.op()).user == world.user,
        effect(world, ask.op()).staging == world.staging,
{
}

/// A request begins with nothing done.
proof fn lemma_follows_start(
    job: Job,
    mode: WaitMode,
    rca: u16,
    num_blocks: u64,
    state: IdmacState,
)
    requires
        job.wf(),
    ensures
        job.follows(
            job.world,
            BlockRequest::start(
                job.direction,
                mode,
                rca,
                num_blocks,
                state,
                job.block,
                job.len,
            ),
        ),
{
    assert(overwrite(job.world.card, job.block * 512, job.world.user.take(0)) =~= job.world.card);
    assert(overwrite(
        job.world.user,
        0,
        job.world.card.subrange(job.block * 512, job.block * 512 + 0),
    ) =~= job.world.user);
}

/// Every run of a request moves the data as the request says.
proof fn lemma_follows(
    job: Job,
    mode: WaitMode,
    rca: u16,
    num_blocks: u64,
    state: IdmacState,
    replies: Seq<Reply>,
)
    requires
        job.wf(),
    ensures
        ({
            let done = run(
                BlockRequest::start(
                    job.direction,
                    mode,
                    rca,
                    num_blocks,
                    state,
                    job.block,
                    job.len,
                ),
                replies,
            );
            job.follows(world_after(job.world, done.trace), done.at)
        }),
{
    let start = BlockRequest::start(
        job.direction,
        mode,
        rca,
        num_blocks,
        state,
        job.block,
        job.len,
    );
    let inv = |trace: Seq<(Op, Reply)>, at: Step<BlockRequest, BlockEnd>|
        job.follows(world_after(job.world, trace), at);
    lemma_follows_start(job, mode, rca, num_blocks, state);
    assert forall|trace: Seq<(Op, Reply)>, m: BlockRequest, reply: Reply|
        inv(trace, Step::Next(m)) implies #[trigger] inv(
        trace.push((m.op(), reply)),
        m.next(reply),
    ) by {
        assert(trace.push((m.op(), reply)).drop_last() =~= trace);
        lemma_follows_step(job, world_after(job.world, trace), m, reply);
    }
    crate::io::lemma_run_invariant(start, replies, inv);
}

/// A write that succeeds has put the caller's data on the requested blocks and
/// has left every other block as it was.
pub proof fn law_write_puts_data_on_card(
    block: u32,
    world: World,
    mode: WaitMode,
    rca: u16,
    num_blocks: u64,
    state: IdmacState,
    replies: Seq<Reply>,
)
    requires
        world.card.len() == num_blocks * 512,
        world.user.len() <= usize::MAX,
    ensures
        ({
            let done = run(
                BlockRequest::start(
                    Direction::Write,
                    mode,
                    rca,
                    num_blocks,
                    state,
                    block,
                    world.user.len() as usize,
                ),
                replies,
            );
            done.at matches Step::Done(end) ==> end.result is Ok ==> {
                let after = world_after(world, done.trace);
                &&& after.card == overwrite(world.card, block * 512, world.user)
                &&& after.user == world.user
            }
        }),
{
    let len = world.user.len() as usize;
    let job = Job { direction: Direction::Write, block, len, world };
    let start = BlockRequest::start(Direction::Write, mode, rca, num_blocks, state, block, len);
    if range_verdict(block, len, num_blocks) is Ok {
        lemma_follows(job, mode, rca, num_blocks, state, replies);
        assert(world.user.take(len as int) =~= world.user);
    } else {
        lemma_run_of_done(start, replies);
    }
}

/// A read that succeeds has filled the caller's buffer with the requested
/// blocks and has left the card as it was.
pub proof fn law_read_takes_data_from_card(
    block: u32,
    world: World,
    mode: WaitMode,
    rca: u16,
    num_blocks: u64,
    state: IdmacState,
    replies: Seq<Reply>,
)
    requires
        world.card.len() == num_blocks * 512,
        world.user.len() <= usize::MAX,
    ensures
        ({
            let done = run(
                BlockRequest::start(
                    Direction::Read,
                    mode,
                    rca,
                    num_blocks,
                    state,
                    block,
                    world.user.len() as usize,
                ),
                replies,
            );
            done.at matches Step::Done(end) ==> end.result is Ok ==> {
                let after = world_after(world, done.trace);
                &&& after.user == world.card.subrange(
                    block * 512,
                    block * 512 + world.user.len(),
                )
                &&& after.card == world.card
            }
        }),
{
    let len = world.user.len() as usize;
    let job = Job { direction: Direction::Read, block, len, world };
    let start = BlockRequest::start(Direction::Read, mode, rca, num_blocks, state, block, len);
    if range_verdict(block, len, num_blocks) is Ok {
        lemma_follows(job, mode, rca, num_blocks, state, replies);
        let data = world.card.subrange(block * 512, block * 512 + len);
        assert(overwrite(world.user, 0, data) =~= data);
    } else {
        lemma_run_of_done(start, replies);
    }
}

/// A run that starts at the end stays there.
proof fn lemma_run_of_done<M: Machine>(start: Step<M, M::Out>, replies: Seq<M::Event>)
    requires
        start is Done,
    ensures
        run(start, replies).at == start,
        run(start, replies).trace =~= Seq::empty(),
    decreases replies.len(),
{
    if replies.len() > 0 {
        lemma_run_of_done(start, replies.drop_last());
    }
}

/// What a successful write has written, a successful read of the same blocks
/// gives back, whatever the buffer held before and however the two wait.
pub proof fn law_read_gives_back_what_was_written(
    block: u32,
    world: World,
    buffer: Seq<u8>,
    write_mode: WaitMode,
    read_mode: WaitMode,
    rca: u16,
    num_blocks: u64,
    state: IdmacState,
    write_replies: Seq<Reply>,
    read_replies: Seq<Reply>,
)
    requires
        world.card.len() == num_blocks * 512,
        world.user.len() <= usize::MAX,
        buffer.len() == world.user.len(),
    ensures
        ({
            let len = world.user.len() as usize;
            let written = run(
                BlockRequest::start(
                    Direction::Write,
                    write_mode,
                    rca,
                    num_blocks,
                    state,
                    block,
                    len,
                ),
                write_replies,
            );
            written.at matches Step::Done(end) ==> end.result is Ok ==> {
                let between = World {
                    user: buffer,
                    ..world_after(world, written.trace)
                };
                let read = run(
                    BlockRequest::start(
                        Direction::Read,
                        read_mode,
                        rca,
                        num_blocks,
                        end.state,
                        block,
                        len,
                    ),
                    read_replies,
                );
                read.at matches Step::Done(read_end) ==> read_end.result is Ok ==> world_after(
                    between,
                    read.trace,
                ).user == world.user
            }
        }),
{
    let len = world.user.len() as usize;
    let start = BlockRequest::start(
        Direction::Write,
        write_mode,
        rca,
        num_blocks,
        state,
        block,
        len,
    );
    let written = run(start, write_replies);
    if range_verdict(block, len, num_blocks) is Ok {
        law_write_puts_data_on_card(
            block,
            world,
            write_mode,
            rca,
            num_blocks,
            state,
            write_replies,
        );
        if let Step::Done(end) = written.at {
            if end.result is Ok {
                let between = World { user: buffer, ..world_after(world, written.trace) };
                law_read_takes_data_from_card(
                    block,
                    between,
                    read_mode,
                    rca,
                    num_blocks,
                    end.state,
                    read_replies,
                );
                assert(overwrite(world.card, block * 512, world.user).subrange(
                    block * 512,
                    block * 512 + len,
                ) =~= world.user);
            }
        }
    } else {
        lemma_run_of_done(start, write_replies);
    }
}

/// A request submits no data command but those of its own direction, and each
/// of them addresses only blocks of the request: whole ones of 512 bytes, which is the
/// size that the controller is told.
pub proof fn law_request_stays_in_its_range(
    direction: Direction,
    block: u32,
    world: World,
    mode: WaitMode,
    rca: u16,
    num_blocks: u64,
    state: IdmacState,
    replies: Seq<Reply>,
)
    requires
        world.card.len() == num_blocks * 512,
        world.user.len() <= usize::MAX,
    ensures
        ({
            let len = world.user.len() as usize;
            let done = run(
                BlockRequest::start(direction, mode, rca, num_blocks, state, block, len),
                replies,
            );
            let before = world_after(world, done.trace);
            done.at matches Step::Next(m) ==> (m.op() matches Op::Write(Reg::Cmd, word) ==> {
                &&& is_read(word) ==> direction == Direction::Read
                &&& is_write(word) ==> direction == Direction::Write
                &&& is_read(word) || is_write(word) ==> {
                    &&& block <= before.arg
                    &&& before.arg * 512 + before.count <= block * 512 + len
                    &&& before.block_size & 0xffff == 512
                    &&& before.count > 0 && before.count % 512 == 0
                }
            })
        }),
{
    let len = world.user.len() as usize;
    let job = Job { direction, block, len, world };
    let start = BlockRequest::start(direction, mode, rca, num_blocks, state, block, len);
    if range_verdict(block, len, num_blocks) is Ok {
        lemma_follows(job, mode, rca, num_blocks, state, replies);
        if let Step::Next(m) = run(start, replies).at {
            lemma_chunk_fits(job, m);
        }
    } else {
        lemma_run_of_done(start, replies);
    }
}

/// Errors that leave controller and card in a known state, because nothing was
/// submitted: a later request may succeed.
pub open spec fn recoverable(error: SdMmcError) -> bool {
    match error {
        SdMmcError::InvalidParameter => true,
        SdMmcError::OutOfRange => true,
        SdMmcError::DmaUnavailable => true,
        SdMmcError::DmaAllocation => true,
        SdMmcError::DmaAddress => true,
        SdMmcError::CommandBusy => true,
        SdMmcError::DataBusy => true,
        _ => false,
    }
}

/// The fault state at every point of a request of a driver that was not faulted.
pub open spec fn fault_invariant(at: Step<BlockRequest, BlockEnd>) -> bool {
    match at {
        Step::Done(end) => match end.result {
            Ok(_) => !end.state.faulted && !end.state.reset_failed,
            Err(error) => {
                &&& !end.state.faulted ==> recoverable(error) && !end.state.reset_failed
                &&& end.state.reset_failed ==> error == SdMmcError::RecoveryFailed
            },
        },
        Step::Next(m) => {
            &&& !m.state.faulted
            &&& !m.state.reset_failed
            &&& (m.phase matches BlockPhase::Transfer(t) ==> (t.phase
                matches TransferPhase::Finish {
                finish,
                result,
            } ==> {
                &&& (finish.abort <==> result is Err)
                &&& (finish.stuck ==> finish.abort)
                &&& (finish.phase is MaskController || finish.phase is MaskEngine
                    || finish.phase is MaskFence || finish.phase is Reset ==> finish.abort)
            }))
        },
    }
}

proof fn lemma_fault_transfer(m: BlockRequest, t: IdmacTransfer, reply: Reply)
    requires
        m.phase == BlockPhase::Transfer(t),
        fault_invariant(Step::Next(m)),
    ensures
        fault_invariant(m.after_transfer(t.next(reply))),
{
}

proof fn lemma_fault_step(m: BlockRequest, reply: Reply)
    requires
        fault_invariant(Step::Next(m)),
    ensures
        fault_invariant(m.next(reply)),
{
    if let BlockPhase::Transfer(t) = m.phase {
        lemma_fault_transfer(m, t, reply);
    }
}

/// A request that succeeds leaves the driver in working order. One that fails
/// leaves it faulted, unless the error is one that comes before anything is
/// submitted.
pub proof fn law_request_faults_unless_recoverable(
    direction: Direction,
    mode: WaitMode,
    rca: u16,
    num_blocks: u64,
    state: IdmacState,
    block: u32,
    len: usize,
    replies: Seq<Reply>,
)
    requires
        !state.faulted,
        !state.reset_failed,
    ensures
        ({
            let done = run(
                BlockRequest::start(direction, mode, rca, num_blocks, state, block, len),
                replies,
            );
            done.at matches Step::Done(end) ==> match end.result {
                Ok(_) => !end.state.faulted && !end.state.reset_failed,
                Err(error) => {
                    &&& !end.state.faulted ==> recoverable(error) && !end.state.reset_failed
                    &&& end.state.reset_failed ==> error == SdMmcError::RecoveryFailed
                },
            }
        }),
{
    let start = BlockRequest::start(direction, mode, rca, num_blocks, state, block, len);
    let inv = |trace: Seq<(Op, Reply)>, at: Step<BlockRequest, BlockEnd>| fault_invariant(at);
    assert forall|trace: Seq<(Op, Reply)>, m: BlockRequest, reply: Reply|
        inv(trace, Step::Next(m)) implies #[trigger] inv(
        trace.push((m.op(), reply)),
        m.next(reply),
    ) by {
        lemma_fault_step(m, reply);
    }
    crate::io::lemma_run_invariant(start, replies, inv);
}

/// Why a faulted driver refuses a request: a bad range first, then a missing transfer
/// buffer or one that the engine cannot reach, and else because it is faulted.
pub open spec fn refusal(num_blocks: u64, state: IdmacState, block: u32, len: usize) -> SdMmcError {
    match range_verdict(block, len, num_blocks) {
        Err(error) => error,
        Ok(_) => match state.buffer {
            None => SdMmcError::DmaUnavailable,
            Some(buffer) => if buffer.bus_addr > u32::MAX {
                SdMmcError::DmaAddress
            } else {
                SdMmcError::DriverFaulted
            },
        },
    }
}

/// The operation submits a command or hands data to the caller.
pub open spec fn acts_for_caller(op: Op) -> bool {
    crate::trace::submits(op) || op is CopyOut
}

/// The request of a faulted driver has not got beyond its preparations.
spec fn refused(
    num_blocks: u64,
    state: IdmacState,
    block: u32,
    len: usize,
    trace: Seq<(Op, Reply)>,
    at: Step<BlockRequest, BlockEnd>,
) -> bool {
    &&& trace.len() <= 3
    &&& forall|i: int| 0 <= i < trace.len() ==> !acts_for_caller((#[trigger] trace[i]).0)
    &&& match at {
        Step::Done(end) => {
            &&& end.state == state
            &&& end.result == Err::<(), SdMmcError>(refusal(num_blocks, state, block, len))
        },
        Step::Next(m) => {
            &&& m.state == state
            &&& range_verdict(block, len, num_blocks) is Ok
            &&& match m.phase {
                BlockPhase::BlockSize => trace.len() == 0,
                BlockPhase::ByteCount => trace.len() == 1,
                BlockPhase::CopyIn => trace.len() == 2 && state.buffer is Some,
                _ => false,
            }
        },
    }
}

/// A faulted driver stays faulted: every request fails, after three replies at the
/// latest, without submitting any command or handing any data to the caller. A request
/// of a good range is refused because the driver is faulted, unless there is no
/// transfer buffer that the engine could reach.
pub proof fn law_faulted_driver_stays_faulted(
    direction: Direction,
    mode: WaitMode,
    rca: u16,
    num_blocks: u64,
    state: IdmacState,
    block: u32,
    len: usize,
    replies: Seq<Reply>,
)
    requires
        state.faulted,
    ensures
        ({
            let done = run(
                BlockRequest::start(direction, mode, rca, num_blocks, state, block, len),
                replies,
            );
            &&& forall|i: int|
                0 <= i < done.trace.len() ==> !acts_for_caller((#[trigger] done.trace[i]).0)
            &&& replies.len() >= 3 ==> done.at is Done
            &&& done.at matches Step::Done(end) ==> {
                &&& end.state == state
                &&& end.result == Err::<(), SdMmcError>(refusal(num_blocks, state, block, len))
            }
        }),
{
    let start = BlockRequest::start(direction, mode, rca, num_blocks, state, block, len);
    let inv = |trace: Seq<(Op, Reply)>, at: Step<BlockRequest, BlockEnd>|
        refused(num_blocks, state, block, len, trace, at);
    assert forall|trace: Seq<(Op, Reply)>, m: BlockRequest, reply: Reply|
        inv(trace, Step::Next(m)) implies #[trigger] inv(
        trace.push((m.op(), reply)),
        m.next(reply),
    ) by {}
    crate::io::lemma_run_invariant(start, replies, inv);
    crate::io::lemma_unended(start, replies);
}

/// The last operation has shown that the controller can take data.
pub open spec fn idle_seen(trace: Seq<(Op, Reply)>) -> bool {
    &&& trace.len() > 0
    &&& trace.last().0 == Op::Read(Reg::Status) || trace.last().0 == Op::Poll(Reg::Status)
    &&& crate::regs::Status(trace.last().1.word()).can_send_data()
}

/// How a write waits for the card.
spec fn wait_invariant(
    mode: WaitMode,
    rca: u16,
    trace: Seq<(Op, Reply)>,
    at: Step<BlockRequest, BlockEnd>,
) -> bool {
    match at {
        Step::Next(m) => {
            &&& m.mode == mode && m.rca == rca && m.direction is Write
            &&& m.phase is PollReady ==> mode is Sync
            &&& !(m.phase is CopyOut)
            &&& m.phase matches BlockPhase::AskReady(ask) ==> {
                &&& mode is Async
                &&& ask_invariant(rca, trace, Step::Next(ask))
            }
        },
        Step::Done(end) => end.result is Ok ==> match mode {
            WaitMode::Sync => idle_seen(trace),
            WaitMode::Async => ready_seen(trace),
        },
    }
}

proof fn lemma_wait_step(
    mode: WaitMode,
    rca: u16,
    trace: Seq<(Op, Reply)>,
    m: BlockRequest,
    reply: Reply,
)
    requires
        wait_invariant(mode, rca, trace, Step::Next(m)),
    ensures
        wait_invariant(mode, rca, trace.push((m.op(), reply)), m.next(reply)),
{
    let after = trace.push((m.op(), reply));
    assert(after.last() == (m.op(), reply));
    if let BlockPhase::AskReady(ask) = m.phase {
        lemma_ask_step(rca, trace, ask, reply);
    }
}

/// A write succeeds only once the card is done with its last part. An
/// asynchronous one asks the card itself, with CMD13, and looks at the busy
/// signals besides; a polled one looks at the busy signals alone.
pub proof fn law_write_ends_when_card_is_done(
    mode: WaitMode,
    rca: u16,
    num_blocks: u64,
    state: IdmacState,
    block: u32,
    len: usize,
    replies: Seq<Reply>,
)
    ensures
        ({
            let done = run(
                BlockRequest::start(Direction::Write, mode, rca, num_blocks, state, block, len),
                replies,
            );
            match done.at {
                Step::Next(m) => {
                    &&& m.phase is PollReady ==> mode is Sync
                    &&& m.phase is AskReady ==> mode is Async
                },
                Step::Done(end) => end.result is Ok ==> match mode {
                    WaitMode::Sync => idle_seen(done.trace),
                    WaitMode::Async => ready_seen(done.trace),
                },
            }
        }),
{
    let start = BlockRequest::start(Direction::Write, mode, rca, num_blocks, state, block, len);
    let inv = |trace: Seq<(Op, Reply)>, at: Step<BlockRequest, BlockEnd>|
        wait_invariant(mode, rca, trace, at);
    assert forall|trace: Seq<(Op, Reply)>, m: BlockRequest, reply: Reply|
        inv(trace, Step::Next(m)) implies #[trigger] inv(
        trace.push((m.op(), reply)),
        m.next(reply),
    ) by {
        lemma_wait_step(mode, rca, trace, m, reply);
    }
    crate::io::lemma_run_invariant(start, replies, inv);
}

} // verus!
