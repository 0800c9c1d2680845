//! Requests for contiguous blocks.
//!
//! A request is carried out in chunks, each by one DMA transfer through the
//! transfer buffer. Reads use single-block commands for up to three remaining
//! blocks and multi-block commands otherwise; writes use a multi-block command
//! for anything longer than a block.

use vstd::prelude::*;

use crate::cmd::{CommandKind, DataPhase, Request};
use crate::enable::IdmacState;
use crate::error::{SdMmcError, SdMmcResult};
use crate::io::{Machine, Op, Reply, Step};
use crate::ready::{AskReady, PollReady};
use crate::regs::{BlkSiz, Reg};
use crate::transfer::{FinishTransfer, IdmacTransfer, TransferEnd, WaitMode, MAX_DMA_BLOCKS};

verus! {

/// Bytes of a block.
pub const BLOCK_SIZE: usize = 512;

/// Remaining blocks from which on a read uses a multi-block command.
pub const MIN_MULTI_BLOCK_READ_BLOCKS: usize = 4;

/// Direction of a request.
#[derive(Clone, Copy, Debug, PartialEq, Eq, Structural)]
pub enum Direction {
    /// From the card.
    Read,
    /// To the card.
    Write,
}

/// Verdict on the range of a request: the buffer must hold a positive number
/// of whole blocks, and they must lie on the card and be addressable with 32
/// bits.
pub open spec fn range_verdict(block: u32, len: usize, num_blocks: u64) -> SdMmcResult<usize> {
    if len == 0 || len % 512 != 0 {
        Err(SdMmcError::InvalidParameter)
    } else if block + len / 512 > num_blocks || block + len / 512 > 0x1_0000_0000 {
        Err(SdMmcError::OutOfRange)
    } else {
        Ok(len / 512)
    }
}

/// Checks the range of a request and returns its number of blocks.
#[verifier::when_used_as_spec(range_verdict)]
pub fn validate_block_buffer(block: u32, len: usize, num_blocks: u64) -> (verdict: SdMmcResult<
    usize,
>)
    ensures
        verdict == range_verdict(block, len, num_blocks),
{
    if len == 0 || !len.is_multiple_of(BLOCK_SIZE) {
        return Err(SdMmcError::InvalidParameter);
    }
    let blocks: usize = len / BLOCK_SIZE;
    let end: u64 = match (block as u64).checked_add(blocks as u64) {
        Some(end) => end,
        None => return Err(SdMmcError::OutOfRange),
    };
    if end > num_blocks || end > u32::MAX as u64 + 1 {
        return Err(SdMmcError::OutOfRange);
    }
    Ok(blocks)
}

/// Blocks of the next chunk when this many remain.
#[verifier::allow_in_spec]
pub fn chunk_blocks(direction: Direction, remaining: usize) -> usize
    returns
        (match direction {
            Direction::Read => if remaining < MIN_MULTI_BLOCK_READ_BLOCKS {
                1usize
            } else if remaining < MAX_DMA_BLOCKS {
                remaining
            } else {
                MAX_DMA_BLOCKS
            },
            Direction::Write => if remaining < MAX_DMA_BLOCKS {
                remaining
            } else {
                MAX_DMA_BLOCKS
            },
        }),
{
    match direction {
        Direction::Read => if remaining < MIN_MULTI_BLOCK_READ_BLOCKS {
            1
        } else if remaining < MAX_DMA_BLOCKS {
            remaining
        } else {
            MAX_DMA_BLOCKS
        },
        Direction::Write => if remaining < MAX_DMA_BLOCKS {
            remaining
        } else {
            MAX_DMA_BLOCKS
        },
    }
}

/// The command for a chunk of `len` bytes at `block`.
#[verifier::allow_in_spec]
pub fn chunk_request(direction: Direction, block: u32, len: usize) -> Request
    returns
        (match direction {
            Direction::Read => Request {
                kind: if len == BLOCK_SIZE {
                    CommandKind::ReadSingleBlock
                } else {
                    CommandKind::ReadMultipleBlocks
                },
                arg: block,
                data: DataPhase::Read(len),
            },
            Direction::Write => Request {
                kind: if len == BLOCK_SIZE {
                    CommandKind::WriteSingleBlock
                } else {
                    CommandKind::WriteMultipleBlocks
                },
                arg: block,
                data: DataPhase::Write(len),
            },
        }),
{
    match direction {
        Direction::Read => Request {
            kind: if len == BLOCK_SIZE {
                CommandKind::ReadSingleBlock
            } else {
                CommandKind::ReadMultipleBlocks
            },
            arg: block,
            data: DataPhase::Read(len),
        },
        Direction::Write => Request {
            kind: if len == BLOCK_SIZE {
                CommandKind::WriteSingleBlock
            } else {
                CommandKind::WriteMultipleBlocks
            },
            arg: block,
            data: DataPhase::Write(len),
        },
    }
}

/// How a request has ended.
#[derive(Clone, Copy, Debug, PartialEq, Eq)]
pub struct BlockEnd {
    /// Success, or the first error.
    pub result: SdMmcResult,
    /// What the driver knows of the engine now.
    pub state: IdmacState,
}

/// Where a request stands.
#[derive(Clone, Copy, Debug, PartialEq, Eq)]
pub enum BlockPhase {
    /// Setting the block size.
    BlockSize,
    /// Setting the byte count.
    ByteCount,
    /// Copying the data of a chunk to the transfer buffer.
    CopyIn,
    /// Transferring a chunk.
    Transfer(IdmacTransfer),
    /// Copying the data of a chunk from the transfer buffer.
    CopyOut,
    /// Polling until the card is ready after a chunk.
    PollReady(PollReady),
    /// Asking the card whether it is ready after a chunk.
    AskReady(AskReady),
}

/// A request for contiguous blocks.
#[derive(Clone, Copy, Debug, PartialEq, Eq)]
pub struct BlockRequest {
    /// Direction.
    pub direction: Direction,
    /// How to wait.
    pub mode: WaitMode,
    /// Relative card address.
    pub rca: u16,
    /// What the driver knows of the engine.
    pub state: IdmacState,
    /// Bytes requested.
    pub len: usize,
    /// Bytes done.
    pub offset: usize,
    /// First block of the current chunk.
    pub block: u32,
    /// Where the request stands.
    pub phase: BlockPhase,
}

impl BlockRequest {
    /// Begins a request on a card of `num_blocks` blocks.
    #[verifier::allow_in_spec]
    pub fn start(
        direction: Direction,
        mode: WaitMode,
        rca: u16,
        num_blocks: u64,
        state: IdmacState,
        block: u32,
        len: usize,
    ) -> Step<BlockRequest, BlockEnd>
        returns
            (match validate_block_buffer(block, len, num_blocks) {
                Ok(_) => Step::<BlockRequest, BlockEnd>::Next(
                    BlockRequest {
                        direction,
                        mode,
                        rca,
                        state,
                        len,
                        offset: 0,
                        block,
                        phase: BlockPhase::BlockSize,
                    },
                ),
                Err(error) => Step::Done(BlockEnd { result: Err(error), state }),
            }),
    {
        match validate_block_buffer(block, len, num_blocks) {
            Ok(_) => Step::Next(
                BlockRequest {
                    direction,
                    mode,
                    rca,
                    state,
                    len,
                    offset: 0,
                    block,
                    phase: BlockPhase::BlockSize,
                },
            ),
            Err(error) => Step::Done(BlockEnd { result: Err(error), state }),
        }
    }

    /// Bytes of the current chunk.
    #[verifier::allow_in_spec]
    pub fn chunk_len(self) -> usize
        returns
            (chunk_blocks(self.direction, self.len.saturating_sub(self.offset) / 512)
                * 512) as usize,
    {
        chunk_blocks(self.direction, self.len.saturating_sub(self.offset) / BLOCK_SIZE) * BLOCK_SIZE
    }

    /// The same request at another point.
    #[verifier::allow_in_spec]
    pub fn at(self, phase: BlockPhase) -> Step<BlockRequest, BlockEnd>
        returns
            Step::<BlockRequest, BlockEnd>::Next(BlockRequest { phase, ..self }),
    {
        Step::Next(BlockRequest { phase, ..self })
    }

    /// The request fails.
    #[verifier::allow_in_spec]
    pub fn fail(self, error: SdMmcError) -> Step<BlockRequest, BlockEnd>
        returns
            Step::<BlockRequest, BlockEnd>::Done(
                BlockEnd { result: Err(error), state: self.state },
            ),
    {
        Step::Done(BlockEnd { result: Err(error), state: self.state })
    }

    /// The driver is faulted and the request fails.
    #[verifier::allow_in_spec]
    pub fn fault(self, error: SdMmcError) -> Step<BlockRequest, BlockEnd>
        returns
            Step::<BlockRequest, BlockEnd>::Done(
                BlockEnd {
                    result: Err(error),
                    state: IdmacState { faulted: true, ..self.state },
                },
            ),
    {
        Step::Done(
            BlockEnd { result: Err(error), state: IdmacState { faulted: true, ..self.state } },
        )
    }

    /// Point after the transaction size is set: data to be written goes to the
    /// transfer buffer first.
    #[verifier::allow_in_spec]
    pub fn begin_chunk(self) -> Step<BlockRequest, BlockEnd>
        returns
            (match self.state.buffer {
                None => self.fail(SdMmcError::DmaUnavailable),
                Some(buffer) => match self.direction {
                    Direction::Read => self.begin_transfer(),
                    Direction::Write => match self.mode {
                        WaitMode::Sync => if buffer.bus_addr > u32::MAX {
                            self.fail(SdMmcError::DmaAddress)
                        } else {
                            self.at(BlockPhase::CopyIn)
                        },
                        WaitMode::Async => self.at(BlockPhase::CopyIn),
                    },
                },
            }),
    {
        match self.state.buffer {
            None => self.fail(SdMmcError::DmaUnavailable),
            Some(buffer) => match self.direction {
                Direction::Read => self.begin_transfer(),
                Direction::Write => match self.mode {
                    WaitMode::Sync => if buffer.bus_addr > u32::MAX as u64 {
                        self.fail(SdMmcError::DmaAddress)
                    } else {
                        self.at(BlockPhase::CopyIn)
                    },
                    WaitMode::Async => self.at(BlockPhase::CopyIn),
                },
            },
        }
    }

    /// Begins the transfer of the current chunk.
    #[verifier::allow_in_spec]
    pub fn begin_transfer(self) -> Step<BlockRequest, BlockEnd>
        returns
            (match self.state.buffer {
                None => self.fail(SdMmcError::DmaUnavailable),
                Some(buffer) => if buffer.bus_addr > u32::MAX {
                    self.fail(SdMmcError::DmaAddress)
                } else {
                    self.after_transfer(
                        IdmacTransfer::start(
                            self.mode,
                            self.state.faulted,
                            chunk_request(self.direction, self.block, self.chunk_len()),
                            buffer.bus_addr as u32,
                        ),
                    )
                },
            }),
    {
        match self.state.buffer {
            None => self.fail(SdMmcError::DmaUnavailable),
            Some(buffer) => if buffer.bus_addr > u32::MAX as u64 {
                self.fail(SdMmcError::DmaAddress)
            } else {
                self.after_transfer(
                    IdmacTransfer::start(
                        self.mode,
                        self.state.faulted,
                        chunk_request(self.direction, self.block, self.chunk_len()),
                        buffer.bus_addr as u32,
                    ),
                )
            },
        }
    }

    /// What the driver knows after a transfer.
    #[verifier::allow_in_spec]
    pub fn learn(self, end: TransferEnd) -> BlockRequest
        returns
            (BlockRequest {
                state: IdmacState {
                    faulted: self.state.faulted || end.faulted,
                    reset_failed: self.state.reset_failed || end.reset_failed,
                    ..self.state
                },
                ..self
            }),
    {
        BlockRequest {
            state: IdmacState {
                faulted: self.state.faulted || end.faulted,
                reset_failed: self.state.reset_failed || end.reset_failed,
                ..self.state
            },
            ..self
        }
    }

    /// Where a step of the transfer leads.
    #[verifier::allow_in_spec]
    pub fn after_transfer(self, step: Step<IdmacTransfer, TransferEnd>) -> Step<
        BlockRequest,
        BlockEnd,
    >
        returns
            (match step {
                Step::Next(transfer) => self.at(BlockPhase::Transfer(transfer)),
                Step::Done(end) => match end.result {
                    Err(error) => self.learn(end).fail(error),
                    Ok(_) => match self.direction {
                        Direction::Read => self.learn(end).at(BlockPhase::CopyOut),
                        Direction::Write => match self.mode {
                            WaitMode::Sync => self.learn(end).at(
                                BlockPhase::PollReady(PollReady::new()),
                            ),
                            WaitMode::Async => self.learn(end).at(
                                BlockPhase::AskReady(AskReady::new(self.rca)),
                            ),
                        },
                    },
                },
            }),
    {
        match step {
            Step::Next(transfer) => self.at(BlockPhase::Transfer(transfer)),
            Step::Done(end) => match end.result {
                Err(error) => self.learn(end).fail(error),
                Ok(_) => match self.direction {
                    Direction::Read => self.learn(end).at(BlockPhase::CopyOut),
                    Direction::Write => match self.mode {
                        WaitMode::Sync => self.learn(end).at(
                            BlockPhase::PollReady(PollReady::new()),
                        ),
                        WaitMode::Async => self.learn(end).at(
                            BlockPhase::AskReady(AskReady::new(self.rca)),
                        ),
                    },
                },
            },
        }
    }

    /// The current chunk is done: the request ends or goes on with the next one.
    #[verifier::allow_in_spec]
    pub fn next_chunk(self) -> Step<BlockRequest, BlockEnd>
        returns
            (if self.len.saturating_sub(self.offset) <= self.chunk_len() {
                Step::<BlockRequest, BlockEnd>::Done(
                    BlockEnd { result: Ok(()), state: self.state },
                )
            } else {
                match self.block.checked_add((self.chunk_len() / 512) as u32) {
                    Some(block) => (BlockRequest {
                        block,
                        offset: self.offset.saturating_add(self.chunk_len()),
                        ..self
                    }).at(BlockPhase::BlockSize),
                    None => self.fail(SdMmcError::OutOfRange),
                }
            }),
    {
        let chunk: usize = self.chunk_len();
        if self.len.saturating_sub(self.offset) <= chunk {
            Step::Done(BlockEnd { result: Ok(()), state: self.state })
        } else {
            match self.block.checked_add((chunk / BLOCK_SIZE) as u32) {
                Some(block) => (BlockRequest {
                    block,
                    offset: self.offset.saturating_add(chunk),
                    ..self
                }).at(BlockPhase::BlockSize),
                None => self.fail(SdMmcError::OutOfRange),
            }
        }
    }

    /// The request is suspended and can be cancelled.
    #[verifier::allow_in_spec]
    pub fn suspended(self) -> bool
        returns
            (match self.phase {
                BlockPhase::Transfer(transfer) => transfer.suspended(),
                BlockPhase::AskReady(ask) => ask.suspended(),
                _ => false,
            }),
    {
        match self.phase {
            BlockPhase::Transfer(transfer) => transfer.suspended(),
            BlockPhase::AskReady(ask) => ask.suspended(),
            _ => false,
        }
    }

    /// What cancelling a suspended request takes: a transfer under way must be
    /// aborted; the wait for the card has nothing under way.
    pub open spec fn cancellation(self) -> Option<FinishTransfer> {
        match self.phase {
            BlockPhase::Transfer(_) => Some(FinishTransfer::new(true)),
            _ => None,
        }
    }

    /// Tells what cancelling a suspended request takes.
    pub fn cancel(self) -> (abort: Option<FinishTransfer>)
        requires
            self.suspended(),
        ensures
            abort == self.cancellation(),
    {
        match self.phase {
            BlockPhase::Transfer(_) => Some(FinishTransfer::new(true)),
            _ => None,
        }
    }
}

impl Machine for BlockRequest {
    type Act = Op;

    type Event = Reply;

    type Out = BlockEnd;

    open spec fn op(self) -> Op {
        match self.phase {
            BlockPhase::BlockSize => Op::Update {
                reg: Reg::BlkSiz,
                clear: BlkSiz::SIZE_MASK,
                set: BLOCK_SIZE as u32,
            },
            BlockPhase::ByteCount => Op::Write(Reg::BytCnt, self.chunk_len() as u32),
            BlockPhase::CopyIn => Op::CopyIn { offset: self.offset, len: self.chunk_len() },
            BlockPhase::Transfer(transfer) => transfer.op(),
            BlockPhase::CopyOut => Op::CopyOut { offset: self.offset, len: self.chunk_len() },
            BlockPhase::PollReady(ready) => ready.op(),
            BlockPhase::AskReady(ready) => ready.op(),
        }
    }

    fn request(&self) -> (op: Op) {
        match self.phase {
            BlockPhase::BlockSize => Op::Update {
                reg: Reg::BlkSiz,
                clear: BlkSiz::SIZE_MASK,
                set: BLOCK_SIZE as u32,
            },
            BlockPhase::ByteCount => Op::Write(Reg::BytCnt, self.chunk_len() as u32),
            BlockPhase::CopyIn => Op::CopyIn { offset: self.offset, len: self.chunk_len() },
            BlockPhase::Transfer(transfer) => transfer.request(),
            BlockPhase::CopyOut => Op::CopyOut { offset: self.offset, len: self.chunk_len() },
            BlockPhase::PollReady(ready) => ready.request(),
            BlockPhase::AskReady(ready) => ready.request(),
        }
    }

    open spec fn next(self, reply: Reply) -> Step<Self, BlockEnd> {
        match self.phase {
            BlockPhase::BlockSize => self.at(BlockPhase::ByteCount),
            BlockPhase::ByteCount => self.begin_chunk(),
            BlockPhase::CopyIn => self.begin_transfer(),
            BlockPhase::Transfer(transfer) => self.after_transfer(transfer.next(reply)),
            BlockPhase::CopyOut => self.next_chunk(),
            BlockPhase::PollReady(ready) => match ready.next(reply) {
                Step::Next(ready) => self.at(BlockPhase::PollReady(ready)),
                Step::Done(Ok(_)) => self.next_chunk(),
                Step::Done(Err(error)) => self.fault(error),
            },
            BlockPhase::AskReady(ready) => match ready.next(reply) {
                Step::Next(ready) => self.at(BlockPhase::AskReady(ready)),
                Step::Done(Ok(_)) => self.next_chunk(),
                Step::Done(Err(error)) => self.fault(error),
            },
        }
    }

    fn step(self, reply: Reply) -> (step: Step<Self, BlockEnd>) {
        match self.phase {
            BlockPhase::BlockSize => self.at(BlockPhase::ByteCount),
            BlockPhase::ByteCount => self.begin_chunk(),
            BlockPhase::CopyIn => self.begin_transfer(),
            BlockPhase::Transfer(transfer) => self.after_transfer(transfer.step(reply)),
            BlockPhase::CopyOut => self.next_chunk(),
            BlockPhase::PollReady(ready) => match ready.step(reply) {
                Step::Next(ready) => self.at(BlockPhase::PollReady(ready)),
                Step::Done(Ok(_)) => self.next_chunk(),
                Step::Done(Err(error)) => self.fault(error),
            },
            BlockPhase::AskReady(ready) => match ready.step(reply) {
                Step::Next(ready) => self.at(BlockPhase::AskReady(ready)),
                Step::Done(Ok(_)) => self.next_chunk(),
                Step::Done(Err(error)) => self.fault(error),
            },
        }
    }
}

} // verus!
