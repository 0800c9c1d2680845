//! The card as a block device of an operating system and as the disk of a file
//! system.

use crate::blocks::{validate_block_buffer, BLOCK_SIZE};
use vstd::prelude::*;

verus! {

/// First block of a request of the block layer, if the request is valid: it has
/// at least one block, no part of a block, and lies within the card.
pub open spec fn request_start(block_id: u64, len: usize, num_blocks: u64) -> Option<u32> {
    if len == 0 || len as int % BLOCK_SIZE as int != 0 {
        None
    } else if block_id > u32::MAX || block_id + len as int / BLOCK_SIZE as int > num_blocks {
        None
    } else {
        Some(block_id as u32)
    }
}

/// Checks a request of the block layer and tells its first block.
#[verifier::when_used_as_spec(request_start)]
pub fn check_request(block_id: u64, len: usize, num_blocks: u64) -> (start: Option<u32>)
    ensures
        start == request_start(block_id, len, num_blocks),
{
    if len == 0 || len % BLOCK_SIZE != 0 {
        return None;
    }
    let end: u64 = match block_id.checked_add((len / BLOCK_SIZE) as u64) {
        Some(end) => end,
        None => return None,
    };
    if block_id > u32::MAX as u64 || end > num_blocks {
        None
    } else {
        Some(block_id as u32)
    }
}

/// On a card whose blocks can all be addressed, the driver takes every request
/// that the block layer may make: its buffer is made of whole blocks and its range
/// lies within the card.
pub proof fn law_admitted_requests_are_valid(block_id: u64, len: usize, num_blocks: u64)
    requires
        num_blocks <= 0x1_0000_0000,
    ensures
        request_start(block_id, len, num_blocks) matches Some(start) ==> start == block_id
            && validate_block_buffer(start, len, num_blocks) is Ok,
{
}

/// Why a file system's request to its disk failed.
#[derive(Clone, Copy, Debug, PartialEq, Eq, Structural)]
pub enum DiskError {
    /// The device failed.
    Io,
    /// The file system must not be written.
    ReadOnly,
}

impl DiskError {
    /// Number of the error.
    #[verifier::allow_in_spec]
    pub fn errno(self) -> i32
        returns
            (match self {
                DiskError::Io => 5i32,
                DiskError::ReadOnly => 30,
            }),
    {
        match self {
            DiskError::Io => 5,
            DiskError::ReadOnly => 30,
        }
    }
}

/// Tells whether a write may reach the device: not on a read-only file system.
pub fn admit_write(read_only: bool) -> (verdict: Result<(), DiskError>)
    ensures
        verdict == (if read_only {
            Err::<(), DiskError>(DiskError::ReadOnly)
        } else {
            Ok(())
        }),
{
    if read_only {
        Err(DiskError::ReadOnly)
    } else {
        Ok(())
    }
}

/// What a file system learns of a request that reached the device: the number of
/// bytes, or that the device failed.
pub fn disk_outcome(done: bool, len: usize) -> (outcome: Result<usize, DiskError>)
    ensures
        outcome == (if done {
            Ok::<usize, DiskError>(len)
        } else {
            Err(DiskError::Io)
        }),
{
    if done {
        Ok(len)
    } else {
        Err(DiskError::Io)
    }
}

} // verus!
