use vstd::prelude::*;

verus! {

/// Bundle max nesting level
pub const MAX_NESTING_LEVEL: u16 = 1;

/// Max block range in bundle inclusion
pub const MAX_BLOCK_RANGE: u64 = 30;

/// Max block offset
pub const MAX_BLOCK_OFFSET: u64 = 5;

/// Max body size
pub const MAX_BODY_SIZE: u64 = 50;

} // verus!
