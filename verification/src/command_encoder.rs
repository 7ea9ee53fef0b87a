//! Index formats that index buffers can be bound with.

use vstd::prelude::*;

verus! {

/// The integer type of the entries of an index buffer.
#[derive(Debug, Clone, Copy, PartialEq, Eq, Structural)]
pub enum IndexType {
    U16,
    U32,
}

/// The size of a `u16` in bytes.
pub const U16_SIZE: usize = 2;

/// The size of a `u32` in bytes.
pub const U32_SIZE: usize = 4;

impl IndexType {
    /// The size of one index in bytes.
    pub fn get_size(&self) -> (r: usize)
        ensures
            r == match self {
                IndexType::U16 => 2usize,
                IndexType::U32 => 4usize,
            },
    {
        match self {
            IndexType::U16 => U16_SIZE,
            IndexType::U32 => U32_SIZE,
        }
    }
}

} // verus!
