//! Descriptions of GPU buffers and of ranges inside them.

use std::borrow::Cow;
use std::ops::Range;
use vstd::prelude::*;

verus! {

/// Used for binding the buffer in a command encoder.
#[derive(Debug, Clone, Copy, PartialEq, Eq, Structural)]
pub struct BufferRange {
    pub offset: u64,
    /// When None the whole buffer is used
    pub size: Option<u64>,
}

/// A copy of `size` bytes from one buffer offset to another.
#[derive(Debug, Clone, Copy, PartialEq, Eq, Structural)]
pub struct BufferCopy {
    pub src_offset: u64,
    pub dst_offset: u64,
    pub size: u64,
}

impl BufferRange {
    /// The range that covers the whole buffer.
    pub fn whole() -> (r: BufferRange)
        ensures
            r == (BufferRange { offset: 0, size: None }),
    {
        BufferRange { offset: 0, size: None }
    }
}

impl From<Range<u64>> for BufferRange {
    fn from(r: Range<u64>) -> (b: BufferRange) {
        BufferRange { offset: r.start, size: Some(r.end.wrapping_sub(r.start)) }
    }
}

impl vstd::std_specs::convert::FromSpecImpl<Range<u64>> for BufferRange {
    open spec fn obeys_from_spec() -> bool {
        true
    }

    /// The range `start..end` starts at `start` and spans `end - start` bytes (modulo 2^64
    /// where `end` lies below `start`).
    open spec fn from_spec(r: Range<u64>) -> BufferRange {
        BufferRange {
            offset: r.start,
            size: Some(
                (if r.start <= r.end {
                    r.end - r.start
                } else {
                    r.end - r.start + 0x1_0000_0000_0000_0000
                }) as u64,
            ),
        }
    }
}

/// Where the memory of a buffer lives.
#[derive(Clone, Copy, Debug, PartialEq, Eq, Hash, Structural)]
pub enum MemoryType {
    DeviceLocal,
    HostVisible,
}

/// What a buffer is used for.
#[derive(Clone, Copy, Debug, PartialEq, Eq, Hash, Structural)]
pub enum BufferUsage {
    Uniform,
    Vertex,
    Index,
    Staging,
}

/// `Cow::clone`, which the derived `Clone` of `BufferDescriptor` calls: the clone of a
/// borrowed value borrows the same value and the clone of an owned value owns a copy of it.
/// No clause is stated of the result: std's documentation gives none that the library needs.
pub assume_specification<'a, B: ?Sized + ToOwned>[ <Cow<'a, B> as Clone>::clone ](
    c: &Cow<'a, B>,
) -> Cow<'a, B>;

/// Everything needed to create a buffer.
#[derive(Clone, Debug)]
pub struct BufferDescriptor<'a> {
    pub name: Cow<'a, str>,
    pub size: u64,
    pub memory_type: MemoryType,
    pub usage: BufferUsage,
}

} // verus!
