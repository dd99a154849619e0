//! The range that the content of a member takes in the byte source.

use crate::error::ZipError;
use crate::layout::clipped;
use vstd::prelude::*;

verus! {

/// The place of a member's content in the byte source: `size` bytes from
/// `data_offset` on. Both are taken as the archive declares them; nothing is
/// asked of them here.
#[derive(Clone, Copy, Debug)]
pub struct ContentRange {
    data_offset: u64,
    size: u64,
}

impl ContentRange {
    /// The offset in the source at which the content starts.
    pub closed spec fn start(&self) -> u64 {
        self.data_offset
    }

    /// The number of bytes of the content.
    pub closed spec fn len(&self) -> u64 {
        self.size
    }

    /// The offset in the source of the byte at `offset` of the content. An
    /// offset that no 64-bit number holds becomes the largest one: no source
    /// holds a byte there, so a read of any byte at it fails in the source.
    pub open spec fn position(&self, offset: u64) -> u64 {
        clipped(self.start() + offset)
    }

    /// Makes the range of `size` bytes from `data_offset` on.
    pub fn new(data_offset: u64, size: u64) -> (range: ContentRange)
        ensures
            range.start() == data_offset,
            range.len() == size,
    {
        ContentRange { data_offset, size }
    }

    /// The offset in the source at which the content starts.
    #[verifier::when_used_as_spec(start)]
    pub fn data_offset(&self) -> (at: u64)
        ensures
            at == self.start(),
    {
        self.data_offset
    }

    /// The number of bytes of the content.
    #[verifier::when_used_as_spec(len)]
    pub fn size(&self) -> (n: u64)
        ensures
            n == self.len(),
    {
        self.size
    }

    /// Tells where in the source the `len` bytes lie that start at `offset`
    /// of the content. Fails with an out-of-bounds error where they reach
    /// past the end of the content, and only there.
    pub fn locate(&self, offset: u64, len: usize) -> (r: Result<u64, ZipError>)
        ensures
            match r {
                Ok(at) => offset + len <= self.len() && at == self.position(offset),
                Err(e) => e == ZipError::OutOfBounds && offset + len > self.len(),
            },
    {
        if offset > self.size || len as u64 > self.size - offset {
            return Err(ZipError::OutOfBounds);
        }
        Ok(self.data_offset.saturating_add(offset))
    }
}

} // verus!
