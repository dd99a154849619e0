//! The byte source that an archive is read from.

use crate::error::ZipError;
use crate::layout::window;
use vstd::prelude::*;

verus! {

/// A source of bytes that can be read at any offset: a file, a buffer in
/// memory, a store behind a network.
///
/// The handle is immutable: `bytes` is what the source holds, and every read
/// that succeeds returns a part of it. A read, and the size query, may fail at
/// any time unless the source says that it is `dependable`: then a read
/// succeeds just when its range lies within the source.
pub trait ZipIO: Send + Sync {
    /// What the source holds, the first byte at offset 0.
    spec fn bytes(&self) -> Seq<u8>;

    /// Whether the source answers every request by its content alone: `size`
    /// always succeeds, and `read_at` succeeds for every range that lies
    /// within the source and fails for every other, an empty range behind the
    /// end among them. A source that can fail for other reasons, or that
    /// lets an empty read behind its end pass, says `false`.
    spec fn dependable(&self) -> bool;

    /// No source is longer than a 64-bit offset can address.
    proof fn lemma_addressable(&self)
        ensures
            self.bytes().len() <= u64::MAX,
    ;

    /// Fills `buf` with the bytes of the source from `offset` on, or fails.
    /// A read that reaches past the end of the source fails.
    fn read_at(&self, offset: u64, buf: &mut [u8]) -> (r: Result<(), eyre::Report>)
        ensures
            final(buf)@.len() == old(buf)@.len(),
            r is Ok ==> final(buf)@ == window(self.bytes(), offset as int, old(buf)@.len() as int),
            r is Ok && old(buf)@.len() > 0 ==> offset + old(buf)@.len() <= self.bytes().len(),
            self.dependable() ==> (r is Ok <==> offset + old(buf)@.len() <= self.bytes().len()),
    ;

    /// The number of bytes that the source holds.
    fn size(&self) -> (r: Result<u64, eyre::Report>)
        ensures
            r matches Ok(n) ==> n == self.bytes().len(),
            self.dependable() ==> r is Ok,
    ;
}

/// A reference to a byte source is a byte source: the same bytes, read
/// through the same calls.
impl<T: ZipIO + ?Sized> ZipIO for &T {
    open spec fn bytes(&self) -> Seq<u8> {
        (**self).bytes()
    }

    open spec fn dependable(&self) -> bool {
        (**self).dependable()
    }

    proof fn lemma_addressable(&self) {
        (**self).lemma_addressable();
    }

    fn read_at(&self, offset: u64, buf: &mut [u8]) -> (r: Result<(), eyre::Report>) {
        (**self).read_at(offset, buf)
    }

    fn size(&self) -> (r: Result<u64, eyre::Report>) {
        (**self).size()
    }
}

/// `eyre::Report::msg`: makes the error that a read past the end of a buffer
/// fails with. Nothing is claimed of the report.
#[verifier::external_body]
fn report(message: &'static str) -> eyre::Report {
    eyre::Report::msg(message)
}

/// A buffer in memory is a dependable byte source: a read fails only where it
/// reaches past the end of the buffer.
impl ZipIO for Vec<u8> {
    open spec fn bytes(&self) -> Seq<u8> {
        self@
    }

    open spec fn dependable(&self) -> bool {
        true
    }

    proof fn lemma_addressable(&self) {
        assert(self@.len() == self.len());
    }

    fn read_at(&self, offset: u64, buf: &mut [u8]) -> (r: Result<(), eyre::Report>)
        ensures
            r is Ok <==> offset + old(buf)@.len() <= self@.len(),
            r is Err ==> final(buf)@ == old(buf)@,
    {
        let n = buf.len();
        let total = self.len();
        if offset > total as u64 || n as u64 > total as u64 - offset {
            return Err(report("Read beyond end of buffer"));
        }
        let start = offset as usize;
        let mut i: usize = 0;
        while i < n
            invariant
                i <= n,
                n == buf@.len(),
                buf@.len() == old(buf)@.len(),
                total == self@.len(),
                start + n <= total,
                start == offset,
                forall|j: int| 0 <= j < i ==> buf@[j] == self@[start + j],
            decreases n - i,
        {
            buf[i] = self[start + i];
            i += 1;
        }
        assert(buf@ =~= window(self@, offset as int, n as int));
        Ok(())
    }

    fn size(&self) -> (r: Result<u64, eyre::Report>)
        ensures
            r == Ok::<u64, eyre::Report>(self@.len() as u64),
    {
        Ok(self.len() as u64)
    }
}

/// Reads the `len` bytes at `offset` of a source into a new buffer.
pub fn fetch<I: ZipIO>(io: &I, offset: u64, len: usize) -> (r: Result<Vec<u8>, ZipError>)
    ensures
        match r {
            Ok(v) => {
                &&& v@ == window(io.bytes(), offset as int, len as int)
                &&& len > 0 ==> offset + len <= io.bytes().len()
            },
            Err(e) => e is Io,
        },
        io.dependable() ==> (r is Ok <==> offset + len <= io.bytes().len()),
{
    let mut v = vec![0u8; len];
    match io.read_at(offset, v.as_mut_slice()) {
        Ok(()) => Ok(v),
        Err(e) => Err(ZipError::Io(e)),
    }
}

} // verus!
