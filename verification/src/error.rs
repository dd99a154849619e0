//! The errors of this library.

use vstd::prelude::*;

verus! {

/// `eyre::Report`, the error that a byte source fails with. It is carried
/// through as it came: nothing of what it holds is visible to the contracts.
#[verifier::external_type_specification]
#[verifier::external_body]
pub struct ExReport(eyre::Report);

/// The records of an archive that an error can speak of.
#[derive(Clone, Copy, Debug, PartialEq, Eq, Structural)]
pub enum Structure {
    /// The end-of-directory record.
    EndOfDirectory,
    /// The ZIP64 end-of-directory locator.
    Zip64Locator,
    /// The ZIP64 end-of-directory record.
    Zip64EndOfDirectory,
    /// A record of the central directory.
    CentralRecord,
    /// The local header of a member.
    LocalHeader,
}

/// Why an operation on an archive failed. Every error ends the operation that
/// met it: nothing is retried, and no partial result is returned.
#[derive(Debug)]
pub enum ZipError {
    /// The byte source failed. Its error is handed on unchanged.
    Io(eyre::Report),
    /// The record that should start at `offset` does not start with its
    /// signature. For a ZIP64 locator that has no room in front of the
    /// end-of-directory record, `offset` is the offset of that record.
    Format { structure: Structure, offset: u64 },
    /// A member is compressed with `method`, as `declared_in` says. Only
    /// members stored without compression can be read.
    UnsupportedCompression { method: u16, declared_in: Structure },
    /// A range of bytes was asked for that reaches past the end of the member,
    /// or the whole of a member that no buffer can hold.
    OutOfBounds,
    /// The archive holds no such record where it has to be.
    NotFound { structure: Structure },
}

} // verus!
