//! What an archive is: the records that a sequence of bytes holds, and what
//! reading them yields. Everything here is specification. The functions take
//! the content of a byte source and say what each operation of the reader
//! finds in it.

use crate::entry::EntryView;
use crate::error::{Structure, ZipError};
use crate::layout::{
    last_signature, u16_at, u32_at, window, CENTRAL_HEADER_SIZE, COMPRESSION_STORED, EOCD_MIN_SIZE,
    EOCD_SIGNATURE, LOCAL_HEADER_SIZE, MAX_COMMENT_SIZE, ZIP64_EOCD_SIZE, ZIP64_LOCATOR_SIZE,
};
use crate::records::{
    central_header, legacy_directory_of, local_header, locator_offset_of, locator_target,
    zip64_record, EOCD_COUNT_AT, EOCD_DIRECTORY_AT,
};
use vstd::prelude::*;

verus! {

/// What an operation finds in the content of a byte source.
pub ghost enum Outcome<T> {
    /// The records are there and say this.
    Done(T),
    /// A record is missing or malformed: the operation fails with this error.
    Fails(ZipError),
    /// A record reaches past the end of the source. The read that meets the
    /// end fails, so the operation fails with the error of the source.
    PastEnd,
}

impl<T> Outcome<T> {
    /// The outcome of reading a record that lies within the source.
    pub open spec fn of(parsed: Result<T, ZipError>) -> Outcome<T> {
        match parsed {
            Ok(t) => Outcome::Done(t),
            Err(e) => Outcome::Fails(e),
        }
    }

    /// Whether `r` is the result that this outcome determines: its value, its
    /// error, or an error of the source where a read met the end.
    pub open spec fn describes(self, r: Result<T, ZipError>) -> bool {
        match self {
            Outcome::Done(t) => r == Ok::<T, ZipError>(t),
            Outcome::Fails(e) => r == Err::<T, ZipError>(e),
            Outcome::PastEnd => r matches Err(e) && e is Io,
        }
    }

    /// Whether `r` can come of this outcome when the source may fail at any
    /// read: the result that it determines, or an error of the source.
    pub open spec fn allows(self, r: Result<T, ZipError>) -> bool {
        (r matches Err(e) && e is Io) || self.describes(r)
    }
}

/// The lowest position at which the end-of-directory record is looked for in
/// a source of `len` bytes: the record is 22 bytes long and its comment at
/// most 65535, so the search covers the last 65557 bytes, or all of them.
pub open spec fn search_floor(len: int) -> int {
    if len > MAX_COMMENT_SIZE + EOCD_MIN_SIZE {
        len - (MAX_COMMENT_SIZE + EOCD_MIN_SIZE)
    } else {
        0
    }
}

/// The end-of-directory record: its offset and its 16-bit entry count. The
/// record is the right-most occurrence of its signature at or after the
/// search floor.
pub open spec fn end_record(src: Seq<u8>) -> Outcome<(u64, u16)> {
    match last_signature(src, EOCD_SIGNATURE@, search_floor(src.len() as int), src.len() as int) {
        None => Outcome::Fails(ZipError::NotFound { structure: Structure::EndOfDirectory }),
        Some(p) => if p + EOCD_COUNT_AT + 2 <= src.len() {
            Outcome::Done((p as u64, u16_at(src, p + EOCD_COUNT_AT) as u16))
        } else {
            Outcome::PastEnd
        },
    }
}

/// The offset of the central directory and the number of its entries, as the
/// ZIP64 records of the end-of-directory record at `eocd` give them. The
/// locator is the 20 bytes in front of that record: they must start with the
/// locator's signature. The ZIP64 end-of-directory record is read at the
/// offset that the locator names, and must start with its own signature.
pub open spec fn zip64_directory(src: Seq<u8>, eocd: u64) -> Outcome<(u64, u64)> {
    match locator_offset_of(eocd) {
        Err(e) => Outcome::Fails(e),
        Ok(start) => if eocd > src.len() {
            Outcome::PastEnd
        } else {
            match locator_target(window(src, start as int, ZIP64_LOCATOR_SIZE as int)) {
                None => Outcome::Fails(ZipError::NotFound { structure: Structure::Zip64Locator }),
                Some(at) => if at + ZIP64_EOCD_SIZE > src.len() {
                    Outcome::PastEnd
                } else {
                    Outcome::of(zip64_record(window(src, at as int, ZIP64_EOCD_SIZE as int), at))
                },
            }
        },
    }
}

/// The offset of the central directory and the number of its entries. They
/// are the 32-bit offset and the 16-bit count of the end-of-directory record,
/// unless that offset is the sentinel: then both come from the ZIP64 records,
/// whatever the 16-bit count says.
pub open spec fn directory(src: Seq<u8>) -> Outcome<(u64, u64)> {
    match end_record(src) {
        Outcome::Done((eocd, count)) => if eocd + EOCD_DIRECTORY_AT + 4 > src.len() {
            Outcome::PastEnd
        } else {
            match legacy_directory_of(u32_at(src, eocd + EOCD_DIRECTORY_AT) as u32, count) {
                Some(found) => Outcome::Done(found),
                None => zip64_directory(src, eocd),
            }
        },
        Outcome::Fails(e) => Outcome::Fails(e),
        Outcome::PastEnd => Outcome::PastEnd,
    }
}

/// The entry that the central directory record at `offset` describes, and the
/// offset of the record that follows it: behind the fixed part, the name, the
/// extra field and the comment of this one.
pub open spec fn central_record(src: Seq<u8>, offset: u64) -> Outcome<(EntryView, u64)> {
    if offset + CENTRAL_HEADER_SIZE > src.len() {
        Outcome::PastEnd
    } else {
        match central_header(window(src, offset as int, CENTRAL_HEADER_SIZE as int), offset) {
            Err(e) => Outcome::Fails(e),
            Ok(header) => if offset + CENTRAL_HEADER_SIZE + header.name_len + header.extra_len
                > src.len() {
                Outcome::PastEnd
            } else {
                Outcome::Done(
                    (
                        header.entry_view(
                            window(
                                src,
                                header.name_offset(offset) as int,
                                header.name_len as int,
                            ),
                            window(
                                src,
                                header.extra_offset(offset) as int,
                                header.extra_len as int,
                            ),
                        ),
                        header.next_offset(offset),
                    ),
                )
            },
        }
    }
}

/// `entries` put behind `front`, where there are any.
pub open spec fn after<T>(front: Seq<T>, rest: Outcome<Seq<T>>) -> Outcome<Seq<T>> {
    match rest {
        Outcome::Done(entries) => Outcome::Done(front + entries),
        Outcome::Fails(e) => Outcome::Fails(e),
        Outcome::PastEnd => Outcome::PastEnd,
    }
}

/// The entries of `count` central directory records, the first of them at
/// `offset`, in the order of the records. The first record that cannot be
/// read ends the walk.
pub open spec fn entries(src: Seq<u8>, offset: u64, count: nat) -> Outcome<Seq<EntryView>>
    decreases count,
{
    if count == 0 {
        Outcome::Done(Seq::empty())
    } else {
        match central_record(src, offset) {
            Outcome::Done((entry, next)) => after(
                seq![entry],
                entries(src, next, (count - 1) as nat),
            ),
            Outcome::Fails(e) => Outcome::Fails(e),
            Outcome::PastEnd => Outcome::PastEnd,
        }
    }
}

/// The entries of the archive, in the order of its central directory.
pub open spec fn listing(src: Seq<u8>) -> Outcome<Seq<EntryView>> {
    match directory(src) {
        Outcome::Done((offset, count)) => entries(src, offset, count as nat),
        Outcome::Fails(e) => Outcome::Fails(e),
        Outcome::PastEnd => Outcome::PastEnd,
    }
}

/// The offset at which the content of the member starts whose local header is
/// at `offset`.
pub open spec fn data_start(src: Seq<u8>, offset: u64) -> Outcome<u64> {
    if offset + LOCAL_HEADER_SIZE > src.len() {
        Outcome::PastEnd
    } else {
        Outcome::of(local_header(window(src, offset as int, LOCAL_HEADER_SIZE as int), offset))
    }
}

/// The offset at which the content of `entry` starts, for an entry that can
/// be opened: the central directory and the local header both say that it is
/// stored without compression. An entry that the central directory calls
/// compressed is refused before its local header is looked at. The size that
/// the entry declares is not looked at: every stored entry whose local header
/// is in order can be opened.
pub open spec fn opening(src: Seq<u8>, entry: EntryView) -> Outcome<u64> {
    if entry.compression_method != COMPRESSION_STORED {
        Outcome::Fails(
            ZipError::UnsupportedCompression {
                method: entry.compression_method,
                declared_in: Structure::CentralRecord,
            },
        )
    } else {
        data_start(src, entry.offset)
    }
}

} // verus!
