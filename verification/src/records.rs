//! The records of an archive, each read from its own bytes: what the fields of
//! a record mean once the record has been fetched.

use crate::entry::{decode_name, name_text, EntryView, ZipEntry};
use crate::error::{Structure, ZipError};
use crate::layout::{
    clipped, has_signature, read_u16, read_u32, read_u64, signature_at, u16_at, u32_at, u64_at,
    CENTRAL_DIR_HEADER_SIGNATURE, CENTRAL_HEADER_SIZE, COMPRESSION_STORED,
    LOCAL_FILE_HEADER_SIGNATURE, LOCAL_HEADER_SIZE, ZIP64_EOCD_LOCATOR_SIGNATURE,
    ZIP64_EOCD_SIGNATURE, ZIP64_EOCD_SIZE, ZIP64_EXTRA_TAG, ZIP64_LOCATOR_SIZE, ZIP64_SENTINEL,
};
use vstd::prelude::*;

verus! {

/// Position of the 16-bit entry count in the end-of-directory record.
pub const EOCD_COUNT_AT: usize = 10;

/// Position of the 32-bit offset of the central directory in the
/// end-of-directory record.
pub const EOCD_DIRECTORY_AT: usize = 16;

/// Position, in the ZIP64 locator, of the 64-bit offset of the ZIP64
/// end-of-directory record.
pub const LOCATOR_TARGET_AT: usize = 8;

/// Position of the 64-bit entry count in the ZIP64 end-of-directory record.
pub const ZIP64_COUNT_AT: usize = 32;

/// Position of the 64-bit offset of the central directory in the ZIP64
/// end-of-directory record.
pub const ZIP64_DIRECTORY_AT: usize = 48;

/// Position of the compression method in a central directory record.
pub const CENTRAL_METHOD_AT: usize = 10;

/// Position of the 32-bit uncompressed size in a central directory record.
pub const CENTRAL_SIZE_AT: usize = 24;

/// Position of the length of the name in a central directory record.
pub const CENTRAL_NAME_LEN_AT: usize = 28;

/// Position of the length of the extra field in a central directory record.
pub const CENTRAL_EXTRA_LEN_AT: usize = 30;

/// Position of the length of the comment in a central directory record.
pub const CENTRAL_COMMENT_LEN_AT: usize = 32;

/// Position of the 32-bit offset of the local header in a central directory
/// record.
pub const CENTRAL_OFFSET_AT: usize = 42;

/// Position of the compression method in a local header.
pub const LOCAL_METHOD_AT: usize = 8;

/// Position of the length of the name in a local header.
pub const LOCAL_NAME_LEN_AT: usize = 26;

/// Position of the length of the extra field in a local header.
pub const LOCAL_EXTRA_LEN_AT: usize = 28;

/// The fixed part of a central directory record.
#[derive(Clone, Copy, Debug, PartialEq, Eq, Structural)]
pub struct CentralHeader {
    /// Compression method of the member.
    pub compression_method: u16,
    /// Size of the member's content, or the sentinel.
    pub uncompressed_size: u32,
    /// Length of the name that follows the fixed part.
    pub name_len: u16,
    /// Length of the extra field that follows the name.
    pub extra_len: u16,
    /// Length of the comment that follows the extra field.
    pub comment_len: u16,
    /// Offset of the member's local header, or the sentinel.
    pub local_header_offset: u32,
}

/// What the first 46 bytes of a central directory record at `offset` say, or
/// why they are no such record.
pub open spec fn central_header(buf: Seq<u8>, offset: u64) -> Result<CentralHeader, ZipError> {
    if buf.len() < CENTRAL_HEADER_SIZE || !signature_at(buf, 0, CENTRAL_DIR_HEADER_SIGNATURE@) {
        Err(ZipError::Format { structure: Structure::CentralRecord, offset })
    } else {
        Ok(
            CentralHeader {
                compression_method: u16_at(buf, CENTRAL_METHOD_AT as int) as u16,
                uncompressed_size: u32_at(buf, CENTRAL_SIZE_AT as int) as u32,
                name_len: u16_at(buf, CENTRAL_NAME_LEN_AT as int) as u16,
                extra_len: u16_at(buf, CENTRAL_EXTRA_LEN_AT as int) as u16,
                comment_len: u16_at(buf, CENTRAL_COMMENT_LEN_AT as int) as u16,
                local_header_offset: u32_at(buf, CENTRAL_OFFSET_AT as int) as u32,
            },
        )
    }
}

/// Reads the fixed part of the central directory record that was fetched from
/// `offset`. Fails with a format error where `buf` does not start with the
/// record's signature or is shorter than the fixed part.
pub fn parse_central_header(buf: &[u8], offset: u64) -> (r: Result<CentralHeader, ZipError>)
    ensures
        r == central_header(buf@, offset),
{
    if buf.len() < CENTRAL_HEADER_SIZE || !has_signature(buf, 0, &CENTRAL_DIR_HEADER_SIGNATURE) {
        return Err(ZipError::Format { structure: Structure::CentralRecord, offset });
    }
    Ok(
        CentralHeader {
            compression_method: read_u16(buf, CENTRAL_METHOD_AT),
            uncompressed_size: read_u32(buf, CENTRAL_SIZE_AT),
            name_len: read_u16(buf, CENTRAL_NAME_LEN_AT),
            extra_len: read_u16(buf, CENTRAL_EXTRA_LEN_AT),
            comment_len: read_u16(buf, CENTRAL_COMMENT_LEN_AT),
            local_header_offset: read_u32(buf, CENTRAL_OFFSET_AT),
        },
    )
}

/// The position in `extra`, at or after `pos`, of the first sub-field that is
/// tagged as ZIP64 information. The sub-fields are walked by their declared
/// sizes; the walk ends where fewer than four bytes are left, or at a
/// sub-field that claims more bytes than `extra` has.
pub open spec fn zip64_field(extra: Seq<u8>, pos: int) -> Option<int>
    decreases extra.len() - pos,
{
    if pos < 0 || pos + 4 > extra.len() {
        None
    } else if pos + 4 + u16_at(extra, pos + 2) > extra.len() {
        None
    } else if u16_at(extra, pos) == ZIP64_EXTRA_TAG {
        Some(pos)
    } else {
        zip64_field(extra, pos + 4 + u16_at(extra, pos + 2))
    }
}

/// The size and the local header offset of an entry, given the two 32-bit
/// fields of its record and its extra field. A field that is not the sentinel
/// stands for itself. Where one is, the first ZIP64 sub-field of `extra` is
/// read: eight bytes of size if the size is the sentinel, then eight bytes of
/// offset if the offset is the sentinel, each only as far as the sub-field
/// reaches. A sentinel that finds no value there stays as it is.
pub open spec fn zip64_overlay(extra: Seq<u8>, size: u32, offset: u32) -> (u64, u64) {
    if size != ZIP64_SENTINEL && offset != ZIP64_SENTINEL {
        (size as u64, offset as u64)
    } else {
        match zip64_field(extra, 0) {
            None => (size as u64, offset as u64),
            Some(pos) => {
                let end = pos + 4 + u16_at(extra, pos + 2);
                let first = pos + 4;
                let takes_size = size == ZIP64_SENTINEL && first + 8 <= end;
                let second = if takes_size {
                    first + 8
                } else {
                    first
                };
                let takes_offset = offset == ZIP64_SENTINEL && second + 8 <= end;
                (
                    if takes_size {
                        u64_at(extra, first) as u64
                    } else {
                        size as u64
                    },
                    if takes_offset {
                        u64_at(extra, second) as u64
                    } else {
                        offset as u64
                    },
                )
            },
        }
    }
}

/// Resolves the size and the local header offset of an entry from the two
/// 32-bit fields of its record and the bytes of its extra field.
pub fn resolve_zip64(extra: &[u8], size: u32, offset: u32) -> (r: (u64, u64))
    ensures
        r == zip64_overlay(extra@, size, offset),
{
    let mut resolved_size = size as u64;
    let mut resolved_offset = offset as u64;
    if size != ZIP64_SENTINEL && offset != ZIP64_SENTINEL {
        return (resolved_size, resolved_offset);
    }
    let n = extra.len();
    let mut pos: usize = 0;
    while n >= 4 && pos <= n - 4
        invariant
            n == extra@.len(),
            pos <= n,
            zip64_field(extra@, 0) == zip64_field(extra@, pos as int),
            resolved_size == size,
            resolved_offset == offset,
        decreases n - pos,
    {
        let tag = read_u16(extra, pos);
        let data_size = read_u16(extra, pos + 2) as usize;
        let room = n - pos - 4;
        if tag == ZIP64_EXTRA_TAG && data_size <= room {
            let end = pos + 4 + data_size;
            let mut field = pos + 4;
            if size == ZIP64_SENTINEL && end - field >= 8 {
                resolved_size = read_u64(extra, field);
                field += 8;
            }
            if offset == ZIP64_SENTINEL && end - field >= 8 {
                resolved_offset = read_u64(extra, field);
            }
            return (resolved_size, resolved_offset);
        }
        if data_size >= room {
            assert(data_size == room ==> zip64_field(extra@, pos + 4 + data_size) is None);
            return (resolved_size, resolved_offset);
        }
        pos += 4 + data_size;
    }
    (resolved_size, resolved_offset)
}

impl CentralHeader {
    /// The offset of the record's name, for a record at `offset`.
    pub open spec fn name_offset(self, offset: u64) -> u64 {
        clipped(offset + CENTRAL_HEADER_SIZE)
    }

    /// The offset of the record's extra field, for a record at `offset`.
    pub open spec fn extra_offset(self, offset: u64) -> u64 {
        clipped(offset + CENTRAL_HEADER_SIZE + self.name_len)
    }

    /// The offset of the record that follows, for a record at `offset`.
    pub open spec fn next_offset(self, offset: u64) -> u64 {
        clipped(offset + CENTRAL_HEADER_SIZE + self.name_len + self.extra_len + self.comment_len)
    }

    /// The entry that the record describes, given the bytes of its name and
    /// of its extra field.
    pub open spec fn entry_view(self, name: Seq<u8>, extra: Seq<u8>) -> EntryView {
        let resolved = zip64_overlay(extra, self.uncompressed_size, self.local_header_offset);
        EntryView {
            name: name_text(name),
            uncompressed_size: resolved.0,
            offset: resolved.1,
            compression_method: self.compression_method,
        }
    }

    /// Tells where the name of the record at `offset` starts: behind the
    /// fixed part.
    pub fn name_at(&self, offset: u64) -> (at: u64)
        ensures
            at == self.name_offset(offset),
    {
        offset.saturating_add(CENTRAL_HEADER_SIZE as u64)
    }

    /// Tells where the extra field of the record at `offset` starts: behind
    /// the name.
    pub fn extra_at(&self, offset: u64) -> (at: u64)
        ensures
            at == self.extra_offset(offset),
    {
        self.name_at(offset).saturating_add(self.name_len as u64)
    }

    /// Tells where the record starts that follows the one at `offset`:
    /// behind its extra field and its comment.
    pub fn next_at(&self, offset: u64) -> (at: u64)
        ensures
            at == self.next_offset(offset),
    {
        self.extra_at(offset).saturating_add(self.extra_len as u64).saturating_add(
            self.comment_len as u64,
        )
    }

    /// Makes the entry that the record describes, from the bytes of its name
    /// and of its extra field: the name decoded as text, the size and the
    /// offset resolved against the extra field.
    pub fn entry(&self, name: &[u8], extra: &[u8]) -> (entry: ZipEntry)
        ensures
            entry@ == self.entry_view(name@, extra@),
    {
        let resolved = resolve_zip64(extra, self.uncompressed_size, self.local_header_offset);
        ZipEntry {
            name: decode_name(name),
            uncompressed_size: resolved.0,
            offset: resolved.1,
            compression_method: self.compression_method,
        }
    }
}

/// The directory that the end-of-directory record gives by its own fields,
/// the 32-bit offset and the 16-bit count: none where the offset is the
/// sentinel.
pub open spec fn legacy_directory_of(offset: u32, count: u16) -> Option<(u64, u64)> {
    if offset == ZIP64_SENTINEL {
        None
    } else {
        Some((offset as u64, count as u64))
    }
}

/// Reads the two fields of the end-of-directory record: returns the offset of
/// the central directory and the number of its entries, or `None` where the
/// offset is the sentinel and the ZIP64 records have to be read instead.
pub fn legacy_directory(offset: u32, count: u16) -> (r: Option<(u64, u64)>)
    ensures
        r == legacy_directory_of(offset, count),
{
    if offset == ZIP64_SENTINEL {
        None
    } else {
        Some((offset as u64, count as u64))
    }
}

/// The offset of the 20 bytes that have to be the ZIP64 locator: those
/// in front of the end-of-directory record at `eocd`. An end-of-directory
/// record with fewer than 20 bytes in front of it has no locator.
pub open spec fn locator_offset_of(eocd: u64) -> Result<u64, ZipError> {
    if eocd < ZIP64_LOCATOR_SIZE {
        Err(ZipError::Format { structure: Structure::Zip64Locator, offset: eocd })
    } else {
        Ok((eocd - ZIP64_LOCATOR_SIZE) as u64)
    }
}

/// Tells where the ZIP64 locator has to stand for the end-of-directory record
/// at `eocd`. Fails with a format error, which carries `eocd`, where the
/// record has no room for a locator in front of it.
pub fn locator_offset(eocd: u64) -> (r: Result<u64, ZipError>)
    ensures
        r == locator_offset_of(eocd),
{
    if eocd < ZIP64_LOCATOR_SIZE as u64 {
        Err(ZipError::Format { structure: Structure::Zip64Locator, offset: eocd })
    } else {
        Ok(eocd - ZIP64_LOCATOR_SIZE as u64)
    }
}

/// The offset that the ZIP64 locator names, given the 20 bytes in front of
/// the end-of-directory record: the 64-bit number at position 8, where the
/// bytes start with the locator's signature. There is no locator where they
/// do not, or where fewer than 20 bytes are given.
pub open spec fn locator_target(buf: Seq<u8>) -> Option<u64> {
    if buf.len() >= ZIP64_LOCATOR_SIZE && signature_at(buf, 0, ZIP64_EOCD_LOCATOR_SIGNATURE@) {
        Some(u64_at(buf, LOCATOR_TARGET_AT as int) as u64)
    } else {
        None
    }
}

/// Reads the ZIP64 locator from the 20 bytes in front of the end-of-directory
/// record: returns the offset of the ZIP64 end-of-directory record that it
/// names, or `None` where the bytes do not start with the locator's
/// signature.
pub fn parse_zip64_locator(buf: &[u8]) -> (r: Option<u64>)
    ensures
        r == locator_target(buf@),
{
    if buf.len() >= ZIP64_LOCATOR_SIZE && has_signature(buf, 0, &ZIP64_EOCD_LOCATOR_SIGNATURE) {
        Some(read_u64(buf, LOCATOR_TARGET_AT))
    } else {
        None
    }
}

/// What the ZIP64 end-of-directory record at `offset` says: the offset of the
/// central directory and the number of its entries, in this order.
pub open spec fn zip64_record(buf: Seq<u8>, offset: u64) -> Result<(u64, u64), ZipError> {
    if buf.len() < ZIP64_EOCD_SIZE || !signature_at(buf, 0, ZIP64_EOCD_SIGNATURE@) {
        Err(ZipError::Format { structure: Structure::Zip64EndOfDirectory, offset })
    } else {
        Ok(
            (
                u64_at(buf, ZIP64_DIRECTORY_AT as int) as u64,
                u64_at(buf, ZIP64_COUNT_AT as int) as u64,
            ),
        )
    }
}

/// Reads the ZIP64 end-of-directory record that was fetched from `offset`.
/// Fails with a format error where `buf` does not start with the record's
/// signature or is shorter than the record.
pub fn parse_zip64_record(buf: &[u8], offset: u64) -> (r: Result<(u64, u64), ZipError>)
    ensures
        r == zip64_record(buf@, offset),
{
    if buf.len() < ZIP64_EOCD_SIZE || !has_signature(buf, 0, &ZIP64_EOCD_SIGNATURE) {
        return Err(ZipError::Format { structure: Structure::Zip64EndOfDirectory, offset });
    }
    Ok((read_u64(buf, ZIP64_DIRECTORY_AT), read_u64(buf, ZIP64_COUNT_AT)))
}

/// Where the content of a member starts, given the 30 bytes of its local
/// header at `offset`: behind the header, the name and the extra field, whose
/// lengths the local header itself gives. The header must carry its signature
/// and say that the content is stored without compression. A start that no
/// 64-bit number holds becomes the largest offset, at which nothing is read.
pub open spec fn local_header(buf: Seq<u8>, offset: u64) -> Result<u64, ZipError> {
    let method = u16_at(buf, LOCAL_METHOD_AT as int) as u16;
    let start = offset + LOCAL_HEADER_SIZE + u16_at(buf, LOCAL_NAME_LEN_AT as int) + u16_at(
        buf,
        LOCAL_EXTRA_LEN_AT as int,
    );
    if buf.len() < LOCAL_HEADER_SIZE || !signature_at(buf, 0, LOCAL_FILE_HEADER_SIGNATURE@) {
        Err(ZipError::Format { structure: Structure::LocalHeader, offset })
    } else if method != COMPRESSION_STORED {
        Err(ZipError::UnsupportedCompression { method, declared_in: Structure::LocalHeader })
    } else {
        Ok(clipped(start))
    }
}

/// Reads the local header that was fetched from `offset` and returns the
/// offset at which the member's content starts.
pub fn parse_local_header(buf: &[u8], offset: u64) -> (r: Result<u64, ZipError>)
    ensures
        r == local_header(buf@, offset),
{
    if buf.len() < LOCAL_HEADER_SIZE || !has_signature(buf, 0, &LOCAL_FILE_HEADER_SIGNATURE) {
        return Err(ZipError::Format { structure: Structure::LocalHeader, offset });
    }
    let method = read_u16(buf, LOCAL_METHOD_AT);
    if method != COMPRESSION_STORED {
        return Err(
            ZipError::UnsupportedCompression { method, declared_in: Structure::LocalHeader },
        );
    }
    let name_len = read_u16(buf, LOCAL_NAME_LEN_AT) as u64;
    let extra_len = read_u16(buf, LOCAL_EXTRA_LEN_AT) as u64;
    Ok(offset.saturating_add(LOCAL_HEADER_SIZE as u64 + name_len + extra_len))
}

} // verus!
