//! Consequences of the description of an archive in [`crate::archive`]. The
//! readers' contracts say that their results are what that description
//! finds; the laws here say what it finds in an archive that holds given
//! members, and in one that is damaged.

use crate::archive::{
    central_record, directory, end_record, entries, listing, opening, search_floor, zip64_directory,
    Outcome,
};
use crate::entry::{name_text, EntryView};
use crate::error::{Structure, ZipError};
use crate::layout::{
    last_signature, lemma_last_signature, lemma_window_fields, lemma_window_is_subrange,
    lemma_window_signature, signature_at, u16_at, u32_at, u64_at, window,
    CENTRAL_DIR_HEADER_SIGNATURE, CENTRAL_HEADER_SIZE, COMPRESSION_STORED, EOCD_MIN_SIZE,
    EOCD_SIGNATURE, LOCAL_FILE_HEADER_SIGNATURE, LOCAL_HEADER_SIZE, ZIP64_EOCD_LOCATOR_SIGNATURE,
    ZIP64_EOCD_SIGNATURE, ZIP64_EOCD_SIZE, ZIP64_LOCATOR_SIZE, ZIP64_SENTINEL,
};
use crate::records::{
    central_header, zip64_overlay, CENTRAL_COMMENT_LEN_AT, CENTRAL_EXTRA_LEN_AT, CENTRAL_METHOD_AT,
    CENTRAL_NAME_LEN_AT, CENTRAL_OFFSET_AT, CENTRAL_SIZE_AT, EOCD_COUNT_AT, EOCD_DIRECTORY_AT,
    LOCAL_EXTRA_LEN_AT, LOCAL_METHOD_AT, LOCAL_NAME_LEN_AT, LOCATOR_TARGET_AT, ZIP64_COUNT_AT,
    ZIP64_DIRECTORY_AT,
};
use vstd::prelude::*;

verus! {

/// What the writer of an archive put into one record of the central
/// directory.
pub ghost struct Recorded {
    /// The bytes of the member's name.
    pub name: Seq<u8>,
    /// The 32-bit size field.
    pub size: u32,
    /// The 32-bit field for the offset of the local header.
    pub header_at: u32,
    /// The compression method.
    pub method: u16,
    /// The bytes of the extra field.
    pub extra: Seq<u8>,
    /// The length of the comment.
    pub comment_len: u16,
}

impl Recorded {
    /// The number of bytes that the record takes in the archive.
    pub open spec fn len(self) -> int {
        CENTRAL_HEADER_SIZE + self.name.len() + self.extra.len() + self.comment_len
    }

    /// The entry that a listing shows for the record.
    pub open spec fn entry(self) -> EntryView {
        let resolved = zip64_overlay(self.extra, self.size, self.header_at);
        EntryView {
            name: name_text(self.name),
            uncompressed_size: resolved.0,
            offset: resolved.1,
            compression_method: self.method,
        }
    }

    /// Whether `src` holds the record at offset `at`: its signature, its
    /// fields at their positions, and behind them the name and the extra
    /// field, with room for the comment.
    pub open spec fn written_at(self, src: Seq<u8>, at: int) -> bool {
        &&& 0 <= at
        &&& at + self.len() <= src.len()
        &&& self.name.len() <= u16::MAX
        &&& self.extra.len() <= u16::MAX
        &&& signature_at(src, at, CENTRAL_DIR_HEADER_SIGNATURE@)
        &&& u16_at(src, at + CENTRAL_METHOD_AT) == self.method
        &&& u32_at(src, at + CENTRAL_SIZE_AT) == self.size
        &&& u16_at(src, at + CENTRAL_NAME_LEN_AT) == self.name.len()
        &&& u16_at(src, at + CENTRAL_EXTRA_LEN_AT) == self.extra.len()
        &&& u16_at(src, at + CENTRAL_COMMENT_LEN_AT) == self.comment_len
        &&& u32_at(src, at + CENTRAL_OFFSET_AT) == self.header_at
        &&& window(src, at + CENTRAL_HEADER_SIZE, self.name.len() as int) == self.name
        &&& window(src, at + CENTRAL_HEADER_SIZE + self.name.len(), self.extra.len() as int)
            == self.extra
    }
}

/// Whether `src` holds `records` one behind the other, the first at `at`.
pub open spec fn directory_written_at(records: Seq<Recorded>, src: Seq<u8>, at: int) -> bool
    decreases records.len(),
{
    records.len() > 0 ==> {
        &&& records[0].written_at(src, at)
        &&& directory_written_at(records.drop_first(), src, at + records[0].len())
    }
}

/// The entries that a listing shows for `records`, in their order.
pub open spec fn entries_of(records: Seq<Recorded>) -> Seq<EntryView> {
    Seq::new(records.len(), |i: int| records[i].entry())
}

/// The offset of the record that `skipped` records precede, in a walk of the
/// central directory that starts at `offset`; `None` where one of those
/// cannot be read.
pub open spec fn record_offset(src: Seq<u8>, offset: u64, skipped: nat) -> Option<u64>
    decreases skipped,
{
    if skipped == 0 {
        Some(offset)
    } else {
        match central_record(src, offset) {
            Outcome::Done((_, next)) => record_offset(src, next, (skipped - 1) as nat),
            _ => None,
        }
    }
}

/// A record that lies in the source is read as the entry that was written.
pub proof fn lemma_record_read_back(record: Recorded, src: Seq<u8>, at: u64)
    requires
        src.len() <= u64::MAX,
        record.written_at(src, at as int),
    ensures
        central_record(src, at) == Outcome::Done((record.entry(), (at + record.len()) as u64)),
{
    let fixed = window(src, at as int, CENTRAL_HEADER_SIZE as int);
    lemma_window_signature(
        src,
        at as int,
        CENTRAL_HEADER_SIZE as int,
        0,
        CENTRAL_DIR_HEADER_SIGNATURE@,
    );
    lemma_window_fields(src, at as int, CENTRAL_HEADER_SIZE as int, CENTRAL_METHOD_AT as int);
    lemma_window_fields(src, at as int, CENTRAL_HEADER_SIZE as int, CENTRAL_SIZE_AT as int);
    lemma_window_fields(src, at as int, CENTRAL_HEADER_SIZE as int, CENTRAL_NAME_LEN_AT as int);
    lemma_window_fields(src, at as int, CENTRAL_HEADER_SIZE as int, CENTRAL_EXTRA_LEN_AT as int);
    lemma_window_fields(src, at as int, CENTRAL_HEADER_SIZE as int, CENTRAL_COMMENT_LEN_AT as int);
    lemma_window_fields(src, at as int, CENTRAL_HEADER_SIZE as int, CENTRAL_OFFSET_AT as int);
    assert(central_header(fixed, at) is Ok);
}

/// Listing law, for the records: a walk over records that lie in the source
/// one behind the other yields the entries that were written, as many and in
/// the same order.
pub proof fn lemma_directory_read_back(records: Seq<Recorded>, src: Seq<u8>, at: u64)
    requires
        src.len() <= u64::MAX,
        directory_written_at(records, src, at as int),
    ensures
        entries(src, at, records.len()) == Outcome::Done(entries_of(records)),
    decreases records.len(),
{
    if records.len() == 0 {
        assert(entries_of(records) =~= Seq::<EntryView>::empty());
    } else {
        let first = records[0];
        let rest = records.drop_first();
        lemma_record_read_back(first, src, at);
        let next = (at + first.len()) as u64;
        lemma_directory_read_back(rest, src, next);
        assert(seq![first.entry()] + entries_of(rest) =~= entries_of(records));
    }
}

/// Listing law: an archive with N members lists as N entries, in the order
/// of its central directory, with the names, sizes and offsets that were
/// written.
///
/// The archive is any source that holds the N records one behind the other,
/// and whose end-of-directory record, or its ZIP64 records, give N and the
/// offset of the first of them.
pub proof fn lemma_listing_read_back(
    records: Seq<Recorded>,
    src: Seq<u8>,
    start: u64,
    count: u64,
)
    requires
        src.len() <= u64::MAX,
        directory(src) == Outcome::Done((start, count)),
        count == records.len(),
        directory_written_at(records, src, start as int),
    ensures
        listing(src) == Outcome::Done(entries_of(records)),
        entries_of(records).len() == records.len(),
{
    lemma_directory_read_back(records, src, start);
}

/// The directory of an archive without ZIP64 records is what its
/// end-of-directory record says: the record is the last place in the source
/// where its signature stands, it lies within the last 65557 bytes, and its
/// 32-bit offset is not the sentinel.
pub proof fn lemma_end_record_read_back(src: Seq<u8>, eocd: int, count: u16, start: u32)
    requires
        src.len() <= u64::MAX,
        start != ZIP64_SENTINEL,
        last_signature(src, EOCD_SIGNATURE@, search_floor(src.len() as int), src.len() as int)
            == Some(eocd),
        eocd + EOCD_MIN_SIZE <= src.len(),
        u16_at(src, eocd + EOCD_COUNT_AT) == count,
        u32_at(src, eocd + EOCD_DIRECTORY_AT) == start,
    ensures
        end_record(src) == Outcome::Done((eocd as u64, count)),
        directory(src) == Outcome::Done((start as u64, count as u64)),
{
    lemma_last_signature(
        src,
        EOCD_SIGNATURE@,
        search_floor(src.len() as int),
        src.len() as int,
    );
}

/// Content law: the content of a stored member is read back byte for byte.
///
/// Where the source holds, at the offset that `entry` gives, a local header
/// for a stored member with a name of `name_len` bytes and an extra field of
/// `extra_len` bytes, and behind them `content`, opening the entry finds the
/// start of `content`, and the bytes that a read of the whole member returns
/// are `content`.
pub proof fn lemma_content_read_back(
    src: Seq<u8>,
    entry: EntryView,
    name_len: u16,
    extra_len: u16,
    content: Seq<u8>,
)
    requires
        src.len() <= u64::MAX,
        entry.compression_method == COMPRESSION_STORED,
        entry.uncompressed_size == content.len(),
        signature_at(src, entry.offset as int, LOCAL_FILE_HEADER_SIGNATURE@),
        u16_at(src, entry.offset + LOCAL_METHOD_AT) == COMPRESSION_STORED,
        u16_at(src, entry.offset + LOCAL_NAME_LEN_AT) == name_len,
        u16_at(src, entry.offset + LOCAL_EXTRA_LEN_AT) == extra_len,
        entry.offset + LOCAL_HEADER_SIZE + name_len + extra_len + content.len() <= src.len(),
        src.subrange(
            entry.offset + LOCAL_HEADER_SIZE + name_len + extra_len,
            entry.offset + LOCAL_HEADER_SIZE + name_len + extra_len + content.len(),
        ) == content,
    ensures
        opening(src, entry) == Outcome::Done(
            (entry.offset + LOCAL_HEADER_SIZE + name_len + extra_len) as u64,
        ),
        window(
            src,
            entry.offset + LOCAL_HEADER_SIZE + name_len + extra_len,
            entry.uncompressed_size as int,
        ) == content,
{
    let at = entry.offset as int;
    lemma_window_signature(src, at, LOCAL_HEADER_SIZE as int, 0, LOCAL_FILE_HEADER_SIGNATURE@);
    lemma_window_fields(src, at, LOCAL_HEADER_SIZE as int, LOCAL_METHOD_AT as int);
    lemma_window_fields(src, at, LOCAL_HEADER_SIZE as int, LOCAL_NAME_LEN_AT as int);
    lemma_window_fields(src, at, LOCAL_HEADER_SIZE as int, LOCAL_EXTRA_LEN_AT as int);
    lemma_window_is_subrange(
        src,
        at + LOCAL_HEADER_SIZE + name_len + extra_len,
        content.len() as int,
    );
}

/// What the ZIP64 records of the end-of-directory record at `eocd` yield, in
/// terms of the bytes of the source. The locator is the 20 bytes in front of
/// the record, and names the offset `at` by its 64-bit field at position 8.
///
/// - Where those bytes do not start with the locator's signature, the
///   locator is missing, wherever else in them the signature may stand.
/// - Where the source has the 56 bytes at `at` and they do not start with the
///   signature of the ZIP64 end-of-directory record, that record is
///   malformed, whatever stands elsewhere in the source.
/// - Where they do, the directory is at the offset and has the count that
///   the two 64-bit fields of that record give, all 64 bits of each.
pub proof fn lemma_zip64_records_read_back(src: Seq<u8>, eocd: u64)
    requires
        ZIP64_LOCATOR_SIZE <= eocd <= src.len(),
    ensures
        !signature_at(src, eocd - ZIP64_LOCATOR_SIZE, ZIP64_EOCD_LOCATOR_SIGNATURE@)
            ==> zip64_directory(src, eocd) == Outcome::<(u64, u64)>::Fails(
            ZipError::NotFound { structure: Structure::Zip64Locator },
        ),
        ({
            let at = u64_at(src, eocd - ZIP64_LOCATOR_SIZE + LOCATOR_TARGET_AT) as u64;
            signature_at(src, eocd - ZIP64_LOCATOR_SIZE, ZIP64_EOCD_LOCATOR_SIGNATURE@) && at
                + ZIP64_EOCD_SIZE <= src.len() ==> zip64_directory(src, eocd) == (if signature_at(
                src,
                at as int,
                ZIP64_EOCD_SIGNATURE@,
            ) {
                Outcome::Done(
                    (
                        u64_at(src, at + ZIP64_DIRECTORY_AT) as u64,
                        u64_at(src, at + ZIP64_COUNT_AT) as u64,
                    ),
                )
            } else {
                Outcome::Fails(
                    ZipError::Format { structure: Structure::Zip64EndOfDirectory, offset: at },
                )
            })
        }),
        ({
            let at = u64_at(src, eocd - ZIP64_LOCATOR_SIZE + LOCATOR_TARGET_AT) as u64;
            signature_at(src, eocd - ZIP64_LOCATOR_SIZE, ZIP64_EOCD_LOCATOR_SIGNATURE@) && at
                + ZIP64_EOCD_SIZE > src.len() ==> zip64_directory(src, eocd) == Outcome::<
                (u64, u64),
            >::PastEnd
        }),
{
    let start = eocd - ZIP64_LOCATOR_SIZE;
    let at = u64_at(src, start + LOCATOR_TARGET_AT) as u64;
    lemma_window_signature(
        src,
        start,
        ZIP64_LOCATOR_SIZE as int,
        0,
        ZIP64_EOCD_LOCATOR_SIGNATURE@,
    );
    lemma_window_fields(src, start, ZIP64_LOCATOR_SIZE as int, LOCATOR_TARGET_AT as int);
    if at + ZIP64_EOCD_SIZE <= src.len() {
        lemma_window_signature(src, at as int, ZIP64_EOCD_SIZE as int, 0, ZIP64_EOCD_SIGNATURE@);
        lemma_window_fields(src, at as int, ZIP64_EOCD_SIZE as int, ZIP64_DIRECTORY_AT as int);
        lemma_window_fields(src, at as int, ZIP64_EOCD_SIZE as int, ZIP64_COUNT_AT as int);
    }
}

/// ZIP64 law: where the end-of-directory record gives the sentinel as the
/// offset of the central directory, the directory is what the ZIP64 records
/// say. With the locator in front of the end-of-directory record and the
/// ZIP64 end-of-directory record where the locator names it, the offset and
/// the count are the two 64-bit fields of that record; neither the 32-bit
/// offset nor the 16-bit count of the end-of-directory record has a part in
/// them, whatever the count holds.
pub proof fn lemma_sentinel_selects_zip64(src: Seq<u8>, eocd: u64, count: u16)
    requires
        end_record(src) == Outcome::Done((eocd, count)),
        eocd + EOCD_DIRECTORY_AT + 4 <= src.len(),
        u32_at(src, eocd + EOCD_DIRECTORY_AT) == ZIP64_SENTINEL,
    ensures
        directory(src) == zip64_directory(src, eocd),
        ({
            let at = u64_at(src, eocd - ZIP64_LOCATOR_SIZE + LOCATOR_TARGET_AT) as u64;
            eocd >= ZIP64_LOCATOR_SIZE && signature_at(
                src,
                eocd - ZIP64_LOCATOR_SIZE,
                ZIP64_EOCD_LOCATOR_SIGNATURE@,
            ) && at + ZIP64_EOCD_SIZE <= src.len() && signature_at(
                src,
                at as int,
                ZIP64_EOCD_SIGNATURE@,
            ) ==> directory(src) == Outcome::Done(
                (
                    u64_at(src, at + ZIP64_DIRECTORY_AT) as u64,
                    u64_at(src, at + ZIP64_COUNT_AT) as u64,
                ),
            )
        }),
{
    if eocd >= ZIP64_LOCATOR_SIZE {
        lemma_zip64_records_read_back(src, eocd);
    }
}

/// A walk that reaches a record without its signature fails there.
pub proof fn lemma_walk_stops_at_bad_record(
    src: Seq<u8>,
    start: u64,
    count: nat,
    skipped: nat,
    at: u64,
)
    requires
        skipped < count,
        record_offset(src, start, skipped) == Some(at),
        at + CENTRAL_HEADER_SIZE <= src.len(),
        !signature_at(src, at as int, CENTRAL_DIR_HEADER_SIGNATURE@),
    ensures
        entries(src, start, count) == Outcome::<Seq<EntryView>>::Fails(
            ZipError::Format { structure: Structure::CentralRecord, offset: at },
        ),
    decreases skipped,
{
    if skipped == 0 {
        lemma_window_signature(
            src,
            at as int,
            CENTRAL_HEADER_SIZE as int,
            0,
            CENTRAL_DIR_HEADER_SIGNATURE@,
        );
    } else {
        match central_record(src, start) {
            Outcome::Done((_, next)) => {
                lemma_walk_stops_at_bad_record(
                    src,
                    next,
                    (count - 1) as nat,
                    (skipped - 1) as nat,
                    at,
                );
            },
            _ => {},
        }
    }
}

/// Damage law: where a record of the central directory has lost its
/// signature, the listing fails with a format error that names the offset of
/// that record. The records in front of it do not make up a shorter listing,
/// and those behind it are not looked for.
pub proof fn lemma_bad_record_fails_listing(src: Seq<u8>, skipped: nat, at: u64)
    requires
        directory(src) matches Outcome::Done((start, count)) && skipped < count && record_offset(
            src,
            start,
            skipped,
        ) == Some(at),
        at + CENTRAL_HEADER_SIZE <= src.len(),
        !signature_at(src, at as int, CENTRAL_DIR_HEADER_SIGNATURE@),
    ensures
        listing(src) == Outcome::<Seq<EntryView>>::Fails(
            ZipError::Format { structure: Structure::CentralRecord, offset: at },
        ),
{
    if let Outcome::Done((start, count)) = directory(src) {
        lemma_walk_stops_at_bad_record(src, start, count as nat, skipped, at);
    }
}

} // verus!
