//! The reader of an archive and the reader of one of its members.

use crate::archive::{
    after, central_record, data_start, directory, end_record, entries, listing, opening,
    search_floor, zip64_directory, Outcome,
};
use crate::content::ContentRange;
use crate::entry::{entry_views, EntryView, ZipEntry};
use crate::error::{Structure, ZipError};
use crate::io::{fetch, ZipIO};
use crate::layout::{
    clipped, lemma_window_fields, read_u16, read_u32, window, CENTRAL_HEADER_SIZE,
    LOCAL_HEADER_SIZE, ZIP64_EOCD_SIZE, ZIP64_LOCATOR_SIZE,
};
use crate::records::{
    legacy_directory, locator_offset, parse_central_header, parse_local_header, parse_zip64_locator,
    parse_zip64_record, EOCD_COUNT_AT, EOCD_DIRECTORY_AT,
};
use crate::scan::{
    lemma_scan_ends, lemma_scan_finds_last, lemma_scan_moves_on, lemma_scan_starts, EndScan,
};
use crate::select::{
    answers_of, first_named, found_view, picked_by, select_entries, take_first_named,
};
use vstd::prelude::*;

verus! {

/// The result of reading a central directory record, the entry by its view.
pub open spec fn record_result(r: Result<(ZipEntry, u64), ZipError>) -> Result<
    (EntryView, u64),
    ZipError,
> {
    match r {
        Ok((entry, next)) => Ok((entry@, next)),
        Err(e) => Err(e),
    }
}

/// The result of a listing, the entries by their views.
pub open spec fn listing_result(r: Result<Vec<ZipEntry>, ZipError>) -> Result<
    Seq<EntryView>,
    ZipError,
> {
    match r {
        Ok(list) => Ok(entry_views(list@)),
        Err(e) => Err(e),
    }
}

/// The result of a search by name, the entry by its view.
pub open spec fn search_result(r: Result<Option<ZipEntry>, ZipError>) -> Result<
    Option<EntryView>,
    ZipError,
> {
    match r {
        Ok(found) => Ok(found_view(found)),
        Err(e) => Err(e),
    }
}

/// The first entry of the archive whose name is `name`, if it has one.
pub open spec fn entry_named(src: Seq<u8>, name: Seq<char>) -> Outcome<Option<EntryView>> {
    match listing(src) {
        Outcome::Done(list) => Outcome::Done(first_named(list, name)),
        Outcome::Fails(e) => Outcome::Fails(e),
        Outcome::PastEnd => Outcome::PastEnd,
    }
}

/// The result of opening an entry, the reader by the offset of the content
/// that it reads. The reader's source and size are not part of it: the
/// contract of `open_entry` states them in a clause of their own.
pub open spec fn opening_result<I: ZipIO>(r: Result<ZipFileReader<I>, ZipError>) -> Result<
    u64,
    ZipError,
> {
    match r {
        Ok(file) => Ok(file.data_offset()),
        Err(e) => Err(e),
    }
}

/// Reader of the content of one member of an archive: of the `size` bytes
/// that start at `data_offset` in the byte source. It holds none of them;
/// every read goes to the source.
pub struct ZipFileReader<I: ZipIO> {
    io: I,
    range: ContentRange,
}

impl<I: ZipIO> ZipFileReader<I> {
    /// The byte source that the content is read from.
    pub closed spec fn source(&self) -> I {
        self.io
    }

    /// The offset in the byte source at which the content starts.
    pub closed spec fn data_offset(&self) -> u64 {
        self.range.start()
    }

    /// The size of the content in bytes.
    pub closed spec fn content_size(&self) -> u64 {
        self.range.len()
    }

    /// The size of the member's content in bytes.
    #[verifier::when_used_as_spec(content_size)]
    pub fn size(&self) -> (n: u64)
        ensures
            n == self.content_size(),
    {
        self.range.size()
    }

    /// Fills `buf` with the bytes of the content from `offset` on. Fails with
    /// an out-of-bounds error, and reads nothing, where the range reaches past
    /// the end of the content, and only there; otherwise the read goes to the
    /// byte source, at `data_offset + offset`, and an error of the source is
    /// handed on unchanged. Where that sum is more than any offset, the read
    /// goes to the largest offset, where the source has nothing to give.
    pub fn read_at(&self, offset: u64, buf: &mut [u8]) -> (r: Result<(), ZipError>)
        ensures
            final(buf)@.len() == old(buf)@.len(),
            r matches Err(ZipError::OutOfBounds) <==> offset + old(buf)@.len() > self.size(),
            offset + old(buf)@.len() > self.size() ==> final(buf)@ == old(buf)@,
            r is Ok ==> final(buf)@ == window(
                self.source().bytes(),
                clipped(self.data_offset() + offset) as int,
                old(buf)@.len() as int,
            ),
            r is Ok && old(buf)@.len() > 0 ==> self.data_offset() + offset + old(buf)@.len()
                <= self.source().bytes().len(),
            r matches Err(e) ==> e is OutOfBounds || e is Io,
            self.source().dependable() ==> (r is Ok <==> offset + old(buf)@.len() <= self.size()
                && clipped(self.data_offset() + offset) + old(buf)@.len()
                <= self.source().bytes().len()),
    {
        proof {
            self.io.lemma_addressable();
        }
        let at = self.range.locate(offset, buf.len())?;
        match self.io.read_at(at, buf) {
            Ok(()) => Ok(()),
            Err(e) => Err(ZipError::Io(e)),
        }
    }

    /// Reads the whole content into a new buffer: a read of `size` bytes at
    /// offset 0, with the same outcome. Fails with an out-of-bounds error,
    /// and reads nothing, where no buffer can be that long: a buffer holds at
    /// most `isize::MAX` bytes.
    pub fn read_all(&self) -> (r: Result<Vec<u8>, ZipError>)
        ensures
            match r {
                Ok(content) => {
                    &&& content@ == window(
                        self.source().bytes(),
                        self.data_offset() as int,
                        self.size() as int,
                    )
                    &&& self.size() > 0 ==> self.data_offset() + self.size()
                        <= self.source().bytes().len()
                },
                Err(e) => e is OutOfBounds || e is Io,
            },
            r matches Err(ZipError::OutOfBounds) <==> self.size() > isize::MAX,
            self.source().dependable() ==> (r is Ok <==> self.size() <= isize::MAX
                && self.data_offset() + self.size() <= self.source().bytes().len()),
    {
        let size = self.range.size();
        if size > isize::MAX as u64 {
            return Err(ZipError::OutOfBounds);
        }
        let mut content = vec![0u8; size as usize];
        match self.read_at(0, content.as_mut_slice()) {
            Ok(()) => Ok(content),
            Err(e) => Err(e),
        }
    }
}

/// Reader of a ZIP archive that lies in a byte source.
pub struct ZipReader<I: ZipIO> {
    io: I,
}

impl<I: ZipIO> ZipReader<I> {
    /// The byte source that the archive is read from.
    pub closed spec fn source(&self) -> I {
        self.io
    }

    /// Makes a reader of the archive in `io`. Nothing is read yet.
    pub fn new(io: I) -> (reader: Self)
        ensures
            reader.source() == io,
    {
        Self { io }
    }

    /// Reads the central directory record at `offset`: returns its entry and
    /// the offset of the record that follows.
    pub fn read_central_directory_entry(&self, offset: u64) -> (r: Result<
        (ZipEntry, u64),
        ZipError,
    >)
        ensures
            central_record(self.source().bytes(), offset).allows(record_result(r)),
            self.source().dependable() ==> central_record(self.source().bytes(), offset).describes(
                record_result(r),
            ),
    {
        proof {
            self.io.lemma_addressable();
        }
        let fixed = fetch(&self.io, offset, CENTRAL_HEADER_SIZE)?;
        let header = parse_central_header(fixed.as_slice(), offset)?;
        let name = fetch(&self.io, header.name_at(offset), header.name_len as usize)?;
        let extra = fetch(&self.io, header.extra_at(offset), header.extra_len as usize)?;
        Ok((header.entry(name.as_slice(), extra.as_slice()), header.next_at(offset)))
    }

    /// Reads the ZIP64 records that belong to the end-of-directory record at
    /// `eocd_offset`: returns the offset of the central directory and the
    /// number of its entries. The locator must be the 20 bytes in front of
    /// the end-of-directory record, and the ZIP64 end-of-directory record
    /// must stand at the offset that the locator names. An end-of-directory
    /// record with fewer than 20 bytes in front of it is refused with a
    /// format error before anything is read.
    pub fn read_zip64_eocd(&self, eocd_offset: u64) -> (r: Result<(u64, u64), ZipError>)
        ensures
            zip64_directory(self.source().bytes(), eocd_offset).allows(r),
            self.source().dependable() ==> zip64_directory(
                self.source().bytes(),
                eocd_offset,
            ).describes(r),
            eocd_offset < ZIP64_LOCATOR_SIZE ==> r == Err::<(u64, u64), ZipError>(
                ZipError::Format { structure: Structure::Zip64Locator, offset: eocd_offset },
            ),
    {
        let before = fetch(&self.io, locator_offset(eocd_offset)?, ZIP64_LOCATOR_SIZE)?;
        match parse_zip64_locator(before.as_slice()) {
            None => Err(ZipError::NotFound { structure: Structure::Zip64Locator }),
            Some(at) => {
                let record = fetch(&self.io, at, ZIP64_EOCD_SIZE)?;
                parse_zip64_record(record.as_slice(), at)
            },
        }
    }

    /// Finds the end-of-directory record: returns its offset and its 16-bit
    /// entry count. The last 65557 bytes of the source are searched from the
    /// end, 8192 bytes at a time; each window ends three bytes into the one
    /// read before it, and the search ends in the first window that holds the
    /// signature, at its right-most occurrence there. What is found is the
    /// right-most occurrence of the signature in those 65557 bytes.
    pub fn find_eocd(&self) -> (r: Result<(u64, u16), ZipError>)
        ensures
            end_record(self.source().bytes()).allows(r),
            self.source().dependable() ==> end_record(self.source().bytes()).describes(r),
    {
        let size = match self.io.size() {
            Ok(n) => n,
            Err(e) => {
                return Err(ZipError::Io(e));
            },
        };
        let ghost src = self.io.bytes();
        let mut scan = EndScan::new(size);
        proof {
            lemma_scan_starts(src, scan);
        }
        loop
            invariant
                src == self.source().bytes(),
                size == src.len(),
                scan.floor == search_floor(src.len() as int),
                scan.end <= src.len(),
                scan.nothing_behind(src),
            decreases scan.end - scan.floor,
        {
            match scan.window() {
                None => {
                    proof {
                        lemma_scan_ends(src, scan);
                    }
                    return Err(ZipError::NotFound { structure: Structure::EndOfDirectory });
                },
                Some((start, len)) => {
                    let chunk = fetch(&self.io, start, len)?;
                    match scan.locate(chunk.as_slice()) {
                        Some(at) => {
                            proof {
                                lemma_scan_finds_last(src, scan, chunk@, at);
                                lemma_window_fields(src, at + EOCD_COUNT_AT, 2, 0);
                            }
                            let field = fetch(
                                &self.io,
                                at.saturating_add(EOCD_COUNT_AT as u64),
                                2,
                            )?;
                            return Ok((at, read_u16(field.as_slice(), 0)));
                        },
                        None => {
                            proof {
                                lemma_scan_moves_on(src, scan, chunk@);
                            }
                            scan = scan.advance();
                        },
                    }
                },
            }
        }
    }

    /// Finds the central directory: returns its offset and the number of its
    /// entries. Both come from the end-of-directory record, unless its 32-bit
    /// offset is the sentinel: then both come from the ZIP64 records.
    pub fn get_central_directory_info(&self) -> (r: Result<(u64, u64), ZipError>)
        ensures
            directory(self.source().bytes()).allows(r),
            self.source().dependable() ==> directory(self.source().bytes()).describes(r),
    {
        proof {
            self.io.lemma_addressable();
        }
        let (eocd_offset, count) = self.find_eocd()?;
        let field = fetch(&self.io, eocd_offset.saturating_add(EOCD_DIRECTORY_AT as u64), 4)?;
        proof {
            lemma_window_fields(self.source().bytes(), eocd_offset + EOCD_DIRECTORY_AT, 4, 0);
        }
        match legacy_directory(read_u32(field.as_slice(), 0), count) {
            Some(found) => Ok(found),
            None => self.read_zip64_eocd(eocd_offset),
        }
    }

    /// Reads the local header of `entry` and returns the offset at which the
    /// content of the member starts. Fails where the local header lacks its
    /// signature, or says that the content is compressed, whatever the
    /// central directory said.
    pub fn get_data_offset(&self, entry: &ZipEntry) -> (r: Result<u64, ZipError>)
        ensures
            data_start(self.source().bytes(), entry.offset).allows(r),
            self.source().dependable() ==> data_start(
                self.source().bytes(),
                entry.offset,
            ).describes(r),
    {
        let header = fetch(&self.io, entry.offset, LOCAL_HEADER_SIZE)?;
        parse_local_header(header.as_slice(), entry.offset)
    }

    /// Lists the entries of the archive, in the order of its central
    /// directory. Every call reads the directory anew.
    pub fn list_entries(&self) -> (r: Result<Vec<ZipEntry>, ZipError>)
        ensures
            listing(self.source().bytes()).allows(listing_result(r)),
            self.source().dependable() ==> listing(self.source().bytes()).describes(
                listing_result(r),
            ),
    {
        let (start, count) = self.get_central_directory_info()?;
        let ghost src = self.io.bytes();
        let mut list: Vec<ZipEntry> = Vec::new();
        let mut offset = start;
        let mut i: u64 = 0;
        while i < count
            invariant
                src == self.source().bytes(),
                directory(src) == Outcome::Done((start, count)),
                i <= count,
                entries(src, start, count as nat) == after(
                    entry_views(list@),
                    entries(src, offset, (count - i) as nat),
                ),
            decreases count - i,
        {
            let (entry, next) = self.read_central_directory_entry(offset)?;
            proof {
                let rest = entries(src, next, (count - i - 1) as nat);
                assert(entry_views(list@.push(entry)) =~= entry_views(list@) + seq![entry@]);
                if let Outcome::Done(tail) = rest {
                    assert(entry_views(list@) + (seq![entry@] + tail) =~= (entry_views(list@)
                        + seq![entry@]) + tail);
                }
            }
            list.push(entry);
            offset = next;
            i += 1;
        }
        proof {
            assert(entry_views(list@) + Seq::<EntryView>::empty() =~= entry_views(list@));
        }
        Ok(list)
    }

    /// Lists the archive and returns the first entry whose name is `name`,
    /// letter for letter, or `None` where no entry has that name.
    pub fn find_entry(&self, name: &str) -> (r: Result<Option<ZipEntry>, ZipError>)
        ensures
            entry_named(self.source().bytes(), name@).allows(search_result(r)),
            self.source().dependable() ==> entry_named(self.source().bytes(), name@).describes(
                search_result(r),
            ),
    {
        let list = self.list_entries()?;
        Ok(take_first_named(list, name))
    }

    /// Lists the archive and returns the entries for which `predicate`
    /// answers `true`, in the order of the central directory.
    pub fn find_entries<F>(&self, predicate: F) -> (r: Result<Vec<ZipEntry>, ZipError>) where
        F: Fn(&ZipEntry) -> bool,

        requires
            forall|entry: ZipEntry| call_requires(predicate, (&entry,)),
        ensures
            r matches Ok(picked) ==> exists|all: Seq<ZipEntry>, keep: Seq<bool>|
                listing(self.source().bytes()) == Outcome::Done(entry_views(all))
                    && #[trigger] answers_of(predicate, all, keep) && picked@ == picked_by(
                    all,
                    keep,
                ),
            r matches Err(e) ==> listing(self.source().bytes()).allows(
                Err::<Seq<EntryView>, ZipError>(e),
            ),
            r matches Err(e) ==> (self.source().dependable() ==> listing(
                self.source().bytes(),
            ).describes(Err::<Seq<EntryView>, ZipError>(e))),
    {
        let list = self.list_entries()?;
        Ok(select_entries(list, predicate))
    }

    /// Opens `entry` for reading: finds where its content starts. An entry
    /// that the central directory calls compressed is refused at once, with
    /// nothing read; one whose local header calls it compressed is refused
    /// too.
    /// The size that the entry declares is taken as it is: it bounds the
    /// reads of the reader, and is held against the source only by them.
    pub fn open_entry<'a>(&'a self, entry: &ZipEntry) -> (r: Result<ZipFileReader<&'a I>, ZipError>)
        ensures
            opening(self.source().bytes(), entry@).allows(opening_result(r)),
            self.source().dependable() ==> opening(self.source().bytes(), entry@).describes(
                opening_result(r),
            ),
            !entry.is_stored() ==> (r matches Err(
                ZipError::UnsupportedCompression { method, declared_in },
            ) && method == entry.compression_method && declared_in == Structure::CentralRecord),
            r matches Ok(file) ==> file.source() == &self.source() && file.size()
                == entry.uncompressed_size,
    {
        entry.require_stored()?;
        let data_offset = self.get_data_offset(entry)?;
        Ok(
            ZipFileReader {
                io: &self.io,
                range: ContentRange::new(data_offset, entry.uncompressed_size),
            },
        )
    }
}

} // verus!
