//! An archive as a writer lays it down, and the proof that the readers read
//! it back. Everything here is specification: the library writes no archives.
//!
//! The writer puts the members one behind the other, each as a local header,
//! its name and its content; behind them one central directory record for
//! each member; and at the end the end-of-directory record, without a
//! comment. Nothing is compressed, no record has an extra field, and every
//! offset and size fits its 32-bit field.

use crate::archive::{listing, opening, search_floor, Outcome};
use crate::entry::EntryView;
use crate::laws::{
    directory_written_at, entries_of, lemma_content_read_back, lemma_end_record_read_back,
    lemma_listing_read_back, Recorded,
};
use crate::layout::{
    lemma_last_signature_found, lemma_window_is_subrange, signature_at, u16_at, u32_at, window,
    CENTRAL_DIR_HEADER_SIGNATURE, CENTRAL_HEADER_SIZE, COMPRESSION_STORED, EOCD_MIN_SIZE,
    EOCD_SIGNATURE, LOCAL_FILE_HEADER_SIGNATURE, LOCAL_HEADER_SIZE, ZIP64_SENTINEL,
};
use vstd::prelude::*;
use vstd::utf8::{encode_utf8, encode_utf8_decode_utf8, encode_utf8_valid_utf8};

verus! {

/// A member as it is handed to the writer: its name and its content.
pub ghost struct Member {
    pub name: Seq<char>,
    pub content: Seq<u8>,
}

/// Byte `k` of the little-endian form of `n`, for `k` from 0 to 3.
pub open spec fn le_byte(n: int, k: int) -> u8 {
    if k == 0 {
        (n % 0x100) as u8
    } else if k == 1 {
        (n / 0x100 % 0x100) as u8
    } else if k == 2 {
        (n / 0x1_0000 % 0x100) as u8
    } else {
        (n / 0x100_0000 % 0x100) as u8
    }
}

impl Member {
    /// The bytes of the name: its UTF-8 encoding.
    pub open spec fn name_bytes(self) -> Seq<u8> {
        encode_utf8(self.name)
    }

    /// The local header: the signature, method 0, the size twice, the length
    /// of the name, and zero in every other field.
    pub open spec fn local_header(self) -> Seq<u8> {
        Seq::new(
            LOCAL_HEADER_SIZE as nat,
            |i: int|
                if i < 4 {
                    LOCAL_FILE_HEADER_SIGNATURE@[i]
                } else if 18 <= i < 22 {
                    le_byte(self.content.len() as int, i - 18)
                } else if 22 <= i < 26 {
                    le_byte(self.content.len() as int, i - 22)
                } else if 26 <= i < 28 {
                    le_byte(self.name_bytes().len() as int, i - 26)
                } else {
                    0u8
                },
        )
    }

    /// What the writer puts down for the member itself: the local header,
    /// the name and the content.
    pub open spec fn local_part(self) -> Seq<u8> {
        self.local_header() + self.name_bytes() + self.content
    }

    /// The fixed part of the central directory record of a member whose
    /// local header is at `header_at`.
    pub open spec fn central_header(self, header_at: int) -> Seq<u8> {
        Seq::new(
            CENTRAL_HEADER_SIZE as nat,
            |i: int|
                if i < 4 {
                    CENTRAL_DIR_HEADER_SIGNATURE@[i]
                } else if 20 <= i < 24 {
                    le_byte(self.content.len() as int, i - 20)
                } else if 24 <= i < 28 {
                    le_byte(self.content.len() as int, i - 24)
                } else if 28 <= i < 30 {
                    le_byte(self.name_bytes().len() as int, i - 28)
                } else if 42 <= i < 46 {
                    le_byte(header_at, i - 42)
                } else {
                    0u8
                },
        )
    }

    /// The central directory record of the member: the fixed part and the
    /// name.
    pub open spec fn central_part(self, header_at: int) -> Seq<u8> {
        self.central_header(header_at) + self.name_bytes()
    }

    /// What the central directory record says of the member.
    pub open spec fn recorded(self, header_at: int) -> Recorded {
        Recorded {
            name: self.name_bytes(),
            size: self.content.len() as u32,
            header_at: header_at as u32,
            method: COMPRESSION_STORED,
            extra: Seq::empty(),
            comment_len: 0,
        }
    }

    /// The entry that a listing is to show for the member.
    pub open spec fn entry(self, header_at: int) -> EntryView {
        EntryView {
            name: self.name,
            uncompressed_size: self.content.len() as u64,
            offset: header_at as u64,
            compression_method: COMPRESSION_STORED,
        }
    }
}

/// The local parts of the first `upto` members, one behind the other.
pub open spec fn locals(members: Seq<Member>, upto: int) -> Seq<u8>
    decreases upto,
{
    if upto <= 0 {
        Seq::empty()
    } else {
        locals(members, upto - 1) + members[upto - 1].local_part()
    }
}

/// The offset of the local header of member `i`.
pub open spec fn header_at(members: Seq<Member>, i: int) -> int {
    locals(members, i).len() as int
}

/// The central directory records of the first `upto` members, one behind
/// the other.
pub open spec fn centrals(members: Seq<Member>, upto: int) -> Seq<u8>
    decreases upto,
{
    if upto <= 0 {
        Seq::empty()
    } else {
        centrals(members, upto - 1) + members[upto - 1].central_part(
            header_at(members, upto - 1),
        )
    }
}

/// The offset of the central directory in the archive of `members`: behind
/// the local parts of all of them.
pub open spec fn directory_at(members: Seq<Member>) -> int {
    locals(members, members.len() as int).len() as int
}

/// The offset of the central directory record of member `i`.
pub open spec fn record_at(members: Seq<Member>, i: int) -> int {
    directory_at(members) + centrals(members, i).len()
}

/// The end-of-directory record for `count` entries in a directory of
/// `directory_len` bytes at `directory_at`, without a comment.
pub open spec fn end_part(count: int, directory_len: int, directory_at: int) -> Seq<u8> {
    Seq::new(
        EOCD_MIN_SIZE as nat,
        |i: int|
            if i < 4 {
                EOCD_SIGNATURE@[i]
            } else if 8 <= i < 10 {
                le_byte(count, i - 8)
            } else if 10 <= i < 12 {
                le_byte(count, i - 10)
            } else if 12 <= i < 16 {
                le_byte(directory_len, i - 12)
            } else if 16 <= i < 20 {
                le_byte(directory_at, i - 16)
            } else {
                0u8
            },
    )
}

/// The end-of-directory record of the archive of `members`.
pub open spec fn end_of(members: Seq<Member>) -> Seq<u8> {
    end_part(
        members.len() as int,
        centrals(members, members.len() as int).len() as int,
        directory_at(members),
    )
}

/// The archive that the writer makes of `members`.
pub open spec fn archive_of(members: Seq<Member>) -> Seq<u8> {
    locals(members, members.len() as int) + centrals(members, members.len() as int) + end_of(
        members,
    )
}

/// The entries that a listing of the archive of `members` is to show.
pub open spec fn entries_written(members: Seq<Member>) -> Seq<EntryView> {
    Seq::new(members.len(), |i: int| members[i].entry(header_at(members, i)))
}

/// Whether the writer can put `members` into an archive without ZIP64
/// records: there are at most 65535 of them, no name is longer than 65535
/// bytes, and the offset and the size of the central directory fit their
/// 32-bit fields, the offset below the sentinel.
pub open spec fn writable(members: Seq<Member>) -> bool {
    &&& members.len() <= u16::MAX
    &&& forall|i: int|
        0 <= i < members.len() ==> (#[trigger] members[i]).name_bytes().len() <= u16::MAX
    &&& directory_at(members) < ZIP64_SENTINEL
    &&& centrals(members, members.len() as int).len() <= u32::MAX
}

/// Whether the end-of-directory record is the one place at the end of the
/// archive where its signature stands: the fields of the record do not spell
/// it out again.
pub open spec fn end_is_plain(members: Seq<Member>) -> bool {
    forall|k: int|
        1 <= k <= EOCD_MIN_SIZE - 4 ==> !signature_at(end_of(members), k, EOCD_SIGNATURE@)
}

/// Whether `src` holds the bytes of `part` at offset `at`.
pub open spec fn holds_at(src: Seq<u8>, at: int, part: Seq<u8>) -> bool {
    &&& 0 <= at
    &&& at + part.len() <= src.len()
    &&& forall|t: int| 0 <= t < part.len() ==> src[at + t] == #[trigger] part[t]
}

/// The little-endian bytes of a number make up the number.
pub proof fn lemma_le_bytes(n: int)
    requires
        0 <= n <= u32::MAX,
    ensures
        le_byte(n, 0) as int + 0x100 * (le_byte(n, 1) as int) + 0x1_0000 * (le_byte(n, 2) as int
            + 0x100 * (le_byte(n, 3) as int)) == n,
        n <= u16::MAX ==> le_byte(n, 0) as int + 0x100 * (le_byte(n, 1) as int) == n,
{
}

/// The local parts of more members start with the local parts of fewer.
pub proof fn lemma_locals_grow(members: Seq<Member>, i: int, j: int)
    requires
        0 <= i <= j,
    ensures
        locals(members, i).len() <= locals(members, j).len(),
        forall|t: int|
            0 <= t < locals(members, i).len() ==> locals(members, j)[t] == locals(members, i)[t],
    decreases j - i,
{
    if i < j {
        lemma_locals_grow(members, i, j - 1);
    }
}

/// The records of more members start with the records of fewer.
pub proof fn lemma_centrals_grow(members: Seq<Member>, i: int, j: int)
    requires
        0 <= i <= j,
    ensures
        centrals(members, i).len() <= centrals(members, j).len(),
        forall|t: int|
            0 <= t < centrals(members, i).len() ==> centrals(members, j)[t] == centrals(
                members,
                i,
            )[t],
    decreases j - i,
{
    if i < j {
        lemma_centrals_grow(members, i, j - 1);
    }
}

/// The archive holds the local part of each member at the member's offset.
pub proof fn lemma_holds_local(members: Seq<Member>, i: int)
    requires
        0 <= i < members.len(),
    ensures
        holds_at(archive_of(members), header_at(members, i), members[i].local_part()),
{
    let n = members.len() as int;
    lemma_locals_grow(members, i + 1, n);
    let part = members[i].local_part();
    let upto = locals(members, i + 1);
    assert(upto == locals(members, i) + part);
    assert forall|t: int| 0 <= t < part.len() implies archive_of(members)[header_at(members, i)
        + t] == #[trigger] part[t] by {
        assert(upto[header_at(members, i) + t] == part[t]);
    }
}

/// The archive holds the record of each member in the central directory,
/// behind the records of the members before it.
pub proof fn lemma_holds_central(members: Seq<Member>, i: int)
    requires
        0 <= i < members.len(),
    ensures
        holds_at(
            archive_of(members),
            record_at(members, i),
            members[i].central_part(header_at(members, i)),
        ),
{
    let n = members.len() as int;
    lemma_centrals_grow(members, i + 1, n);
    let part = members[i].central_part(header_at(members, i));
    let upto = centrals(members, i + 1);
    assert(upto == centrals(members, i) + part);
    assert forall|t: int| 0 <= t < part.len() implies archive_of(members)[record_at(members, i)
        + t] == #[trigger] part[t] by {
        assert(upto[centrals(members, i).len() + t] == part[t]);
    }
}

/// The archive ends with its end-of-directory record.
pub proof fn lemma_holds_end(members: Seq<Member>)
    ensures
        holds_at(
            archive_of(members),
            archive_of(members).len() - EOCD_MIN_SIZE,
            end_of(members),
        ),
        archive_of(members).len() == record_at(members, members.len() as int) + EOCD_MIN_SIZE,
{
}

/// What stands in a part stands in the source that holds it: the numbers,
/// the signatures and the windows of the part are those of the source at the
/// part's offset.
pub proof fn lemma_read_through(src: Seq<u8>, at: int, part: Seq<u8>, k: int)
    requires
        holds_at(src, at, part),
        0 <= k,
    ensures
        k + 2 <= part.len() ==> u16_at(src, at + k) == u16_at(part, k),
        k + 4 <= part.len() ==> u32_at(src, at + k) == u32_at(part, k),
        forall|sig: Seq<u8>|
            k + 4 <= part.len() ==> (#[trigger] signature_at(src, at + k, sig) <==> signature_at(
                part,
                k,
                sig,
            )),
        forall|n: int|
            0 <= n && k + n <= part.len() ==> #[trigger] window(src, at + k, n) == part.subrange(
                k,
                k + n,
            ),
{
    if k + 2 <= part.len() {
        assert(src[at + k] == part[k]);
        assert(src[at + k + 1] == part[k + 1]);
    }
    if k + 4 <= part.len() {
        assert(src[at + k + 2] == part[k + 2]);
        assert(src[at + k + 3] == part[k + 3]);
    }
    assert forall|n: int| 0 <= n && k + n <= part.len() implies #[trigger] window(src, at + k, n)
        == part.subrange(k, k + n) by {
        let inner = part.subrange(k, k + n);
        assert forall|t: int| 0 <= t < n implies window(src, at + k, n)[t]
            == #[trigger] inner[t] by {
            assert(src[at + (k + t)] == part[k + t]);
        }
        assert(window(src, at + k, n) =~= inner);
    }
}

/// The fields of a central directory record as the writer lays it down.
pub proof fn lemma_central_part(member: Member, header_at: int)
    requires
        member.name_bytes().len() <= u16::MAX,
        member.content.len() <= u32::MAX,
        0 <= header_at <= u32::MAX,
    ensures
        member.recorded(header_at).written_at(member.central_part(header_at), 0),
        member.central_part(header_at).len() == member.recorded(header_at).len(),
{
    let part = member.central_part(header_at);
    let name_len = member.name_bytes().len() as int;
    lemma_le_bytes(member.content.len() as int);
    lemma_le_bytes(name_len);
    lemma_le_bytes(header_at);
    lemma_le_bytes(0);
    assert(window(part, 46, name_len) =~= member.name_bytes());
    assert(window(part, 46 + name_len, 0) =~= Seq::<u8>::empty());
}

/// The fields of a local header as the writer lays it down, and the content
/// behind the header and the name.
pub proof fn lemma_local_part(member: Member)
    requires
        member.name_bytes().len() <= u16::MAX,
    ensures
        signature_at(member.local_part(), 0, LOCAL_FILE_HEADER_SIGNATURE@),
        u16_at(member.local_part(), 8) == COMPRESSION_STORED,
        u16_at(member.local_part(), 26) == member.name_bytes().len(),
        u16_at(member.local_part(), 28) == 0,
        member.local_part().len() == LOCAL_HEADER_SIZE + member.name_bytes().len()
            + member.content.len(),
        member.local_part().subrange(
            LOCAL_HEADER_SIZE + member.name_bytes().len(),
            member.local_part().len() as int,
        ) == member.content,
{
    let part = member.local_part();
    let name_len = member.name_bytes().len() as int;
    lemma_le_bytes(name_len);
    lemma_le_bytes(0);
    assert(part.subrange(30 + name_len, part.len() as int) =~= member.content);
}

/// The fields of the end-of-directory record as the writer lays it down.
pub proof fn lemma_end_part(count: int, directory_len: int, directory_at: int)
    requires
        0 <= count <= u16::MAX,
        0 <= directory_at <= u32::MAX,
    ensures
        signature_at(end_part(count, directory_len, directory_at), 0, EOCD_SIGNATURE@),
        u16_at(end_part(count, directory_len, directory_at), 10) == count,
        u32_at(end_part(count, directory_len, directory_at), 16) == directory_at,
{
    lemma_le_bytes(count);
    lemma_le_bytes(directory_at);
}

/// What the writer records of each member, in the order of the members.
pub open spec fn records_of(members: Seq<Member>) -> Seq<Recorded> {
    Seq::new(members.len(), |i: int| members[i].recorded(header_at(members, i)))
}

/// In a writable archive every member lies in front of the central
/// directory, so that its offset and its size fit their 32-bit fields.
pub proof fn lemma_member_fits(members: Seq<Member>, i: int)
    requires
        writable(members),
        0 <= i < members.len(),
    ensures
        0 <= header_at(members, i),
        header_at(members, i) + LOCAL_HEADER_SIZE + members[i].name_bytes().len()
            + members[i].content.len() <= directory_at(members),
        record_at(members, i) + CENTRAL_HEADER_SIZE + members[i].name_bytes().len() == record_at(
            members,
            i + 1,
        ),
        record_at(members, i + 1) <= record_at(members, members.len() as int),
{
    lemma_locals_grow(members, i + 1, members.len() as int);
    lemma_centrals_grow(members, i + 1, members.len() as int);
    assert(locals(members, i + 1) == locals(members, i) + members[i].local_part());
    assert(centrals(members, i + 1) == centrals(members, i) + members[i].central_part(
        header_at(members, i),
    ));
}

/// The archive holds, for each member, the central directory record that
/// says what was written, and a listing shows the member as it was handed
/// to the writer.
pub proof fn lemma_member_recorded(members: Seq<Member>, i: int)
    requires
        writable(members),
        0 <= i < members.len(),
    ensures
        members[i].recorded(header_at(members, i)).written_at(
            archive_of(members),
            record_at(members, i),
        ),
        members[i].recorded(header_at(members, i)).entry() == members[i].entry(
            header_at(members, i),
        ),
        record_at(members, i) + members[i].recorded(header_at(members, i)).len() == record_at(
            members,
            i + 1,
        ),
{
    let member = members[i];
    let at = record_at(members, i);
    let header_at = header_at(members, i);
    let src = archive_of(members);
    let part = member.central_part(header_at);
    let name_len = member.name_bytes().len() as int;
    lemma_member_fits(members, i);
    lemma_holds_central(members, i);
    lemma_central_part(member, header_at);
    lemma_read_through(src, at, part, 0);
    lemma_read_through(src, at, part, 10);
    lemma_read_through(src, at, part, 24);
    lemma_read_through(src, at, part, 28);
    lemma_read_through(src, at, part, 30);
    lemma_read_through(src, at, part, 32);
    lemma_read_through(src, at, part, 42);
    lemma_read_through(src, at, part, 46);
    lemma_read_through(src, at, part, 46 + name_len);
    assert(signature_at(src, at + 0, CENTRAL_DIR_HEADER_SIGNATURE@));
    assert(window(src, at + 46, name_len) == part.subrange(46, 46 + name_len));
    assert(part.subrange(46, 46 + name_len) =~= window(part, 46, name_len));
    assert(window(src, at + (46 + name_len), 0) =~= Seq::<u8>::empty());
    encode_utf8_valid_utf8(member.name);
    encode_utf8_decode_utf8(member.name);
}

/// The archive holds the records of the members from `k` on, one behind the
/// other, beginning with that of member `k`.
pub proof fn lemma_directory_written(members: Seq<Member>, k: int)
    requires
        writable(members),
        0 <= k <= members.len(),
    ensures
        directory_written_at(
            records_of(members).skip(k),
            archive_of(members),
            record_at(members, k),
        ),
    decreases members.len() - k,
{
    if k < members.len() {
        let records = records_of(members).skip(k);
        lemma_member_recorded(members, k);
        lemma_directory_written(members, k + 1);
        assert(records[0] == members[k].recorded(header_at(members, k)));
        assert(records.drop_first() =~= records_of(members).skip(k + 1));
    }
}

/// Round trip of the listing: the archive that the writer makes of `members`
/// lists as many entries as there are members, in their order, each with the
/// name that was given, the size of the content that was given, and the
/// offset at which the writer put the member.
pub proof fn lemma_archive_lists_members(members: Seq<Member>)
    requires
        writable(members),
        end_is_plain(members),
    ensures
        listing(archive_of(members)) == Outcome::Done(entries_written(members)),
        entries_written(members).len() == members.len(),
{
    let src = archive_of(members);
    let n = members.len() as int;
    let eocd = src.len() - EOCD_MIN_SIZE;
    let end = end_of(members);
    lemma_holds_end(members);
    lemma_end_part(n, centrals(members, n).len() as int, directory_at(members));
    lemma_read_through(src, eocd, end, 0);
    lemma_read_through(src, eocd, end, 10);
    lemma_read_through(src, eocd, end, 16);
    assert(signature_at(src, eocd + 0, EOCD_SIGNATURE@));
    assert forall|q: int| eocd < q < src.len() implies !signature_at(src, q, EOCD_SIGNATURE@) by {
        if q + 4 <= src.len() {
            lemma_read_through(src, eocd, end, q - eocd);
            assert(!signature_at(src, eocd + (q - eocd), EOCD_SIGNATURE@));
        }
    }
    lemma_last_signature_found(
        src,
        EOCD_SIGNATURE@,
        search_floor(src.len() as int),
        src.len() as int,
        eocd,
    );
    lemma_end_record_read_back(src, eocd, n as u16, directory_at(members) as u32);
    lemma_directory_written(members, 0);
    assert(records_of(members).skip(0) =~= records_of(members));
    lemma_listing_read_back(records_of(members), src, directory_at(members) as u64, n as u64);
    assert forall|i: int| 0 <= i < n implies entries_of(records_of(members))[i]
        == entries_written(members)[i] by {
        lemma_member_recorded(members, i);
    }
    assert(entries_of(records_of(members)) =~= entries_written(members));
}

/// Round trip of the content: in the archive that the writer makes of
/// `members`, opening the entry of a member finds the start of its content,
/// and the bytes that a read of the whole member returns are the content
/// that was given.
pub proof fn lemma_archive_returns_content(members: Seq<Member>, i: int)
    requires
        writable(members),
        0 <= i < members.len(),
    ensures
        opening(archive_of(members), entries_written(members)[i]) == Outcome::Done(
            (header_at(members, i) + LOCAL_HEADER_SIZE + members[i].name_bytes().len()) as u64,
        ),
        window(
            archive_of(members),
            header_at(members, i) + LOCAL_HEADER_SIZE + members[i].name_bytes().len(),
            members[i].content.len() as int,
        ) == members[i].content,
{
    let member = members[i];
    let at = header_at(members, i);
    let src = archive_of(members);
    let part = member.local_part();
    let name_len = member.name_bytes().len() as int;
    let size = member.content.len() as int;
    lemma_member_fits(members, i);
    lemma_holds_local(members, i);
    lemma_local_part(member);
    lemma_read_through(src, at, part, 0);
    lemma_read_through(src, at, part, 8);
    lemma_read_through(src, at, part, 26);
    lemma_read_through(src, at, part, 28);
    lemma_read_through(src, at, part, 30 + name_len);
    assert(signature_at(src, at + 0, LOCAL_FILE_HEADER_SIGNATURE@));
    assert(window(src, at + (30 + name_len), size) == part.subrange(
        30 + name_len,
        30 + name_len + size,
    ));
    lemma_window_is_subrange(src, at + 30 + name_len, size);
    lemma_content_read_back(
        src,
        entries_written(members)[i],
        name_len as u16,
        0,
        member.content,
    );
}

} // verus!
