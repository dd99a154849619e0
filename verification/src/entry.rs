//! The entries of an archive's directory.

use crate::error::{Structure, ZipError};
use crate::layout::COMPRESSION_STORED;
use vstd::prelude::*;
use vstd::utf8::*;

verus! {

/// One member of an archive, as the central directory records it.
#[derive(Debug, Clone)]
pub struct ZipEntry {
    /// Name (path) of the member within the archive. A name that ends in `/`
    /// marks a directory.
    pub name: String,
    /// Size of the member's content in bytes.
    pub uncompressed_size: u64,
    /// Offset of the member's local header in the archive: not of its content.
    pub offset: u64,
    /// Compression method (0 = stored without compression).
    pub compression_method: u16,
}

/// What an entry is to the contracts: its fields, the name as the sequence of
/// its characters.
pub ghost struct EntryView {
    pub name: Seq<char>,
    pub uncompressed_size: u64,
    pub offset: u64,
    pub compression_method: u16,
}

impl View for ZipEntry {
    type V = EntryView;

    open spec fn view(&self) -> EntryView {
        EntryView {
            name: self.name@,
            uncompressed_size: self.uncompressed_size,
            offset: self.offset,
            compression_method: self.compression_method,
        }
    }
}

/// The views of a sequence of entries, in the same order.
pub open spec fn entry_views(entries: Seq<ZipEntry>) -> Seq<EntryView> {
    Seq::new(entries.len(), |i: int| entries[i]@)
}

/// Whether a name is that of a directory: it ends in `/`.
pub open spec fn names_directory(name: Seq<char>) -> bool {
    name.len() > 0 && name.last() == '/'
}

/// The text that `String::from_utf8_lossy` makes of `bytes`: the characters
/// that the bytes encode in UTF-8, with U+FFFD in place of what is not UTF-8.
pub uninterp spec fn lossy_utf8(bytes: Seq<u8>) -> Seq<char>;

/// The text of a name that the archive holds as `bytes`: the characters that
/// the bytes encode where they are valid UTF-8, and what is made of them by
/// substitution where they are not.
pub open spec fn name_text(bytes: Seq<u8>) -> Seq<char> {
    if valid_utf8(bytes) {
        decode_utf8(bytes)
    } else {
        lossy_utf8(bytes)
    }
}

/// `String::from_utf8_lossy`, with the result copied into a `String`: decodes
/// the bytes of a name as text and never fails. The result is the text that
/// `lossy_utf8` names; for bytes that are valid UTF-8 it is the text that they
/// encode.
#[verifier::external_body]
pub(crate) fn decode_name(bytes: &[u8]) -> (name: String)
    ensures
        name@ == lossy_utf8(bytes@),
        valid_utf8(bytes@) ==> name@ == decode_utf8(bytes@),
{
    String::from_utf8_lossy(bytes).into_owned()
}

/// The last byte of a scalar's encoding is the byte of `/` only for `/`.
proof fn lemma_scalar_ends_in_slash(c: u32)
    by (bit_vector)
    requires
        c <= 0x10FFFF,
    ensures
        c <= 0x7F ==> ((c & 0x7F) as u8 == 0x2Fu8 <==> c == 0x2F),
        (0x80u8 | (c & 0x3F) as u8) != 0x2Fu8,
{
}

/// A text ends in `/` just when its UTF-8 encoding ends in the byte 0x2F.
pub proof fn lemma_encoded_directory_name(name: Seq<char>)
    ensures
        encode_utf8(name).len() > 0 <==> name.len() > 0,
        name.len() > 0 ==> (encode_utf8(name).last() == 0x2Fu8 <==> name.last() == '/'),
    decreases name.len(),
{
    if name.len() > 0 {
        let c = name[0] as u32;
        let rest = name.drop_first();
        char_is_scalar(name[0]);
        lemma_scalar_ends_in_slash(c);
        lemma_encoded_directory_name(rest);
        let head = encode_scalar(c);
        let tail = encode_utf8(rest);
        assert(encode_utf8(name) == head + tail);
        if rest.len() == 0 {
            assert(tail.len() == 0);
            assert(head + tail =~= head);
            assert('/' as u32 == 0x2F);
            char_u32_cast(name[0], c);
            char_u32_cast('/', 0x2F);
            assert((name[0] == '/') <==> (c == 0x2F));
        } else {
            assert((head + tail).last() == tail.last());
            assert(name.last() == rest.last());
        }
    }
}

impl ZipEntry {
    /// Tells whether this entry marks a directory: whether its name ends in `/`.
    pub fn is_dir(&self) -> (b: bool)
        ensures
            b == names_directory(self.name@),
    {
        let bytes = self.name.as_str().as_bytes();
        let n = bytes.len();
        proof {
            lemma_encoded_directory_name(self.name@);
        }
        n > 0 && bytes[n - 1] == 0x2F
    }

    /// Whether the content of this entry is stored without compression.
    pub open spec fn stored(&self) -> bool {
        self.compression_method == COMPRESSION_STORED
    }

    /// What becomes of an attempt to open this entry, as far as the entry
    /// itself decides: nothing yet where it is stored, and a refusal where
    /// the central directory calls it compressed.
    pub open spec fn admission(&self) -> Result<(), ZipError> {
        if self.compression_method == COMPRESSION_STORED {
            Ok(())
        } else {
            Err(
                ZipError::UnsupportedCompression {
                    method: self.compression_method,
                    declared_in: Structure::CentralRecord,
                },
            )
        }
    }

    /// Refuses an entry that the central directory calls compressed, with an
    /// unsupported-compression error that carries its method.
    pub fn require_stored(&self) -> (r: Result<(), ZipError>)
        ensures
            r == self.admission(),
    {
        if self.is_stored() {
            Ok(())
        } else {
            Err(
                ZipError::UnsupportedCompression {
                    method: self.compression_method,
                    declared_in: Structure::CentralRecord,
                },
            )
        }
    }

    /// Tells whether the content of this entry is stored without compression.
    #[verifier::when_used_as_spec(stored)]
    pub fn is_stored(&self) -> (b: bool)
        ensures
            b == self.stored(),
    {
        self.compression_method == COMPRESSION_STORED
    }
}

} // verus!
