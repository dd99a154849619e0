//! The byte layout of a ZIP archive: signatures, sizes and field positions of
//! its records, little-endian integers, and the search for a signature.

use vstd::prelude::*;

verus! {

/// Signature of a local file header (the number 0x04034b50, little-endian).
pub const LOCAL_FILE_HEADER_SIGNATURE: [u8; 4] = [0x50, 0x4B, 0x03, 0x04];

/// Signature of a central directory record (0x02014b50).
pub const CENTRAL_DIR_HEADER_SIGNATURE: [u8; 4] = [0x50, 0x4B, 0x01, 0x02];

/// Signature of the end-of-directory record (0x06054b50).
pub const EOCD_SIGNATURE: [u8; 4] = [0x50, 0x4B, 0x05, 0x06];

/// Signature of the ZIP64 end-of-directory record (0x06064b50).
pub const ZIP64_EOCD_SIGNATURE: [u8; 4] = [0x50, 0x4B, 0x06, 0x06];

/// Signature of the ZIP64 end-of-directory locator (0x07064b50).
pub const ZIP64_EOCD_LOCATOR_SIGNATURE: [u8; 4] = [0x50, 0x4B, 0x06, 0x07];

/// Compression method of a member whose content is stored byte for byte.
pub const COMPRESSION_STORED: u16 = 0;

/// Value of a 32-bit size or offset field that stands for "see the ZIP64 field".
pub const ZIP64_SENTINEL: u32 = 0xFFFF_FFFF;

/// Tag of the extra sub-field that holds the ZIP64 sizes and offsets.
pub const ZIP64_EXTRA_TAG: u16 = 0x0001;

/// Size of the fixed part of a local file header.
pub const LOCAL_HEADER_SIZE: usize = 30;

/// Size of the fixed part of a central directory record.
pub const CENTRAL_HEADER_SIZE: usize = 46;

/// Size of the end-of-directory record without its comment.
pub const EOCD_MIN_SIZE: usize = 22;

/// Longest comment that can follow the end-of-directory record.
pub const MAX_COMMENT_SIZE: usize = 65535;

/// Size of the ZIP64 end-of-directory locator.
pub const ZIP64_LOCATOR_SIZE: usize = 20;

/// Size of the ZIP64 end-of-directory record as far as it is read.
pub const ZIP64_EOCD_SIZE: usize = 56;

/// Number of bytes read at a time while looking for the end-of-directory record.
pub const SCAN_WINDOW: usize = 8192;

/// Number of bytes that two successive windows of that search share: one less
/// than a signature is long, so that no signature falls between two windows.
pub const SCAN_OVERLAP: usize = 3;

/// The 16-bit little-endian number at position `i` of `s`.
pub open spec fn u16_at(s: Seq<u8>, i: int) -> int {
    s[i] as int + 0x100 * (s[i + 1] as int)
}

/// The 32-bit little-endian number at position `i` of `s`.
pub open spec fn u32_at(s: Seq<u8>, i: int) -> int {
    u16_at(s, i) + 0x1_0000 * u16_at(s, i + 2)
}

/// The 64-bit little-endian number at position `i` of `s`.
pub open spec fn u64_at(s: Seq<u8>, i: int) -> int {
    u32_at(s, i) + 0x1_0000_0000 * u32_at(s, i + 4)
}

/// The offset `x`, or the largest offset where `x` exceeds it. No source holds
/// a byte at the largest offset, so nothing is read there that is not read at
/// `x`.
pub open spec fn clipped(x: int) -> u64 {
    if x > u64::MAX {
        u64::MAX
    } else {
        x as u64
    }
}

/// The `len` bytes of `src` from position `start` on. Where the range leaves
/// `src` the bytes are arbitrary; an empty range is empty wherever it lies.
pub open spec fn window(src: Seq<u8>, start: int, len: int) -> Seq<u8> {
    Seq::new(len as nat, |i: int| src[start + i])
}

/// Whether the four bytes of `sig` stand in `s` at position `i`.
pub open spec fn signature_at(s: Seq<u8>, i: int, sig: Seq<u8>) -> bool {
    &&& 0 <= i
    &&& i + 4 <= s.len()
    &&& s[i] == sig[0]
    &&& s[i + 1] == sig[1]
    &&& s[i + 2] == sig[2]
    &&& s[i + 3] == sig[3]
}

/// The greatest position `p` with `lo <= p < hi` at which `sig` stands in `s`,
/// if there is one.
pub open spec fn last_signature(s: Seq<u8>, sig: Seq<u8>, lo: int, hi: int) -> Option<int>
    decreases hi - lo,
{
    if hi <= lo {
        None
    } else if signature_at(s, hi - 1, sig) {
        Some(hi - 1)
    } else {
        last_signature(s, sig, lo, hi - 1)
    }
}

/// `last_signature` finds a position in range that holds the signature and
/// has none to its right, or nothing where the range holds none.
pub proof fn lemma_last_signature(s: Seq<u8>, sig: Seq<u8>, lo: int, hi: int)
    ensures
        match last_signature(s, sig, lo, hi) {
            Some(p) => {
                &&& lo <= p < hi
                &&& signature_at(s, p, sig)
                &&& forall|q: int| p < q < hi ==> !signature_at(s, q, sig)
            },
            None => forall|q: int| lo <= q < hi ==> !signature_at(s, q, sig),
        },
    decreases hi - lo,
{
    if hi > lo && !signature_at(s, hi - 1, sig) {
        lemma_last_signature(s, sig, lo, hi - 1);
    }
}

/// A position that holds the signature and has none to its right, up to `hi`,
/// is the one that `last_signature` finds.
pub proof fn lemma_last_signature_found(s: Seq<u8>, sig: Seq<u8>, lo: int, hi: int, p: int)
    requires
        lo <= p < hi,
        signature_at(s, p, sig),
        forall|q: int| p < q < hi ==> !signature_at(s, q, sig),
    ensures
        last_signature(s, sig, lo, hi) == Some(p),
    decreases hi - lo,
{
    if p != hi - 1 {
        lemma_last_signature_found(s, sig, lo, hi - 1, p);
    }
}

/// Where no position of the range holds the signature, `last_signature` finds
/// nothing.
pub proof fn lemma_last_signature_absent(s: Seq<u8>, sig: Seq<u8>, lo: int, hi: int)
    requires
        forall|q: int| lo <= q < hi ==> !signature_at(s, q, sig),
    ensures
        last_signature(s, sig, lo, hi) is None,
    decreases hi - lo,
{
    if hi > lo {
        lemma_last_signature_absent(s, sig, lo, hi - 1);
    }
}

/// A window that lies within its source is a subrange of it.
pub proof fn lemma_window_is_subrange(src: Seq<u8>, start: int, len: int)
    requires
        0 <= start,
        0 <= len,
        start + len <= src.len(),
    ensures
        window(src, start, len) == src.subrange(start, start + len),
{
    assert(window(src, start, len) =~= src.subrange(start, start + len));
}

/// The numbers and signatures of a window are those of its source, moved by
/// the window's start.
pub proof fn lemma_window_fields(src: Seq<u8>, start: int, len: int, i: int)
    requires
        0 <= i,
        0 <= len,
    ensures
        i + 2 <= len ==> u16_at(window(src, start, len), i) == u16_at(src, start + i),
        i + 4 <= len ==> u32_at(window(src, start, len), i) == u32_at(src, start + i),
        i + 8 <= len ==> u64_at(window(src, start, len), i) == u64_at(src, start + i),
{
}

/// A signature stands in a window that lies within its source where it stands
/// in the source, moved by the window's start.
pub proof fn lemma_window_signature(src: Seq<u8>, start: int, len: int, i: int, sig: Seq<u8>)
    requires
        0 <= start,
        0 <= len,
        start + len <= src.len(),
    ensures
        signature_at(window(src, start, len), i, sig) <==> 0 <= i && i + 4 <= len && signature_at(
            src,
            start + i,
            sig,
        ),
{
}

/// Reads the 16-bit little-endian number at position `at` of `buf`.
pub fn read_u16(buf: &[u8], at: usize) -> (v: u16)
    requires
        at + 2 <= buf@.len(),
    ensures
        v == u16_at(buf@, at as int),
{
    buf[at] as u16 + 0x100 * (buf[at + 1] as u16)
}

/// Reads the 32-bit little-endian number at position `at` of `buf`.
pub fn read_u32(buf: &[u8], at: usize) -> (v: u32)
    requires
        at + 4 <= buf@.len(),
    ensures
        v == u32_at(buf@, at as int),
{
    assert(buf@.len() == buf.len());
    read_u16(buf, at) as u32 + 0x1_0000 * (read_u16(buf, at + 2) as u32)
}

/// Reads the 64-bit little-endian number at position `at` of `buf`.
pub fn read_u64(buf: &[u8], at: usize) -> (v: u64)
    requires
        at + 8 <= buf@.len(),
    ensures
        v == u64_at(buf@, at as int),
{
    assert(buf@.len() == buf.len());
    read_u32(buf, at) as u64 + 0x1_0000_0000 * (read_u32(buf, at + 4) as u64)
}

/// Tells whether `sig` stands in `buf` at position `at`.
pub fn has_signature(buf: &[u8], at: usize, sig: &[u8; 4]) -> (b: bool)
    requires
        at + 4 <= buf@.len(),
    ensures
        b == signature_at(buf@, at as int, sig@),
{
    buf[at] == sig[0] && buf[at + 1] == sig[1] && buf[at + 2] == sig[2] && buf[at + 3] == sig[3]
}

/// Looks for `sig` in `buf` from the highest position down and returns the
/// first position at which it stands: the right-most occurrence.
pub fn rfind_signature(buf: &[u8], sig: &[u8; 4]) -> (found: Option<usize>)
    ensures
        match found {
            Some(i) => last_signature(buf@, sig@, 0, buf@.len() as int) == Some(i as int),
            None => last_signature(buf@, sig@, 0, buf@.len() as int) is None,
        },
{
    let n = buf.len();
    if n < 4 {
        proof {
            lemma_last_signature_absent(buf@, sig@, 0, n as int);
        }
        return None;
    }
    let mut i: usize = n - 3;
    while i > 0
        invariant
            n == buf@.len(),
            n >= 4,
            i <= n - 3,
            forall|q: int| i <= q < n ==> !signature_at(buf@, q, sig@),
        decreases i,
    {
        i -= 1;
        if has_signature(buf, i, sig) {
            proof {
                lemma_last_signature_found(buf@, sig@, 0, n as int, i as int);
            }
            return Some(i);
        }
    }
    proof {
        lemma_last_signature_absent(buf@, sig@, 0, n as int);
    }
    None
}

} // verus!
