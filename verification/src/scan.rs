//! The search for the end-of-directory record, as a sequence of steps that
//! read nothing themselves: each step names the bytes that it wants, and
//! takes them as an argument.
//!
//! The record lies at the end of the source, in front of a comment of at most
//! 65535 bytes. The search goes backward from the end of the source in
//! windows of 8192 bytes. Each window ends three bytes into the one that was
//! read before it, so that a signature which lies across the edge of a window
//! lies within its neighbour as a whole.

use crate::archive::search_floor;
use crate::layout::{
    clipped, last_signature, lemma_last_signature, lemma_last_signature_absent,
    lemma_last_signature_found, lemma_window_signature, rfind_signature, signature_at, window,
    EOCD_MIN_SIZE, EOCD_SIGNATURE, MAX_COMMENT_SIZE, SCAN_OVERLAP, SCAN_WINDOW,
};
use vstd::prelude::*;

verus! {

/// How far the search has come: the bytes from `floor` to `end` are still to
/// be looked at.
#[derive(Clone, Copy, Debug, PartialEq, Eq, Structural)]
pub struct EndScan {
    /// The lowest offset at which the record is looked for.
    pub floor: u64,
    /// The end of the window that is read next.
    pub end: u64,
}

impl EndScan {
    /// The window that is read next, as its offset and its length: the last
    /// 8192 bytes in front of `end`, or what lies between `floor` and `end`
    /// where that is less. `None` where nothing is left to read.
    pub open spec fn next_window(self) -> Option<(u64, usize)> {
        if self.end <= self.floor {
            None
        } else if self.end - self.floor > SCAN_WINDOW {
            Some(((self.end - SCAN_WINDOW) as u64, SCAN_WINDOW))
        } else {
            Some((self.floor, (self.end - self.floor) as usize))
        }
    }

    /// The search after a window in which the signature does not stand: the
    /// next window ends three bytes into this one, and nothing is left where
    /// this one started at the floor.
    pub open spec fn after_window(self) -> EndScan {
        match self.next_window() {
            None => self,
            Some((start, _)) => EndScan {
                floor: self.floor,
                end: if start == self.floor {
                    self.floor
                } else {
                    (start + SCAN_OVERLAP) as u64
                },
            },
        }
    }

    /// The offset in the source of the right-most signature in `chunk`, the
    /// bytes of the next window.
    pub open spec fn found_in(self, chunk: Seq<u8>) -> Option<u64> {
        match (self.next_window(), last_signature(chunk, EOCD_SIGNATURE@, 0, chunk.len() as int)) {
            (Some((start, _)), Some(i)) => Some(clipped(start + i)),
            _ => None,
        }
    }

    /// Whether the signature stands nowhere in `src` from the floor on that
    /// the search has looked at: at no offset whose four bytes reach `end` or
    /// lie behind it.
    pub open spec fn nothing_behind(self, src: Seq<u8>) -> bool {
        forall|q: int|
            self.floor <= q && q + 4 > self.end ==> !signature_at(src, q, EOCD_SIGNATURE@)
    }

    /// Starts the search in a source of `size` bytes.
    pub fn new(size: u64) -> (scan: EndScan)
        ensures
            scan.end == size,
            scan.floor == search_floor(size as int),
    {
        let reach = (MAX_COMMENT_SIZE + EOCD_MIN_SIZE) as u64;
        EndScan {
            floor: if size > reach {
                size - reach
            } else {
                0
            },
            end: size,
        }
    }

    /// Names the window to read next, as its offset and its length, or `None`
    /// where the search has reached the floor.
    pub fn window(&self) -> (w: Option<(u64, usize)>)
        ensures
            w == self.next_window(),
    {
        if self.end <= self.floor {
            return None;
        }
        let left = self.end - self.floor;
        if left > SCAN_WINDOW as u64 {
            Some((self.end - SCAN_WINDOW as u64, SCAN_WINDOW))
        } else {
            Some((self.floor, left as usize))
        }
    }

    /// Looks for the signature in the bytes of the window that `window`
    /// named. Returns the offset in the source of its right-most occurrence
    /// there.
    pub fn locate(&self, chunk: &[u8]) -> (at: Option<u64>)
        ensures
            at == self.found_in(chunk@),
    {
        match (self.window(), rfind_signature(chunk, &EOCD_SIGNATURE)) {
            (Some((start, _)), Some(i)) => Some(start.saturating_add(i as u64)),
            _ => None,
        }
    }

    /// Moves on to the next window, after one in which the signature does not
    /// stand.
    pub fn advance(self) -> (next: EndScan)
        ensures
            next == self.after_window(),
    {
        match self.window() {
            None => self,
            Some((start, _)) => EndScan {
                floor: self.floor,
                end: if start == self.floor {
                    self.floor
                } else {
                    start + SCAN_OVERLAP as u64
                },
            },
        }
    }
}

/// At its start the search has passed no signature.
pub proof fn lemma_scan_starts(src: Seq<u8>, scan: EndScan)
    requires
        scan.end == src.len(),
    ensures
        scan.nothing_behind(src),
{
}

/// A signature found in a window is the last one in the source.
pub proof fn lemma_scan_finds_last(src: Seq<u8>, scan: EndScan, chunk: Seq<u8>, at: u64)
    requires
        scan.end <= src.len(),
        scan.nothing_behind(src),
        scan.next_window() matches Some((start, len)) && chunk == window(
            src,
            start as int,
            len as int,
        ),
        scan.found_in(chunk) == Some(at),
    ensures
        last_signature(src, EOCD_SIGNATURE@, scan.floor as int, src.len() as int) == Some(
            at as int,
        ),
{
    if let Some((start, len)) = scan.next_window() {
        lemma_last_signature(chunk, EOCD_SIGNATURE@, 0, len as int);
        assert forall|i: int|
            signature_at(chunk, i, EOCD_SIGNATURE@) <==> 0 <= i && i + 4 <= len && signature_at(
                src,
                start + i,
                EOCD_SIGNATURE@,
            ) by {
            lemma_window_signature(src, start as int, len as int, i, EOCD_SIGNATURE@);
        }
        assert forall|q: int| at < q < src.len() implies !signature_at(src, q, EOCD_SIGNATURE@) by {
            if q + 4 <= scan.end {
                assert(!signature_at(chunk, q - start, EOCD_SIGNATURE@));
            }
        }
        lemma_last_signature_found(
            src,
            EOCD_SIGNATURE@,
            scan.floor as int,
            src.len() as int,
            at as int,
        );
    }
}

/// A window without a signature leaves the search with none behind it, and
/// with less to read.
pub proof fn lemma_scan_moves_on(src: Seq<u8>, scan: EndScan, chunk: Seq<u8>)
    requires
        scan.end <= src.len(),
        scan.nothing_behind(src),
        scan.next_window() matches Some((start, len)) && chunk == window(
            src,
            start as int,
            len as int,
        ),
        scan.found_in(chunk) is None,
    ensures
        scan.after_window().nothing_behind(src),
        scan.after_window().floor == scan.floor,
        scan.floor <= scan.after_window().end < scan.end,
{
    if let Some((start, len)) = scan.next_window() {
        lemma_last_signature(chunk, EOCD_SIGNATURE@, 0, len as int);
        assert forall|q: int|
            scan.floor <= q && q + 4 > scan.after_window().end implies !signature_at(
            src,
            q,
            EOCD_SIGNATURE@,
        ) by {
            if q + 4 <= scan.end {
                lemma_window_signature(src, start as int, len as int, q - start, EOCD_SIGNATURE@);
                assert(!signature_at(chunk, q - start, EOCD_SIGNATURE@));
            }
        }
    }
}

/// A search that has reached the floor has found that the source holds no
/// signature from the floor on.
pub proof fn lemma_scan_ends(src: Seq<u8>, scan: EndScan)
    requires
        scan.nothing_behind(src),
        scan.next_window() is None,
    ensures
        last_signature(src, EOCD_SIGNATURE@, scan.floor as int, src.len() as int) is None,
{
    lemma_last_signature_absent(src, EOCD_SIGNATURE@, scan.floor as int, src.len() as int);
}

} // verus!
