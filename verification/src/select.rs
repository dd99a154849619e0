//! Choosing among the entries of a listing: by name, or by a predicate.

use crate::entry::{entry_views, EntryView, ZipEntry};
use vstd::prelude::*;
use vstd::string::StringSliceAdditionalSpecFns;
use vstd::utf8::encode_utf8_decode_utf8;

verus! {

/// The position, at or after `from`, of the first of `entries` whose name is
/// `name`.
pub open spec fn position_of(entries: Seq<EntryView>, name: Seq<char>, from: int) -> Option<int>
    decreases entries.len() - from,
{
    if from < 0 || from >= entries.len() {
        None
    } else if entries[from].name == name {
        Some(from)
    } else {
        position_of(entries, name, from + 1)
    }
}

/// The first of `entries` whose name is `name`, letter for letter.
pub open spec fn first_named(entries: Seq<EntryView>, name: Seq<char>) -> Option<EntryView> {
    match position_of(entries, name, 0) {
        Some(i) => Some(entries[i]),
        None => None,
    }
}

/// The view of an entry that may be there.
pub open spec fn found_view(found: Option<ZipEntry>) -> Option<EntryView> {
    match found {
        Some(entry) => Some(entry@),
        None => None,
    }
}

/// `position_of` finds an entry of that name that has none of that name in
/// front of it, as far back as `from`, or nothing where no entry from `from`
/// on has that name.
pub proof fn lemma_position_of(entries: Seq<EntryView>, name: Seq<char>, from: int)
    requires
        0 <= from,
    ensures
        match position_of(entries, name, from) {
            Some(i) => {
                &&& from <= i < entries.len()
                &&& entries[i].name == name
                &&& forall|j: int| from <= j < i ==> entries[j].name != name
            },
            None => forall|j: int| from <= j < entries.len() ==> entries[j].name != name,
        },
    decreases entries.len() - from,
{
    if from < entries.len() && entries[from].name != name {
        lemma_position_of(entries, name, from + 1);
    }
}

/// Tells whether two texts are the same, letter for letter.
pub fn same_text(a: &str, b: &str) -> (same: bool)
    ensures
        same == (a@ == b@),
{
    let x = a.as_bytes();
    let y = b.as_bytes();
    proof {
        encode_utf8_decode_utf8(a@);
        encode_utf8_decode_utf8(b@);
    }
    if x.len() != y.len() {
        return false;
    }
    let n = x.len();
    let mut i: usize = 0;
    while i < n
        invariant
            i <= n,
            n == x@.len(),
            n == y@.len(),
            x@ == a.spec_bytes(),
            y@ == b.spec_bytes(),
            forall|j: int| 0 <= j < i ==> x@[j] == y@[j],
        decreases n - i,
    {
        if x[i] != y[i] {
            return false;
        }
        i += 1;
    }
    assert(x@ =~= y@);
    true
}

/// Takes from `entries` the first one whose name is `name`.
pub fn take_first_named(entries: Vec<ZipEntry>, name: &str) -> (found: Option<ZipEntry>)
    ensures
        found_view(found) == first_named(entry_views(entries@), name@),
        found matches Some(entry) ==> entries@.contains(entry),
{
    let mut list = entries;
    let n = list.len();
    let mut i: usize = 0;
    while i < n
        invariant
            i <= n,
            n == list@.len(),
            list@ == entries@,
            position_of(entry_views(entries@), name@, 0) == position_of(
                entry_views(entries@),
                name@,
                i as int,
            ),
        decreases n - i,
    {
        if same_text(list[i].name.as_str(), name) {
            let entry = list.swap_remove(i);
            assert(entries@[i as int] == entry);
            assert(entry_views(entries@)[i as int] == entry@);
            return Some(entry);
        }
        i += 1;
    }
    None
}

/// The items of `all` at the positions where `keep` says `true`, in the order
/// of `all`.
pub open spec fn picked_by<T>(all: Seq<T>, keep: Seq<bool>) -> Seq<T>
    decreases all.len(),
{
    if all.len() == 0 {
        Seq::empty()
    } else {
        let front = picked_by(all.drop_last(), keep.drop_last());
        if keep.last() {
            front.push(all.last())
        } else {
            front
        }
    }
}

/// Whether `keep` holds, for each of `all`, an answer that `predicate` can
/// give for it.
pub open spec fn answers_of<F: Fn(&ZipEntry) -> bool>(
    predicate: F,
    all: Seq<ZipEntry>,
    keep: Seq<bool>,
) -> bool {
    &&& keep.len() == all.len()
    &&& forall|i: int|
        0 <= i < all.len() ==> call_ensures(predicate, (&all[i],), #[trigger] keep[i])
}

/// Keeps the entries for which `predicate` answers `true`, in their order.
/// The predicate is asked once for each entry, from the first to the last.
pub fn select_entries<F: Fn(&ZipEntry) -> bool>(entries: Vec<ZipEntry>, predicate: F) -> (picked:
    Vec<ZipEntry>)
    requires
        forall|i: int| 0 <= i < entries@.len() ==> call_requires(predicate, (&entries@[i],)),
    ensures
        exists|keep: Seq<bool>| #[trigger]
            answers_of(predicate, entries@, keep) && picked@ == picked_by(entries@, keep),
{
    let ghost all = entries@;
    let ghost mut keep: Seq<bool> = Seq::empty();
    let mut picked: Vec<ZipEntry> = Vec::new();
    for entry in it: entries.into_iter()
        invariant
            it.seq() == all,
            keep.len() == it.index(),
            forall|i: int| 0 <= i < all.len() ==> call_requires(predicate, (&all[i],)),
            answers_of(predicate, all.take(it.index() as int), keep),
            picked@ == picked_by(all.take(it.index() as int), keep),
    {
        let ghost done = it.index() as int;
        assert(entry == all[done]);
        let kept = predicate(&entry);
        proof {
            assert(all.take(done + 1).drop_last() =~= all.take(done));
            assert(keep.push(kept).drop_last() =~= keep);
            keep = keep.push(kept);
        }
        if kept {
            picked.push(entry);
        }
    }
    proof {
        assert(all.take(all.len() as int) =~= all);
    }
    picked
}

} // verus!
