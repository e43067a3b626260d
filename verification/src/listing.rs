//! The listing of a folder: which of its entries are shown, and in what
//! order.
//!
//! Directories stand before files, and within each group the entries are in
//! the order of their names in lower case. Where the folder has a parent, the
//! entry that leads to it stands first.

use vstd::prelude::*;
use vstd::string::*;
use vstd::utf8::encode_utf8;
use crate::paths::{
    audio_path, hidden_name, is_audio_file, is_hidden, parent_of, path_parent,
};

verus! {

/// One line of the folder on display: a directory or an audio file.
#[derive(Debug, Clone, PartialEq, Eq)]
pub struct FileEntry {
    pub name: String,
    pub path: String,
    pub is_dir: bool,
}

/// `text` in lower case, as `str::to_lowercase` gives it.
pub uninterp spec fn lowercased(text: Seq<char>) -> Seq<char>;

/// Calls `str::to_lowercase`. Trusted: the result is the one that
/// `lowercased` names.
#[verifier::external_body]
fn lowercase_of(text: &str) -> (lower: String)
    ensures
        lower@ == lowercased(text@),
{
    text.to_lowercase()
}

/// Whether `a` is at most `b` in the order of byte strings: byte by byte,
/// and a prefix before what it is a prefix of.
pub open spec fn bytes_le(a: Seq<u8>, b: Seq<u8>) -> bool
    decreases a.len(),
{
    if a.len() == 0 {
        true
    } else if b.len() == 0 {
        false
    } else if a[0] != b[0] {
        a[0] < b[0]
    } else {
        bytes_le(a.skip(1), b.skip(1))
    }
}

/// The bytes by which an entry named `name` is ordered: its name in lower
/// case, as UTF-8.
pub open spec fn sort_key(name: Seq<char>) -> Seq<u8> {
    encode_utf8(lowercased(name))
}

/// Whether an entry that is a directory or not (`a_dir`) with the key `a_key`
/// may stand before one with `b_dir` and `b_key`.
pub open spec fn ranked_before(a_dir: bool, a_key: Seq<u8>, b_dir: bool, b_key: Seq<u8>) -> bool {
    if a_dir != b_dir {
        a_dir
    } else {
        bytes_le(a_key, b_key)
    }
}

/// Whether `a` may stand before `b` in a listing.
pub open spec fn listed_before(a: FileEntry, b: FileEntry) -> bool {
    ranked_before(a.is_dir, sort_key(a.name@), b.is_dir, sort_key(b.name@))
}

/// Whether every entry may stand before all that follow it.
pub open spec fn in_order(entries: Seq<FileEntry>) -> bool {
    forall|i: int, j: int|
        0 <= i < j < entries.len() ==> listed_before(#[trigger] entries[i], #[trigger] entries[j])
}

/// Whether an entry that was found in a folder is shown: a directory that is
/// not hidden, or anything with the name of an audio file.
pub open spec fn shown(entry: FileEntry) -> bool {
    (entry.is_dir && !hidden_name(entry.name@)) || audio_path(entry.path@)
}

/// The entries among `found` that are shown, in the order they were found.
pub open spec fn shown_entries(found: Seq<FileEntry>) -> Seq<FileEntry>
    decreases found.len(),
{
    if found.len() == 0 {
        Seq::empty()
    } else if shown(found.last()) {
        shown_entries(found.drop_last()).push(found.last())
    } else {
        shown_entries(found.drop_last())
    }
}

/// How many entries at the head of `entries` may stand before `entry`: the
/// place at which `entry` is put among them.
pub open spec fn place_of(entries: Seq<FileEntry>, entry: FileEntry) -> int
    decreases entries.len(),
{
    if entries.len() == 0 || !listed_before(entries[0], entry) {
        0
    } else {
        1 + place_of(entries.skip(1), entry)
    }
}

/// The shown entries among `found`, in order. Each one is put behind those
/// that may stand before it, so that entries which may stand either way keep
/// the order in which they were found.
pub open spec fn ordered_entries(found: Seq<FileEntry>) -> Seq<FileEntry>
    decreases found.len(),
{
    if found.len() == 0 {
        Seq::empty()
    } else if shown(found.last()) {
        let rest = ordered_entries(found.drop_last());
        rest.insert(place_of(rest, found.last()), found.last())
    } else {
        ordered_entries(found.drop_last())
    }
}

/// Whether `entry` is the entry that leads to the directory `parent`.
pub open spec fn leads_to(entry: FileEntry, parent: Seq<char>) -> bool {
    entry.name@ == ".."@ && entry.path@ == parent && entry.is_dir
}

/// Whether `entries` is the listing of the folder spelled `folder` in which
/// `found` was found: the entry that leads to the parent first, where there
/// is a parent, and then the shown entries in order.
pub open spec fn is_listing(entries: Seq<FileEntry>, folder: Seq<char>, found: Seq<FileEntry>) -> bool {
    match path_parent(folder) {
        Some(parent) => {
            &&& entries.len() > 0
            &&& leads_to(entries[0], parent)
            &&& entries.skip(1) == ordered_entries(found)
        },
        None => entries == ordered_entries(found),
    }
}

/// Of two byte strings one is at most the other.
pub proof fn lemma_bytes_le_total(a: Seq<u8>, b: Seq<u8>)
    ensures
        bytes_le(a, b) || bytes_le(b, a),
    decreases a.len(),
{
    if a.len() > 0 && b.len() > 0 && a[0] == b[0] {
        lemma_bytes_le_total(a.skip(1), b.skip(1));
    }
}

/// The order of byte strings is transitive.
pub proof fn lemma_bytes_le_transitive(a: Seq<u8>, b: Seq<u8>, c: Seq<u8>)
    requires
        bytes_le(a, b),
        bytes_le(b, c),
    ensures
        bytes_le(a, c),
    decreases a.len(),
{
    if a.len() > 0 && b.len() > 0 && c.len() > 0 && a[0] == b[0] && b[0] == c[0] {
        lemma_bytes_le_transitive(a.skip(1), b.skip(1), c.skip(1));
    }
}

/// Of two entries one may stand before the other, and what may stand before
/// an entry may stand before all that the entry may stand before.
pub proof fn lemma_listed_before_orders(a: FileEntry, b: FileEntry, c: FileEntry)
    ensures
        listed_before(a, b) || listed_before(b, a),
        listed_before(a, b) && listed_before(b, c) ==> listed_before(a, c),
{
    lemma_bytes_le_total(sort_key(a.name@), sort_key(b.name@));
    if listed_before(a, b) && listed_before(b, c) && a.is_dir == b.is_dir && b.is_dir == c.is_dir {
        lemma_bytes_le_transitive(sort_key(a.name@), sort_key(b.name@), sort_key(c.name@));
    }
}

/// The place of `entry` among `entries` is the first place at which an entry
/// stands that may not stand before it.
pub proof fn lemma_place_of(entries: Seq<FileEntry>, entry: FileEntry, place: int)
    requires
        0 <= place <= entries.len(),
        forall|k: int| 0 <= k < place ==> listed_before(#[trigger] entries[k], entry),
        place < entries.len() ==> !listed_before(entries[place], entry),
    ensures
        place_of(entries, entry) == place,
    decreases place,
{
    if place > 0 {
        let rest = entries.skip(1);
        assert(listed_before(entries[0], entry));
        assert forall|k: int| 0 <= k < place - 1 implies listed_before(
            #[trigger] rest[k],
            entry,
        ) by {
            assert(rest[k] == entries[k + 1]);
        }
        lemma_place_of(rest, entry, place - 1);
    }
}

/// Putting an entry in its place keeps a listing in order, and adds to it
/// that entry and nothing else.
pub proof fn lemma_place_keeps_order(entries: Seq<FileEntry>, entry: FileEntry)
    requires
        in_order(entries),
    ensures
        0 <= place_of(entries, entry) <= entries.len(),
        in_order(entries.insert(place_of(entries, entry), entry)),
        entries.insert(place_of(entries, entry), entry).to_multiset()
            == entries.to_multiset().insert(entry),
        forall|k: int|
            0 <= k < place_of(entries, entry) ==> listed_before(#[trigger] entries[k], entry),
        place_of(entries, entry) < entries.len() ==> !listed_before(
            entries[place_of(entries, entry)],
            entry,
        ),
    decreases entries.len(),
{
    let place = place_of(entries, entry);
    if entries.len() > 0 && listed_before(entries[0], entry) {
        let rest = entries.skip(1);
        assert forall|i: int, j: int| 0 <= i < j < rest.len() implies listed_before(
            #[trigger] rest[i],
            #[trigger] rest[j],
        ) by {
            assert(rest[i] == entries[i + 1] && rest[j] == entries[j + 1]);
        }
        lemma_place_keeps_order(rest, entry);
        assert forall|k: int| 0 <= k < place implies listed_before(
            #[trigger] entries[k],
            entry,
        ) by {
            if k > 0 {
                assert(entries[k] == rest[k - 1]);
            }
        }
        assert(place < entries.len() ==> entries[place] == rest[place - 1]);
    }
    let after = entries.insert(place, entry);
    assert forall|k: int| place <= k < entries.len() implies listed_before(
        entry,
        #[trigger] entries[k],
    ) by {
        lemma_listed_before_orders(entry, entries[place], entries[k]);
        lemma_listed_before_orders(entries[place], entry, entries[k]);
    }
    assert forall|a: int, b: int| 0 <= a < b < after.len() implies listed_before(
        #[trigger] after[a],
        #[trigger] after[b],
    ) by {
        if a < place && b > place {
            assert(after[a] == entries[a] && after[b] == entries[b - 1]);
        } else if a < place && b < place {
            assert(after[a] == entries[a] && after[b] == entries[b]);
        } else if a > place {
            assert(after[a] == entries[a - 1] && after[b] == entries[b - 1]);
        } else if a == place {
            assert(after[b] == entries[b - 1]);
        }
    }
    assert(after.remove(place) =~= entries);
    vstd::seq_lib::to_multiset_remove(after, place);
    after.to_multiset_ensures();
    assert(after.to_multiset() =~= entries.to_multiset().insert(entry));
}

/// The ordered entries are the shown entries, each as often as it was found,
/// and every one of them may stand before all that follow it.
pub proof fn lemma_ordered_entries(found: Seq<FileEntry>)
    ensures
        in_order(ordered_entries(found)),
        ordered_entries(found).to_multiset() == shown_entries(found).to_multiset(),
        ordered_entries(found).len() == shown_entries(found).len(),
    decreases found.len(),
{
    if found.len() > 0 {
        let rest = ordered_entries(found.drop_last());
        lemma_ordered_entries(found.drop_last());
        if shown(found.last()) {
            lemma_place_keeps_order(rest, found.last());
            shown_entries(found.drop_last()).to_multiset_ensures();
        }
    }
}

/// Whether `a` is at most `b` in the order of byte strings.
pub fn compare_le(a: &[u8], b: &[u8]) -> (le: bool)
    ensures
        le == bytes_le(a@, b@),
{
    let mut i: usize = 0;
    assert(a@.skip(0) =~= a@ && b@.skip(0) =~= b@);
    while i < a.len() && i < b.len()
        invariant
            i <= a@.len(),
            i <= b@.len(),
            bytes_le(a@, b@) == bytes_le(a@.skip(i as int), b@.skip(i as int)),
        decreases a@.len() - i,
    {
        if a[i] != b[i] {
            return a[i] < b[i];
        }
        assert(a@.skip(i as int).skip(1) =~= a@.skip(i + 1));
        assert(b@.skip(i as int).skip(1) =~= b@.skip(i + 1));
        i = i + 1;
    }
    i >= a.len()
}

fn stands_before(a_dir: bool, a_key: &[u8], b_dir: bool, b_key: &[u8]) -> (before: bool)
    ensures
        before == ranked_before(a_dir, a_key@, b_dir, b_key@),
{
    if a_dir != b_dir {
        a_dir
    } else {
        compare_le(a_key, b_key)
    }
}

impl FileEntry {
    /// An entry with the same name, path and kind.
    pub fn duplicate(&self) -> (copy: FileEntry)
        ensures
            copy == *self,
    {
        FileEntry { name: self.name.clone(), path: self.path.clone(), is_dir: self.is_dir }
    }

    /// Whether the entry is shown when it is found in a folder.
    pub fn is_shown(&self) -> (kept: bool)
        ensures
            kept == shown(*self),
    {
        (self.is_dir && !is_hidden(self.name.as_str())) || is_audio_file(self.path.as_str())
    }
}

/// Puts the shown entries among `found` in order: each of them as often as
/// it was found, and every one before all that it may stand before. Entries
/// that may stand either way keep the order in which they were found.
pub fn sort_entries(found: &Vec<FileEntry>) -> (sorted: Vec<FileEntry>)
    ensures
        sorted@ == ordered_entries(found@),
        sorted@.to_multiset() == shown_entries(found@).to_multiset(),
        in_order(sorted@),
{
    let mut sorted: Vec<FileEntry> = Vec::new();
    let mut keys: Vec<Vec<u8>> = Vec::new();
    let count: usize = found.len();
    let mut i: usize = 0;
    assert(ordered_entries(found@.subrange(0, 0)) =~= Seq::<FileEntry>::empty());
    while i < count
        invariant
            count == found@.len(),
            i <= count,
            keys@.len() == sorted@.len(),
            forall|k: int| 0 <= k < sorted@.len() ==> (#[trigger] keys@[k])@ == sort_key(sorted@[k].name@),
            sorted@ == ordered_entries(found@.subrange(0, i as int)),
        decreases count - i,
    {
        proof {
            let next = found@.subrange(0, i + 1);
            assert(next.drop_last() =~= found@.subrange(0, i as int));
            assert(next.last() == found@[i as int]);
        }
        if found[i].is_shown() {
            let entry = found[i].duplicate();
            let lower = lowercase_of(entry.name.as_str());
            let key: Vec<u8> = lower.as_str().as_bytes_vec();
            assert(key@ == sort_key(entry.name@));
            let len: usize = sorted.len();
            let mut pos: usize = 0;
            while pos < len && stands_before(
                sorted[pos].is_dir,
                keys[pos].as_slice(),
                entry.is_dir,
                key.as_slice(),
            )
                invariant
                    len == sorted@.len(),
                    keys@.len() == sorted@.len(),
                    pos <= len,
                    key@ == sort_key(entry.name@),
                    forall|k: int|
                        0 <= k < sorted@.len() ==> (#[trigger] keys@[k])@ == sort_key(
                            sorted@[k].name@,
                        ),
                    forall|k: int| 0 <= k < pos ==> listed_before(#[trigger] sorted@[k], entry),
                decreases len - pos,
            {
                pos = pos + 1;
            }
            proof {
                lemma_place_of(sorted@, entry, pos as int);
            }
            sorted.insert(pos, entry);
            keys.insert(pos, key);
        }
        i = i + 1;
    }
    assert(found@.subrange(0, count as int) =~= found@);
    proof {
        lemma_ordered_entries(found@);
    }
    sorted
}

/// Lists the folder spelled `folder` in which `found` was found.
pub fn list_folder(folder: &str, found: &Vec<FileEntry>) -> (entries: Vec<FileEntry>)
    ensures
        is_listing(entries@, folder@, found@),
{
    let mut entries = sort_entries(found);
    let ghost body = entries@;
    match parent_of(folder) {
        Some(parent) => {
            let up = FileEntry { name: String::from_str(".."), path: parent, is_dir: true };
            entries.insert(0, up);
            assert(entries@.skip(1) =~= body);
        },
        None => {},
    }
    entries
}

} // verus!
