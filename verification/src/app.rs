//! The browser's state: the folder on display, the selection, and the cache
//! of durations with the store behind it.
//!
//! The program around this module reads directories and runs the workers
//! that probe files. It hands in what it read and what the workers sent, and
//! is told which paths to probe next.

use vstd::prelude::*;
use vstd::hash_map::StringHashMap;
use vstd::slice::slice_to_vec;
use vstd::string::*;
use vstd::utf8::{decode_utf8, encode_utf8_decode_utf8, encode_utf8_valid_utf8, valid_utf8};
use crate::codec::{duration_of, record_of};
use crate::listing::{is_listing, list_folder, FileEntry};
use crate::paths::{audio_path, is_audio_file, lossy_text, parent_of, path_parent, text_from_bytes};
use crate::store::{key_of, lists_records, DurationStore};
use crate::timespan::{span_nanos, TimeSpan};

verus! {

/// How the screen is laid out.
#[derive(Debug, Clone, Copy, PartialEq, Eq, Structural)]
pub enum UiMode {
    Default,
    FullScreenPlayer,
}

/// What loading a folder leaves to be done, and how the store fared.
#[derive(Debug, Clone, PartialEq, Eq)]
pub struct FolderLoad {
    /// The files that a worker has to probe, in the order of the listing.
    /// With none, no worker is started.
    pub pending: Vec<String>,
    /// Whether the store listed its records, took out each stale one and
    /// flushed.
    pub synced: bool,
}

/// What a worker found out about one file.
#[derive(Debug, Clone, PartialEq, Eq)]
pub struct DurationUpdate {
    pub path: String,
    pub duration: Option<TimeSpan>,
}

/// The path and the duration in nanoseconds of each update.
pub open spec fn updates_view(updates: Seq<DurationUpdate>) -> Seq<(Seq<char>, Option<nat>)> {
    updates.map_values(|update: DurationUpdate| (update.path@, span_nanos(update.duration)))
}

/// The cache after the updates were entered one after the other: the last
/// update of a path is the one that stays.
pub open spec fn cache_after(
    cache: Map<Seq<char>, Option<nat>>,
    updates: Seq<(Seq<char>, Option<nat>)>,
) -> Map<Seq<char>, Option<nat>>
    decreases updates.len(),
{
    if updates.len() == 0 {
        cache
    } else {
        cache_after(cache, updates.drop_last()).insert(updates.last().0, updates.last().1)
    }
}

/// The records after the record of each update was filed under its path,
/// one after the other.
pub open spec fn records_after(
    records: Map<Seq<u8>, Seq<u8>>,
    updates: Seq<(Seq<char>, Option<nat>)>,
) -> Map<Seq<u8>, Seq<u8>>
    decreases updates.len(),
{
    if updates.len() == 0 {
        records
    } else {
        records_after(records, updates.drop_last()).insert(
            key_of(updates.last().0),
            record_of(updates.last().1),
        )
    }
}

/// The durations that are known, the store that keeps them, and whether a
/// worker's results are being waited for.
pub struct DurationCache {
    known: StringHashMap<Option<TimeSpan>>,
    prefetch_live: bool,
    db: DurationStore,
}

impl DurationCache {
    /// The cached durations in nanoseconds, by path.
    pub closed spec fn known(&self) -> Map<Seq<char>, Option<nat>> {
        self.known@.map_values(|duration: Option<TimeSpan>| span_nanos(duration))
    }

    /// Whether a worker's results are being waited for.
    pub closed spec fn prefetch_active(&self) -> bool {
        self.prefetch_live
    }

    /// The records in the store.
    pub closed spec fn stored(&self) -> Map<Seq<u8>, Seq<u8>> {
        self.db.records()
    }

    /// The records that the store has made durable.
    pub closed spec fn saved(&self) -> Map<Seq<u8>, Seq<u8>> {
        self.db.durable()
    }

    /// Whether the store is available.
    pub closed spec fn store_available(&self) -> bool {
        self.db.available()
    }

    /// The store behind the cache.
    pub fn store(&self) -> (store: &DurationStore)
        ensures
            store.records() == self.stored(),
            store.durable() == self.saved(),
            store.available() == self.store_available(),
    {
        &self.db
    }

    /// The paths among `paths` that the cache has no entry for, in their
    /// order: the files that are still to be probed.
    pub fn missing(&self, paths: &Vec<String>) -> (pending: Vec<String>)
        ensures
            texts(pending@) == pending_probes(texts(paths@), self.known()),
            texts(paths@).no_duplicates() ==> texts(pending@).no_duplicates(),
    {
        let mut pending: Vec<String> = Vec::new();
        let count: usize = paths.len();
        let mut i: usize = 0;
        assert(texts(pending@) =~= pending_probes(texts(paths@).subrange(0, 0), self.known()));
        while i < count
            invariant
                count == paths@.len(),
                i <= count,
                texts(pending@) == pending_probes(
                    texts(paths@).subrange(0, i as int),
                    self.known(),
                ),
            decreases count - i,
        {
            proof {
                let next = texts(paths@).subrange(0, i + 1);
                assert(next.drop_last() =~= texts(paths@).subrange(0, i as int));
                assert(next.last() == paths@[i as int]@);
            }
            if !self.known.contains_key(paths[i].as_str()) {
                let ghost before = texts(pending@);
                pending.push(paths[i].clone());
                assert(texts(pending@) =~= before.push(paths@[i as int]@));
            }
            i = i + 1;
        }
        assert(texts(paths@).subrange(0, count as int) =~= texts(paths@));
        proof {
            if texts(paths@).no_duplicates() {
                lemma_pending_distinct(texts(paths@), self.known());
            }
        }
        pending
    }

    /// The number of paths that the cache has an entry for.
    pub fn len(&self) -> (count: usize)
        ensures
            count == self.known().dom().len(),
    {
        assert(self.known().dom() =~= self.known@.dom());
        self.known.len()
    }

    /// Whether a worker's results are being waited for.
    pub fn is_prefetching(&self) -> (active: bool)
        ensures
            active == self.prefetch_active(),
    {
        self.prefetch_live
    }
}

/// The characters of each path.
pub open spec fn texts(paths: Seq<String>) -> Seq<Seq<char>> {
    paths.map_values(|path: String| path@)
}

/// The paths of the entries that are files, each path once, in the order
/// in which the entries first show them: the set of the folder's files.
pub open spec fn audio_paths(entries: Seq<FileEntry>) -> Seq<Seq<char>>
    decreases entries.len(),
{
    if entries.len() == 0 {
        Seq::empty()
    } else if entries.last().is_dir || audio_paths(entries.drop_last()).contains(
        entries.last().path@,
    ) {
        audio_paths(entries.drop_last())
    } else {
        audio_paths(entries.drop_last()).push(entries.last().path@)
    }
}

/// The paths among `paths` that the cache has no entry for, in their order.
pub open spec fn pending_probes(
    paths: Seq<Seq<char>>,
    cache: Map<Seq<char>, Option<nat>>,
) -> Seq<Seq<char>>
    decreases paths.len(),
{
    if paths.len() == 0 {
        Seq::empty()
    } else if cache.contains_key(paths.last()) {
        pending_probes(paths.drop_last(), cache)
    } else {
        pending_probes(paths.drop_last(), cache).push(paths.last())
    }
}

/// The path that a key is read as: the text that it encodes, and for bytes
/// that encode none the text that a lossy reading makes of them.
pub open spec fn key_text(key: Seq<u8>) -> Seq<char> {
    if valid_utf8(key) {
        decode_utf8(key)
    } else {
        lossy_text(key)
    }
}

/// Whether the record under `key` is stale for the folder spelled `folder`
/// with the files `paths`: the key reads as a path whose directory is the
/// folder, and no file of the folder has that path.
///
/// Spelling decides: the directory of the key is compared with `folder`
/// character by character, and so is the key with each path. A folder that
/// is spelled in two ways, as with and without a slash at its end, is two
/// folders here.
pub open spec fn stale_key(key: Seq<u8>, folder: Seq<char>, paths: Seq<Seq<char>>) -> bool {
    path_parent(key_text(key)) == Some(folder) && !paths.contains(key_text(key))
}

/// The keys that are stale for the folder.
pub open spec fn stale_keys(folder: Seq<char>, paths: Seq<Seq<char>>) -> Set<Seq<u8>> {
    Set::new(|key: Seq<u8>| stale_key(key, folder, paths))
}

/// Whether two caches agree on `path`: both lack it, or both hold the same
/// duration for it.
pub open spec fn same_entry(
    a: Map<Seq<char>, Option<nat>>,
    b: Map<Seq<char>, Option<nat>>,
    path: Seq<char>,
) -> bool {
    a.contains_key(path) == b.contains_key(path) && (a.contains_key(path) ==> a[path] == b[path])
}

/// Whether the cache holds for `path` what its record in the store reads as.
pub open spec fn loaded_entry(
    cache: Map<Seq<char>, Option<nat>>,
    records: Map<Seq<u8>, Seq<u8>>,
    path: Seq<char>,
) -> bool {
    &&& records.contains_key(key_of(path))
    &&& cache.contains_key(path)
    &&& cache[path] == duration_of(records[key_of(path)])
}

/// Whether `after` is what loading the records of `paths` makes of `before`:
/// a path that is not among them is as before, and one that is among them is
/// as before or holds what its record reads as.
pub open spec fn loaded_from(
    after: Map<Seq<char>, Option<nat>>,
    before: Map<Seq<char>, Option<nat>>,
    records: Map<Seq<u8>, Seq<u8>>,
    paths: Seq<Seq<char>>,
) -> bool {
    forall|path: Seq<char>|
        #![trigger after.contains_key(path)]
        same_entry(after, before, path) || (paths.contains(path) && loaded_entry(
            after,
            records,
            path,
        ))
}

spec fn first_keys(keys: Seq<Seq<u8>>, n: int) -> Set<Seq<u8>> {
    Set::new(|key: Seq<u8>| exists|j: int| 0 <= j < n && #[trigger] keys[j] == key)
}

/// The paths of the updates, in their order.
pub open spec fn update_paths(updates: Seq<(Seq<char>, Option<nat>)>) -> Seq<Seq<char>> {
    updates.map_values(|update: (Seq<char>, Option<nat>)| update.0)
}

/// A path is to be probed exactly if it is a file of the folder and the
/// cache has no entry for it: nothing of another folder is ever asked for.
pub proof fn lemma_pending_probes(
    paths: Seq<Seq<char>>,
    cache: Map<Seq<char>, Option<nat>>,
    path: Seq<char>,
)
    ensures
        pending_probes(paths, cache).contains(path) <==> paths.contains(path)
            && !cache.contains_key(path),
    decreases paths.len(),
{
    if paths.len() > 0 {
        let rest = paths.drop_last();
        let last = paths.last();
        lemma_pending_probes(rest, cache, path);
        let pending = pending_probes(rest, cache);
        if paths.contains(path) {
            let i = choose|i: int| 0 <= i < paths.len() && paths[i] == path;
            if i < rest.len() {
                assert(rest[i] == path);
            }
        }
        if rest.contains(path) {
            let i = choose|i: int| 0 <= i < rest.len() && rest[i] == path;
            assert(paths[i] == path);
        }
        assert(paths[paths.len() - 1] == last);
        if !cache.contains_key(last) {
            let more = pending.push(last);
            assert(more[more.len() - 1] == last);
            if pending.contains(path) {
                let i = choose|i: int| 0 <= i < pending.len() && pending[i] == path;
                assert(more[i] == path);
            }
            if more.contains(path) {
                let i = choose|i: int| 0 <= i < more.len() && more[i] == path;
                if i < pending.len() {
                    assert(pending[i] == path);
                }
            }
        }
    }
}

/// No path is listed twice among the files of a folder.
pub proof fn lemma_audio_paths_distinct(entries: Seq<FileEntry>)
    ensures
        audio_paths(entries).no_duplicates(),
    decreases entries.len(),
{
    if entries.len() > 0 {
        lemma_audio_paths_distinct(entries.drop_last());
    }
}

/// Where no path is listed twice, no path is to be probed twice.
pub proof fn lemma_pending_distinct(paths: Seq<Seq<char>>, cache: Map<Seq<char>, Option<nat>>)
    requires
        paths.no_duplicates(),
    ensures
        pending_probes(paths, cache).no_duplicates(),
    decreases paths.len(),
{
    if paths.len() > 0 {
        let rest = paths.drop_last();
        lemma_pending_distinct(rest, cache);
        lemma_pending_probes(rest, cache, paths.last());
        if rest.contains(paths.last()) {
            let i = choose|i: int| 0 <= i < rest.len() && rest[i] == paths.last();
            assert(paths[i] == paths[paths.len() - 1]);
        }
    }
}

/// After the updates were entered, the cache has an entry for a path exactly
/// if it had one before or an update was for that path.
pub proof fn lemma_cache_after_domain(
    cache: Map<Seq<char>, Option<nat>>,
    updates: Seq<(Seq<char>, Option<nat>)>,
    path: Seq<char>,
)
    ensures
        cache_after(cache, updates).contains_key(path) <==> cache.contains_key(path)
            || update_paths(updates).contains(path),
    decreases updates.len(),
{
    if updates.len() > 0 {
        let rest = updates.drop_last();
        lemma_cache_after_domain(cache, rest, path);
        let all = update_paths(updates);
        let fewer = update_paths(rest);
        assert(all[all.len() - 1] == updates.last().0);
        if fewer.contains(path) {
            let i = choose|i: int| 0 <= i < fewer.len() && fewer[i] == path;
            assert(all[i] == path);
        }
        if all.contains(path) {
            let i = choose|i: int| 0 <= i < all.len() && all[i] == path;
            if i < fewer.len() {
                assert(fewer[i] == path);
            }
        }
    }
}

/// Once the worker has sent one update for each path that was to be probed
/// and the updates were entered, every file of the folder has an entry in
/// the cache, known or unknown. Starting from an empty cache and files with
/// distinct paths, the cache then has exactly as many entries as the folder
/// has files.
pub proof fn lemma_prefetch_complete(
    files: Seq<Seq<char>>,
    cache: Map<Seq<char>, Option<nat>>,
    updates: Seq<(Seq<char>, Option<nat>)>,
)
    requires
        update_paths(updates) == pending_probes(files, cache),
    ensures
        forall|path: Seq<char>|
            files.contains(path) ==> #[trigger] cache_after(cache, updates).contains_key(path),
        cache_after(cache, updates).dom() == cache.dom().union(files.to_set()),
        cache == Map::<Seq<char>, Option<nat>>::empty() && files.no_duplicates() ==> cache_after(
            cache,
            updates,
        ).dom().finite() && cache_after(cache, updates).dom().len() == files.len(),
{
    let after = cache_after(cache, updates);
    let both = cache.dom().union(files.to_set());
    assert forall|path: Seq<char>| #[trigger] after.dom().contains(path) == both.contains(path) by {
        lemma_cache_after_domain(cache, updates, path);
        lemma_pending_probes(files, cache, path);
        assert(files.to_set().contains(path) == files.contains(path));
    }
    assert(after.dom() =~= both);
    if cache == Map::<Seq<char>, Option<nat>>::empty() && files.no_duplicates() {
        assert(after.dom() =~= files.to_set());
        files.unique_seq_to_set();
        vstd::seq_lib::seq_to_set_is_finite(files);
    }
}

/// Results that are entered after a folder was loaded do not bring in
/// another folder's files: where every update is for a path that was to be
/// probed for this folder, each entry of the cache was there before or is
/// for a file of this folder.
pub proof fn lemma_updates_stay_in_folder(
    files: Seq<Seq<char>>,
    cache: Map<Seq<char>, Option<nat>>,
    updates: Seq<(Seq<char>, Option<nat>)>,
)
    requires
        forall|i: int|
            0 <= i < updates.len() ==> pending_probes(files, cache).contains(
                #[trigger] update_paths(updates)[i],
            ),
    ensures
        forall|path: Seq<char>| #[trigger]
            cache_after(cache, updates).contains_key(path) ==> cache.contains_key(path)
                || files.contains(path),
{
    assert forall|path: Seq<char>| #[trigger]
        cache_after(cache, updates).contains_key(path) implies cache.contains_key(path)
        || files.contains(path) by {
        lemma_cache_after_domain(cache, updates, path);
        lemma_pending_probes(files, cache, path);
        if update_paths(updates).contains(path) {
            let i = choose|i: int|
                0 <= i < update_paths(updates).len() && update_paths(updates)[i] == path;
            assert(pending_probes(files, cache).contains(update_paths(updates)[i]));
        }
    }
}

/// After a folder was loaded, a file of the folder that the cache had no
/// entry for and that is not to be probed has in the cache what its record
/// in the store reads as.
pub proof fn lemma_loaded_unless_pending(
    after: Map<Seq<char>, Option<nat>>,
    before: Map<Seq<char>, Option<nat>>,
    records: Map<Seq<u8>, Seq<u8>>,
    files: Seq<Seq<char>>,
    path: Seq<char>,
)
    requires
        loaded_from(after, before, records, files),
        files.contains(path),
        !before.contains_key(path),
        !pending_probes(files, after).contains(path),
    ensures
        loaded_entry(after, records, path),
{
    lemma_pending_probes(files, after, path);
    assert(after.contains_key(path));
}

/// The store is written through: after the updates were entered and filed,
/// the record under the key of each updated path is the record of what the
/// cache holds for that path.
pub proof fn lemma_write_through(
    cache: Map<Seq<char>, Option<nat>>,
    records: Map<Seq<u8>, Seq<u8>>,
    updates: Seq<(Seq<char>, Option<nat>)>,
    path: Seq<char>,
)
    requires
        update_paths(updates).contains(path),
    ensures
        cache_after(cache, updates).contains_key(path),
        records_after(records, updates).contains_key(key_of(path)),
        records_after(records, updates)[key_of(path)] == record_of(
            cache_after(cache, updates)[path],
        ),
    decreases updates.len(),
{
    let all = update_paths(updates);
    let i = choose|i: int| 0 <= i < all.len() && all[i] == path;
    let rest = updates.drop_last();
    let last = updates.last();
    if last.0 != path {
        assert(i < rest.len());
        assert(update_paths(rest)[i] == path);
        lemma_write_through(cache, records, rest, path);
        assert(key_of(last.0) != key_of(path)) by {
            encode_utf8_decode_utf8(last.0);
            encode_utf8_decode_utf8(path);
        }
    }
}

/// What taking the stale keys of a folder out of the store does: of the
/// records that are left, those that read as a path in the folder belong to
/// a file of the folder; the record of every file of the folder is kept;
/// and every record that reads as a path elsewhere is kept.
pub proof fn lemma_sync_keeps_folder_in_step(
    records: Map<Seq<u8>, Seq<u8>>,
    folder: Seq<char>,
    paths: Seq<Seq<char>>,
)
    ensures
        forall|key: Seq<u8>| #[trigger]
            records.remove_keys(stale_keys(folder, paths)).contains_key(key) ==> {
                &&& records.contains_key(key)
                &&& records.remove_keys(stale_keys(folder, paths))[key] == records[key]
                &&& path_parent(key_text(key)) == Some(folder) ==> paths.contains(key_text(key))
            },
        forall|path: Seq<char>|
            paths.contains(path) && records.contains_key(#[trigger] key_of(path))
                ==> records.remove_keys(stale_keys(folder, paths)).contains_key(key_of(path)),
        forall|key: Seq<u8>| #[trigger]
            records.contains_key(key) && path_parent(key_text(key)) != Some(folder)
                ==> records.remove_keys(stale_keys(folder, paths)).contains_key(key),
{
    assert forall|path: Seq<char>|
        paths.contains(path) && records.contains_key(#[trigger] key_of(path)) implies records.remove_keys(
        stale_keys(folder, paths),
    ).contains_key(key_of(path)) by {
        encode_utf8_valid_utf8(path);
        encode_utf8_decode_utf8(path);
        assert(key_text(key_of(path)) == path);
    }
}

/// Whether `path` is one of `paths`.
pub fn contains_path(paths: &Vec<String>, path: &String) -> (found: bool)
    ensures
        found == texts(paths@).contains(path@),
{
    let count: usize = paths.len();
    let mut i: usize = 0;
    while i < count
        invariant
            count == paths@.len(),
            i <= count,
            forall|j: int| 0 <= j < i ==> texts(paths@)[j] != path@,
        decreases count - i,
    {
        if paths[i] == *path {
            assert(texts(paths@)[i as int] == path@);
            return true;
        }
        i = i + 1;
    }
    false
}

/// The browser's state.
pub struct App {
    pub ui_mode: UiMode,
    pub current_path: String,
    pub entries: Vec<FileEntry>,
    pub selected_index: usize,
    pub status: Option<String>,
    pub durations: DurationCache,
}

impl App {
    /// The cached durations in nanoseconds, by path. A path that maps to
    /// `None` was probed and its duration is unknown; a path that is missing
    /// was not probed yet.
    pub open spec fn cache(&self) -> Map<Seq<char>, Option<nat>> {
        self.durations.known()
    }

    /// Whether a worker's results are being waited for.
    pub open spec fn prefetch_active(&self) -> bool {
        self.durations.prefetch_active()
    }

    /// The records in the store behind the cache.
    pub open spec fn stored(&self) -> Map<Seq<u8>, Seq<u8>> {
        self.durations.stored()
    }

    /// The records that the store behind the cache has made durable.
    pub open spec fn saved(&self) -> Map<Seq<u8>, Seq<u8>> {
        self.durations.saved()
    }

    /// Whether the store behind the cache is available.
    pub open spec fn store_available(&self) -> bool {
        self.durations.store_available()
    }

    /// Whether `other` shows the same folder, selection and layout.
    pub open spec fn same_display(&self, other: &App) -> bool {
        &&& self.ui_mode == other.ui_mode
        &&& self.current_path == other.current_path
        &&& self.entries == other.entries
        &&& self.selected_index == other.selected_index
        &&& self.status == other.status
    }

    /// The state on entering `current_dir`, before its listing was loaded:
    /// nothing listed, nothing cached, no worker awaited.
    pub fn new(current_dir: String, duration_db: DurationStore) -> (app: App)
        ensures
            app.ui_mode == UiMode::Default,
            app.current_path == current_dir,
            app.entries@.len() == 0,
            app.selected_index == 0,
            app.status is None,
            app.cache() == Map::<Seq<char>, Option<nat>>::empty(),
            !app.prefetch_active(),
            app.stored() == duration_db.records(),
            app.store_available() == duration_db.available(),
    {
        let app = App {
            ui_mode: UiMode::Default,
            current_path: current_dir,
            entries: Vec::new(),
            selected_index: 0,
            status: None,
            durations: DurationCache {
                known: StringHashMap::new(),
                prefetch_live: false,
                db: duration_db,
            },
        };
        assert(app.cache() =~= Map::<Seq<char>, Option<nat>>::empty());
        app
    }

    /// Loads the folder on display, in which `found` was found: lists it,
    /// keeps the selection on the list, takes the stale records of the folder
    /// out of the store, enters what the store holds for its files into the
    /// cache, and decides which files a worker has to probe. A worker that
    /// was awaited before is given up.
    pub fn reload(&mut self, found: &Vec<FileEntry>) -> (load: FolderLoad)
        ensures
            is_listing(final(self).entries@, old(self).current_path@, found@),
            final(self).current_path == old(self).current_path,
            final(self).ui_mode == old(self).ui_mode,
            final(self).status == old(self).status,
            final(self).selected_index == if final(self).entries@.len() == 0 {
                0
            } else if old(self).selected_index >= final(self).entries@.len() {
                final(self).entries@.len() - 1
            } else {
                old(self).selected_index as int
            },
            load.synced ==> final(self).stored() == old(self).stored().remove_keys(
                stale_keys(old(self).current_path@, audio_paths(final(self).entries@)),
            ),
            load.synced ==> final(self).saved() == final(self).stored(),
            !old(self).store_available() ==> !load.synced && final(self).stored() == old(
                self,
            ).stored(),
            final(self).store_available() == old(self).store_available(),
            loaded_from(
                final(self).cache(),
                old(self).cache(),
                final(self).stored(),
                audio_paths(final(self).entries@),
            ),
            texts(load.pending@) == pending_probes(
                audio_paths(final(self).entries@),
                final(self).cache(),
            ),
            texts(load.pending@).no_duplicates(),
            final(self).prefetch_active() == (load.pending@.len() > 0),
    {
        self.entries = list_folder(self.current_path.as_str(), found);

        if self.entries.len() == 0 {
            self.selected_index = 0;
            self.durations.prefetch_live = false;
            let none: Vec<String> = Vec::new();
            let synced = self.sync_folder_db(&none);
            assert(texts(none@) =~= audio_paths(self.entries@));
            assert(texts(none@).no_duplicates());
            return FolderLoad { pending: none, synced };
        }
        if self.selected_index >= self.entries.len() {
            self.selected_index = self.entries.len() - 1;
        }
        let folder_audio_paths = self.current_folder_audio_paths();
        let synced = self.sync_folder_db(&folder_audio_paths);
        self.load_cached_folder_durations(&folder_audio_paths);
        let pending = self.start_duration_prefetch(folder_audio_paths);
        FolderLoad { pending, synced }
    }

    /// Goes to the folder spelled `path`, in which `found` was found, with
    /// the selection on its first line, and loads it.
    pub fn enter_directory(&mut self, path: String, found: &Vec<FileEntry>) -> (load: FolderLoad)
        ensures
            is_listing(final(self).entries@, path@, found@),
            final(self).current_path == path,
            final(self).ui_mode == old(self).ui_mode,
            final(self).status == old(self).status,
            final(self).selected_index == 0,
            load.synced ==> final(self).stored() == old(self).stored().remove_keys(
                stale_keys(path@, audio_paths(final(self).entries@)),
            ),
            load.synced ==> final(self).saved() == final(self).stored(),
            !old(self).store_available() ==> !load.synced && final(self).stored() == old(
                self,
            ).stored(),
            final(self).store_available() == old(self).store_available(),
            loaded_from(
                final(self).cache(),
                old(self).cache(),
                final(self).stored(),
                audio_paths(final(self).entries@),
            ),
            texts(load.pending@) == pending_probes(
                audio_paths(final(self).entries@),
                final(self).cache(),
            ),
            texts(load.pending@).no_duplicates(),
            final(self).prefetch_active() == (load.pending@.len() > 0),
    {
        self.current_path = path;
        self.selected_index = 0;
        self.reload(found)
    }

    /// The entry under the selection, if the selection is on one.
    pub fn selected_entry(&self) -> (entry: Option<&FileEntry>)
        ensures
            self.selected_index < self.entries@.len() ==> entry == Some(
                &self.entries@[self.selected_index as int],
            ),
            self.selected_index >= self.entries@.len() ==> entry is None,
    {
        if self.selected_index < self.entries.len() {
            Some(&self.entries[self.selected_index])
        } else {
            None
        }
    }

    /// Moves the selection one line up, and leaves it on the first line.
    pub fn move_up(&mut self)
        ensures
            final(self).selected_index == if old(self).selected_index == 0 {
                0
            } else {
                old(self).selected_index - 1
            },
            final(self).ui_mode == old(self).ui_mode,
            final(self).current_path == old(self).current_path,
            final(self).entries == old(self).entries,
            final(self).status == old(self).status,
            final(self).cache() == old(self).cache(),
            final(self).stored() == old(self).stored(),
            final(self).prefetch_active() == old(self).prefetch_active(),
    {
        if self.selected_index > 0 {
            self.selected_index = self.selected_index - 1;
        }
    }

    /// Moves the selection one line down, and leaves it on the last line. In
    /// an empty folder the selection stays as it is.
    pub fn move_down(&mut self)
        ensures
            final(self).selected_index == if old(self).entries@.len() == 0 {
                old(self).selected_index as int
            } else if old(self).selected_index + 1 < old(self).entries@.len() {
                old(self).selected_index + 1
            } else {
                old(self).entries@.len() - 1
            },
            final(self).ui_mode == old(self).ui_mode,
            final(self).current_path == old(self).current_path,
            final(self).entries == old(self).entries,
            final(self).status == old(self).status,
            final(self).cache() == old(self).cache(),
            final(self).stored() == old(self).stored(),
            final(self).prefetch_active() == old(self).prefetch_active(),
    {
        let count: usize = self.entries.len();
        if count > 0 {
            if self.selected_index < count - 1 {
                self.selected_index = self.selected_index + 1;
            } else {
                self.selected_index = count - 1;
            }
        }
    }

    /// The cached duration of `path`; `None` where it is unknown or was not
    /// probed yet.
    pub fn cached_duration(&self, path: &str) -> (duration: Option<TimeSpan>)
        ensures
            span_nanos(duration) == if self.cache().contains_key(path@) {
                self.cache()[path@]
            } else {
                None
            },
    {
        match self.durations.known.get(path) {
            Some(value) => *value,
            None => None,
        }
    }

    /// Whether the path spelled `path` names an audio file.
    pub fn is_audio_file(path: &str) -> (audio: bool)
        ensures
            audio == audio_path(path@),
    {
        is_audio_file(path)
    }

    /// The paths of the listed files, each path once, in the order of the
    /// listing.
    fn current_folder_audio_paths(&self) -> (paths: Vec<String>)
        ensures
            texts(paths@) == audio_paths(self.entries@),
            texts(paths@).no_duplicates(),
    {
        let mut paths: Vec<String> = Vec::new();
        let mut taken: StringHashMap<bool> = StringHashMap::new();
        let count: usize = self.entries.len();
        let mut i: usize = 0;
        assert(texts(paths@) =~= audio_paths(self.entries@.subrange(0, 0)));
        while i < count
            invariant
                count == self.entries@.len(),
                i <= count,
                texts(paths@) == audio_paths(self.entries@.subrange(0, i as int)),
                forall|path: Seq<char>|
                    taken@.contains_key(path) == #[trigger] texts(paths@).contains(path),
            decreases count - i,
        {
            proof {
                let next = self.entries@.subrange(0, i + 1);
                assert(next.drop_last() =~= self.entries@.subrange(0, i as int));
                assert(next.last() == self.entries@[i as int]);
            }
            let entry = &self.entries[i];
            if !entry.is_dir && !taken.contains_key(entry.path.as_str()) {
                let ghost before = texts(paths@);
                paths.push(entry.path.clone());
                taken.insert(entry.path.clone(), true);
                proof {
                    let now = texts(paths@);
                    assert(now =~= before.push(entry.path@));
                    assert forall|path: Seq<char>|
                        taken@.contains_key(path) == #[trigger] now.contains(path) by {
                        assert(now[now.len() - 1] == entry.path@);
                        if before.contains(path) {
                            let j = choose|j: int| 0 <= j < before.len() && before[j] == path;
                            assert(now[j] == path);
                        }
                        if now.contains(path) {
                            let j = choose|j: int| 0 <= j < now.len() && now[j] == path;
                            if j < before.len() {
                                assert(before[j] == path);
                            }
                        }
                    }
                }
            }
            i = i + 1;
        }
        assert(self.entries@.subrange(0, count as int) =~= self.entries@);
        proof {
            lemma_audio_paths_distinct(self.entries@);
        }
        paths
    }

    /// Decides which files of the folder a worker has to probe: those that
    /// the cache has no entry for, in the order of the listing, and no others.
    /// With none to probe no worker is awaited, and one that was is given up.
    fn start_duration_prefetch(&mut self, folder_audio_paths: Vec<String>) -> (pending: Vec<String>)
        ensures
            texts(pending@) == pending_probes(texts(folder_audio_paths@), old(self).cache()),
            texts(folder_audio_paths@).no_duplicates() ==> texts(pending@).no_duplicates(),
            final(self).prefetch_active() == (pending@.len() > 0),
            final(self).same_display(old(self)),
            final(self).cache() == old(self).cache(),
            final(self).stored() == old(self).stored(),
            final(self).saved() == old(self).saved(),
            final(self).store_available() == old(self).store_available(),
    {
        let pending = self.durations.missing(&folder_audio_paths);
        self.durations.prefetch_live = pending.len() > 0;
        pending
    }

    /// Takes out of the store the records of files that are gone from the
    /// folder on display: the records whose key reads as a path in this
    /// folder that is not among `folder_audio_paths`. Records of other
    /// folders stay. The store is flushed afterwards.
    ///
    /// The store is asked for a listing of its records, `stale_among` picks
    /// the stale keys out of the listing, and the store is asked to take out
    /// each of them. Any of these requests may fail. A failed listing leaves
    /// nothing to take out; after a failed removal the others are still
    /// asked for, and nothing is known of the records.
    ///
    /// The result says whether the store listed its records, took out each
    /// stale one and flushed. Only then are the records known: they are the
    /// records as they were, without the stale ones, and all of them are
    /// durable, so that what was taken out stays out after a crash.
    fn sync_folder_db(&mut self, folder_audio_paths: &Vec<String>) -> (synced: bool)
        ensures
            synced ==> final(self).stored() == old(self).stored().remove_keys(
                stale_keys(old(self).current_path@, texts(folder_audio_paths@)),
            ),
            synced ==> final(self).saved() == final(self).stored(),
            !old(self).store_available() ==> !synced && final(self).stored() == old(
                self,
            ).stored(),
            final(self).store_available() == old(self).store_available(),
            final(self).same_display(old(self)),
            final(self).cache() == old(self).cache(),
            final(self).prefetch_active() == old(self).prefetch_active(),
    {
        let walked = self.durations.db.entries();
        let mut synced: bool = walked.is_some();
        if let Some(listed) = walked {
            let stale = stale_among(&listed, &self.current_path, folder_audio_paths);
            let ghost keys = key_views(stale@);
            let ghost folder = self.current_path@;
            let ghost paths = texts(folder_audio_paths@);
            let ghost records = self.stored();
            let count: usize = stale.len();
            let mut i: usize = 0;
            assert(records =~= records.remove_keys(first_keys(keys, 0)));
            while i < count
                invariant
                    count == stale@.len(),
                    i <= count,
                    keys == key_views(stale@),
                    records == old(self).stored(),
                    self.store_available(),
                    old(self).store_available(),
                    self.same_display(old(self)),
                    self.cache() == old(self).cache(),
                    self.prefetch_active() == old(self).prefetch_active(),
                    synced ==> self.stored() == records.remove_keys(first_keys(keys, i as int)),
                decreases count - i,
            {
                let removed = self.durations.db.remove(stale[i].as_slice());
                synced = synced && removed;
                proof {
                    let done = first_keys(keys, i as int);
                    let next = first_keys(keys, i + 1);
                    assert(next =~= done.insert(keys[i as int]));
                    assert(records.remove_keys(done).remove(keys[i as int]) =~= records.remove_keys(
                        next,
                    ));
                }
                i = i + 1;
            }
            proof {
                assert forall|key: Seq<u8>| #[trigger]
                    records.contains_key(key) implies first_keys(keys, count as int).contains(key)
                    == stale_key(key, folder, paths) by {
                    lemma_stale_listing(entry_keys(listed@), folder, paths, key);
                    let j = choose|j: int| 0 <= j < listed@.len() && listed@[j].0@ == key;
                    assert(entry_keys(listed@)[j] == key);
                    if keys.contains(key) {
                        let k = choose|k: int| 0 <= k < keys.len() && keys[k] == key;
                        assert(keys[k] == key);
                    }
                }
                assert(records.remove_keys(first_keys(keys, count as int)) =~= records.remove_keys(
                    stale_keys(folder, paths),
                ));
            }
        }
        let flushed = self.durations.db.flush();
        synced && flushed
    }

    /// Enters into the cache what the store holds for the files of the
    /// folder: the duration that each record reads as. A file without a
    /// record, or whose record the store fails to read, is left as it is.
    ///
    /// The store is asked for the record of each file in turn, and
    /// `enter_lookup` enters what came back. Whether a read succeeds is for
    /// the store to say, so each file is either as before or as its record.
    fn load_cached_folder_durations(&mut self, folder_audio_paths: &Vec<String>)
        ensures
            loaded_from(
                final(self).cache(),
                old(self).cache(),
                old(self).stored(),
                texts(folder_audio_paths@),
            ),
            final(self).stored() == old(self).stored(),
            final(self).saved() == old(self).saved(),
            final(self).store_available() == old(self).store_available(),
            final(self).same_display(old(self)),
            final(self).prefetch_active() == old(self).prefetch_active(),
    {
        let count: usize = folder_audio_paths.len();
        let mut i: usize = 0;
        while i < count
            invariant
                count == folder_audio_paths@.len(),
                i <= count,
                loaded_from(
                    self.cache(),
                    old(self).cache(),
                    old(self).stored(),
                    texts(folder_audio_paths@).subrange(0, i as int),
                ),
                self.stored() == old(self).stored(),
                self.saved() == old(self).saved(),
                self.store_available() == old(self).store_available(),
                self.same_display(old(self)),
                self.prefetch_active() == old(self).prefetch_active(),
            decreases count - i,
        {
            let path = &folder_audio_paths[i];
            let ghost before = self.cache();
            let ghost done = texts(folder_audio_paths@).subrange(0, i as int);
            let ghost next = texts(folder_audio_paths@).subrange(0, i + 1);
            let outcome = self.durations.db.get(path.as_str());
            self.enter_lookup(path, outcome);
            proof {
                assert(next[i as int] == path@);
                assert forall|p: Seq<char>| #![trigger self.cache().contains_key(p)]
                    same_entry(self.cache(), old(self).cache(), p) || (next.contains(p)
                        && loaded_entry(self.cache(), old(self).stored(), p)) by {
                    if done.contains(p) {
                        let j = choose|j: int| 0 <= j < done.len() && done[j] == p;
                        assert(next[j] == p);
                    }
                }
            }
            i = i + 1;
        }
        assert(texts(folder_audio_paths@).subrange(0, count as int) =~= texts(
            folder_audio_paths@,
        ));
    }

    /// Files the record of `duration` under `path` in the store. The result
    /// says whether the store took it: only then are the records known, and
    /// they are the records as they were with this one put under the key of
    /// `path`. Nothing else of the state changes.
    fn write_duration_to_db(&mut self, path: &str, duration: Option<TimeSpan>) -> (written: bool)
        ensures
            written ==> final(self).stored() == old(self).stored().insert(
                key_of(path@),
                record_of(span_nanos(duration)),
            ),
            !old(self).store_available() ==> !written && final(self).stored() == old(
                self,
            ).stored(),
            final(self).store_available() == old(self).store_available(),
            final(self).same_display(old(self)),
            final(self).cache() == old(self).cache(),
            final(self).prefetch_active() == old(self).prefetch_active(),
    {
        self.durations.db.put(path, duration)
    }

    /// Enters what the worker sent since the last call: each update goes into
    /// the cache and, as a record, into the store. `closed` says that the
    /// worker has finished; its results are then no longer waited for. Where
    /// no worker is awaited, nothing is entered.
    ///
    /// The result says whether the store took every record.
    pub fn update_background_jobs(&mut self, updates: Vec<DurationUpdate>, closed: bool) -> (persisted:
        bool)
        ensures
            final(self).same_display(old(self)),
            final(self).store_available() == old(self).store_available(),
            !old(self).prefetch_active() ==> {
                &&& final(self).cache() == old(self).cache()
                &&& final(self).stored() == old(self).stored()
                &&& !final(self).prefetch_active()
            },
            old(self).prefetch_active() ==> {
                &&& final(self).cache() == cache_after(old(self).cache(), updates_view(updates@))
                &&& final(self).prefetch_active() == !closed
                &&& persisted ==> final(self).stored() == records_after(
                    old(self).stored(),
                    updates_view(updates@),
                )
                &&& !old(self).store_available() ==> final(self).stored() == old(self).stored()
            },
    {
        if !self.durations.prefetch_live {
            return true;
        }
        let mut persisted: bool = true;
        let count: usize = updates.len();
        let mut i: usize = 0;
        while i < count
            invariant
                count == updates@.len(),
                i <= count,
                self.same_display(old(self)),
                self.store_available() == old(self).store_available(),
                self.prefetch_active(),
                self.cache() == cache_after(
                    old(self).cache(),
                    updates_view(updates@.subrange(0, i as int)),
                ),
                persisted ==> self.stored() == records_after(
                    old(self).stored(),
                    updates_view(updates@.subrange(0, i as int)),
                ),
                !old(self).store_available() ==> self.stored() == old(self).stored(),
            decreases count - i,
        {
            let update = &updates[i];
            let ghost before = self.cache();
            self.durations.known.insert(update.path.clone(), update.duration);
            assert(self.cache() =~= before.insert(update.path@, span_nanos(update.duration)));
            let written = self.write_duration_to_db(update.path.as_str(), update.duration);
            persisted = persisted && written;
            proof {
                let done = updates_view(updates@.subrange(0, i as int));
                let next = updates_view(updates@.subrange(0, i + 1));
                assert(next.drop_last() =~= done);
                assert(next.last() == (update.path@, span_nanos(update.duration)));
            }
            i = i + 1;
        }
        assert(updates@.subrange(0, count as int) =~= updates@);
        if closed {
            self.durations.prefetch_live = false;
        }
        persisted
    }
}

impl App {
    /// Enters into the cache what a read of the store gave for `path`: the
    /// duration that a record reads as. After a miss the cache is as before.
    pub fn enter_lookup(&mut self, path: &String, outcome: Option<Option<TimeSpan>>)
        ensures
            outcome matches Some(duration) ==> final(self).cache() == old(self).cache().insert(
                path@,
                span_nanos(duration),
            ),
            outcome is None ==> final(self).cache() == old(self).cache(),
            final(self).stored() == old(self).stored(),
            final(self).saved() == old(self).saved(),
            final(self).store_available() == old(self).store_available(),
            final(self).same_display(old(self)),
            final(self).prefetch_active() == old(self).prefetch_active(),
    {
        if let Some(duration) = outcome {
            let ghost before = self.cache();
            self.durations.known.insert(path.clone(), duration);
            assert(self.cache() =~= before.insert(path@, span_nanos(duration)));
        }
    }
}

/// The bytes of each key.
pub open spec fn key_views(keys: Seq<Vec<u8>>) -> Seq<Seq<u8>> {
    keys.map_values(|key: Vec<u8>| key@)
}

/// The key of each entry of a listing of the store.
pub open spec fn entry_keys(listed: Seq<(Vec<u8>, Vec<u8>)>) -> Seq<Seq<u8>> {
    listed.map_values(|entry: (Vec<u8>, Vec<u8>)| entry.0@)
}

/// The keys among `keys` that are stale for the folder spelled `folder` with
/// the files `paths`, in their order.
pub open spec fn stale_listing(
    keys: Seq<Seq<u8>>,
    folder: Seq<char>,
    paths: Seq<Seq<char>>,
) -> Seq<Seq<u8>>
    decreases keys.len(),
{
    if keys.len() == 0 {
        Seq::empty()
    } else if stale_key(keys.last(), folder, paths) {
        stale_listing(keys.drop_last(), folder, paths).push(keys.last())
    } else {
        stale_listing(keys.drop_last(), folder, paths)
    }
}

/// A key is among the stale ones of a listing exactly if it is listed and
/// stale.
pub proof fn lemma_stale_listing(
    keys: Seq<Seq<u8>>,
    folder: Seq<char>,
    paths: Seq<Seq<char>>,
    key: Seq<u8>,
)
    ensures
        stale_listing(keys, folder, paths).contains(key) <==> keys.contains(key) && stale_key(
            key,
            folder,
            paths,
        ),
    decreases keys.len(),
{
    if keys.len() > 0 {
        let rest = keys.drop_last();
        let last = keys.last();
        lemma_stale_listing(rest, folder, paths, key);
        let stale = stale_listing(rest, folder, paths);
        if keys.contains(key) {
            let i = choose|i: int| 0 <= i < keys.len() && keys[i] == key;
            if i < rest.len() {
                assert(rest[i] == key);
            }
        }
        if rest.contains(key) {
            let i = choose|i: int| 0 <= i < rest.len() && rest[i] == key;
            assert(keys[i] == key);
        }
        assert(keys[keys.len() - 1] == last);
        if stale_key(last, folder, paths) {
            let more = stale.push(last);
            assert(more[more.len() - 1] == last);
            if stale.contains(key) {
                let i = choose|i: int| 0 <= i < stale.len() && stale[i] == key;
                assert(more[i] == key);
            }
            if more.contains(key) {
                let i = choose|i: int| 0 <= i < more.len() && more[i] == key;
                if i < stale.len() {
                    assert(stale[i] == key);
                }
            }
        }
    }
}

/// Picks out of a listing of the store the keys that are stale for the
/// folder spelled `folder` with the files `paths`: those that read as a path
/// whose directory is the folder and that no file of the folder has.
pub fn stale_among(listed: &Vec<(Vec<u8>, Vec<u8>)>, folder: &String, paths: &Vec<String>) -> (stale:
    Vec<Vec<u8>>)
    ensures
        key_views(stale@) == stale_listing(entry_keys(listed@), folder@, texts(paths@)),
{
    let mut stale: Vec<Vec<u8>> = Vec::new();
    let count: usize = listed.len();
    let mut i: usize = 0;
    assert(key_views(stale@) =~= stale_listing(
        entry_keys(listed@).subrange(0, 0),
        folder@,
        texts(paths@),
    ));
    while i < count
        invariant
            count == listed@.len(),
            i <= count,
            key_views(stale@) == stale_listing(
                entry_keys(listed@).subrange(0, i as int),
                folder@,
                texts(paths@),
            ),
        decreases count - i,
    {
        let key = &listed[i].0;
        let text = text_from_bytes(key.as_slice());
        let in_folder = match parent_of(text.as_str()) {
            Some(parent) => parent == *folder,
            None => false,
        };
        proof {
            let next = entry_keys(listed@).subrange(0, i + 1);
            assert(next.drop_last() =~= entry_keys(listed@).subrange(0, i as int));
            assert(next.last() == key@);
        }
        if in_folder && !contains_path(paths, &text) {
            let ghost before = key_views(stale@);
            stale.push(slice_to_vec(key.as_slice()));
            assert(key_views(stale@) =~= before.push(key@));
        }
        i = i + 1;
    }
    assert(entry_keys(listed@).subrange(0, count as int) =~= entry_keys(listed@));
    stale
}

} // verus!
