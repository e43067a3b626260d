use mp3_tui::app::{contains_path, stale_among, App, DurationUpdate, UiMode};
use mp3_tui::listing::FileEntry;
use mp3_tui::store::DurationStore;
use mp3_tui::timespan::TimeSpan;

fn temporary_store() -> DurationStore {
    DurationStore::with_db(sled::Config::new().temporary(true).open().unwrap())
}

fn file(folder: &str, name: &str) -> FileEntry {
    FileEntry { name: name.to_string(), path: format!("{}/{}", folder, name), is_dir: false }
}

fn dir(folder: &str, name: &str) -> FileEntry {
    FileEntry { name: name.to_string(), path: format!("{}/{}", folder, name), is_dir: true }
}

fn update(path: &str, millis: Option<u64>) -> DurationUpdate {
    DurationUpdate { path: path.to_string(), duration: millis.map(TimeSpan::from_millis) }
}

#[test]
fn a_new_app_shows_nothing() {
    let app = App::new("/music".to_string(), DurationStore::unavailable());
    assert_eq!(app.ui_mode, UiMode::Default);
    assert_eq!(app.current_path, "/music");
    assert!(app.entries.is_empty());
    assert_eq!(app.selected_index, 0);
    assert_eq!(app.status, None);
    assert_eq!(app.selected_entry(), None);
    assert_eq!(app.cached_duration("/music/a.mp3"), None);
}

#[test]
fn folder_sync_removes_what_is_gone_and_loads_what_is_left() {
    let mut store = temporary_store();
    assert!(store.put("/F/a.mp3", Some(TimeSpan::from_millis(1000))));
    assert!(store.put("/F/b.mp3", Some(TimeSpan::from_millis(2000))));
    assert!(store.put("/F/c.mp3", Some(TimeSpan::from_millis(3000))));
    let mut app = App::new("/F".to_string(), store);
    let load = app.reload(&vec![file("/F", "a.mp3"), file("/F", "c.mp3")]);
    assert!(load.synced);
    assert!(load.pending.is_empty());
    assert_eq!(app.cached_duration("/F/a.mp3"), Some(TimeSpan::from_millis(1000)));
    assert_eq!(app.cached_duration("/F/c.mp3"), Some(TimeSpan::from_millis(3000)));
    assert_eq!(app.cached_duration("/F/b.mp3"), None);
    let mut keys: Vec<Vec<u8>> =
        app.durations.store().entries().unwrap().into_iter().map(|(key, _)| key).collect();
    keys.sort();
    assert_eq!(keys, vec![b"/F/a.mp3".to_vec(), b"/F/c.mp3".to_vec()]);
}

#[test]
fn folder_sync_leaves_other_folders_alone() {
    let mut store = temporary_store();
    assert!(store.put("/F/gone.mp3", None));
    assert!(store.put("/G/other.mp3", Some(TimeSpan::from_secs(9))));
    assert!(store.put("/F/sub/deep.mp3", Some(TimeSpan::from_secs(8))));
    assert!(store.put("/F", Some(TimeSpan::from_secs(7))));
    let mut app = App::new("/F".to_string(), store);
    let load = app.reload(&Vec::new());
    assert!(load.synced);
    let mut keys: Vec<Vec<u8>> =
        app.durations.store().entries().unwrap().into_iter().map(|(key, _)| key).collect();
    keys.sort();
    assert_eq!(keys, vec![b"/F".to_vec(), b"/F/sub/deep.mp3".to_vec(), b"/G/other.mp3".to_vec()]);
}

#[test]
fn folder_sync_clears_an_emptied_root() {
    let mut store = temporary_store();
    assert!(store.put("/gone.mp3", None));
    let mut app = App::new("/".to_string(), store);
    let load = app.reload(&Vec::new());
    assert!(app.entries.is_empty());
    assert!(load.synced);
    assert!(load.pending.is_empty());
    assert_eq!(app.durations.store().entries(), Some(Vec::new()));
}

#[test]
fn without_a_store_nothing_is_synced_and_all_is_probed() {
    let mut app = App::new("/F".to_string(), DurationStore::unavailable());
    let load = app.reload(&vec![file("/F", "b.mp3"), file("/F", "a.mp3"), dir("/F", "sub")]);
    assert!(!load.synced);
    assert_eq!(load.pending, vec!["/F/a.mp3".to_string(), "/F/b.mp3".to_string()]);
    assert_eq!(app.entries.len(), 4);
    assert_eq!(app.entries[0].name, "..");
    assert_eq!(app.entries[1].name, "sub");
}

#[test]
fn prefetch_fills_the_cache_for_every_file() {
    let mut app = App::new("/F".to_string(), temporary_store());
    let found = vec![file("/F", "c.mp3"), file("/F", "a.mp3"), file("/F", "b.flac"), dir("/F", "d")];
    let load = app.reload(&found);
    assert_eq!(
        load.pending,
        vec!["/F/a.mp3".to_string(), "/F/b.flac".to_string(), "/F/c.mp3".to_string()]
    );
    let updates = vec![
        update("/F/a.mp3", Some(1000)),
        update("/F/b.flac", None),
        update("/F/c.mp3", Some(3000)),
    ];
    assert!(app.update_background_jobs(updates, true));
    assert_eq!(app.cached_duration("/F/a.mp3"), Some(TimeSpan::from_millis(1000)));
    assert_eq!(app.cached_duration("/F/b.flac"), None);
    assert_eq!(app.cached_duration("/F/c.mp3"), Some(TimeSpan::from_millis(3000)));
    assert_eq!(app.durations.len(), 3);
    assert_eq!(app.durations.store().get("/F/b.flac"), Some(None));
    assert_eq!(app.durations.store().get("/F/c.mp3"), Some(Some(TimeSpan::from_millis(3000))));
    let again = app.reload(&found);
    assert!(again.pending.is_empty());
}

#[test]
fn only_the_files_of_the_new_folder_are_asked_for() {
    let mut app = App::new("/F".to_string(), temporary_store());
    let first = app.reload(&vec![file("/F", "a.mp3"), file("/F", "b.mp3")]);
    assert_eq!(first.pending.len(), 2);
    let second = app.enter_directory(
        "/G".to_string(),
        &vec![file("/G", "x.mp3"), file("/G", "y.mp3"), dir("/G", "z")],
    );
    assert_eq!(second.pending, vec!["/G/x.mp3".to_string(), "/G/y.mp3".to_string()]);
    assert_eq!(app.current_path, "/G");
    assert_eq!(app.selected_index, 0);
}

#[test]
fn updates_are_dropped_when_no_worker_is_awaited() {
    let mut app = App::new("/F".to_string(), temporary_store());
    assert!(app.update_background_jobs(vec![update("/F/a.mp3", Some(1))], false));
    assert_eq!(app.durations.len(), 0);
    assert_eq!(app.durations.store().get("/F/a.mp3"), None);
    assert!(!app.durations.is_prefetching());
}

#[test]
fn a_closed_channel_ends_the_wait() {
    let mut app = App::new("/F".to_string(), DurationStore::unavailable());
    let load = app.reload(&vec![file("/F", "a.mp3"), file("/F", "b.mp3")]);
    assert_eq!(load.pending.len(), 2);
    assert!(app.durations.is_prefetching());
    assert!(app.update_background_jobs(Vec::new(), false));
    assert!(app.durations.is_prefetching());
    assert!(!app.update_background_jobs(vec![update("/F/a.mp3", Some(5))], false));
    assert!(app.durations.is_prefetching());
    assert_eq!(app.cached_duration("/F/a.mp3"), Some(TimeSpan::from_millis(5)));
    assert!(!app.update_background_jobs(vec![update("/F/b.mp3", None)], true));
    assert!(!app.durations.is_prefetching());
    assert!(app.update_background_jobs(vec![update("/F/c.mp3", Some(7))], false));
    assert_eq!(app.durations.len(), 2);
}

#[test]
fn the_last_update_of_a_path_stays() {
    let mut app = App::new("/F".to_string(), temporary_store());
    app.reload(&vec![file("/F", "a.mp3")]);
    let updates = vec![update("/F/a.mp3", Some(1)), update("/F/a.mp3", None), update("/F/a.mp3", Some(3))];
    assert!(app.update_background_jobs(updates, false));
    assert_eq!(app.cached_duration("/F/a.mp3"), Some(TimeSpan::from_millis(3)));
    assert_eq!(app.durations.store().get("/F/a.mp3"), Some(Some(TimeSpan::from_millis(3))));
    assert_eq!(app.durations.len(), 1);
}

#[test]
fn an_empty_folder_gives_up_the_worker() {
    let mut app = App::new("/".to_string(), DurationStore::unavailable());
    app.reload(&vec![file("", "a.mp3")]);
    assert!(app.durations.is_prefetching());
    app.selected_index = 5;
    let load = app.reload(&Vec::new());
    assert!(load.pending.is_empty());
    assert!(!app.durations.is_prefetching());
    assert_eq!(app.selected_index, 0);
}

#[test]
fn the_selection_stays_on_the_list() {
    let mut app = App::new("/F".to_string(), DurationStore::unavailable());
    let found = vec![file("/F", "a.mp3"), file("/F", "b.mp3"), file("/F", "c.mp3")];
    app.reload(&found);
    assert_eq!(app.entries.len(), 4);
    app.selected_index = 9;
    app.reload(&found);
    assert_eq!(app.selected_index, 3);
    app.selected_index = 2;
    app.reload(&found);
    assert_eq!(app.selected_index, 2);
    assert_eq!(app.selected_entry().unwrap().name, "b.mp3");
}

#[test]
fn moving_the_selection() {
    let mut app = App::new("/F".to_string(), DurationStore::unavailable());
    app.move_down();
    assert_eq!(app.selected_index, 0);
    app.move_up();
    assert_eq!(app.selected_index, 0);
    app.reload(&vec![file("/F", "a.mp3"), file("/F", "b.mp3")]);
    app.move_down();
    assert_eq!(app.selected_index, 1);
    app.move_down();
    assert_eq!(app.selected_index, 2);
    app.move_down();
    assert_eq!(app.selected_index, 2);
    app.move_up();
    assert_eq!(app.selected_index, 1);
    app.selected_index = 40;
    app.move_down();
    assert_eq!(app.selected_index, 2);
    app.selected_index = 40;
    app.move_up();
    assert_eq!(app.selected_index, 39);
    assert_eq!(app.selected_entry(), None);
}

#[test]
fn looking_for_a_path_among_paths() {
    let paths = vec!["/F/a.mp3".to_string(), "/F/b.mp3".to_string()];
    assert!(contains_path(&paths, &"/F/b.mp3".to_string()));
    assert!(!contains_path(&paths, &"/F/B.mp3".to_string()));
    assert!(!contains_path(&Vec::new(), &"/F/a.mp3".to_string()));
}

#[test]
fn a_key_that_is_not_text_is_read_lossily() {
    let db = sled::Config::new().temporary(true).open().unwrap();
    db.insert(vec![b'/', b'F', b'/', 0xff, b'.', b'm', b'p', b'3'], vec![0u8]).unwrap();
    db.insert(b"/F/keep.mp3".to_vec(), vec![0u8]).unwrap();
    let mut app = App::new("/F".to_string(), DurationStore::with_db(db));
    let load = app.reload(&vec![file("/F", "keep.mp3")]);
    assert!(load.synced);
    assert_eq!(
        app.durations.store().entries(),
        Some(vec![(b"/F/keep.mp3".to_vec(), vec![0u8])])
    );
}

#[test]
fn stale_keys_are_picked_in_the_order_of_the_listing() {
    let broken = vec![b'/', b'F', b'/', 0xff, b'.', b'm', b'p', b'3'];
    let listed = vec![
        (b"/F".to_vec(), vec![0u8]),
        (b"/F/a.mp3".to_vec(), vec![0u8]),
        (b"/F/b.mp3".to_vec(), vec![1u8, 1, 0, 0, 0, 0, 0, 0, 0]),
        (broken.clone(), vec![0u8]),
        (b"/F/sub/c.mp3".to_vec(), vec![0u8]),
        (b"/G/b.mp3".to_vec(), vec![0u8]),
        (b"/F/z.mp3".to_vec(), Vec::new()),
    ];
    let folder = "/F".to_string();
    let files = vec!["/F/a.mp3".to_string()];
    assert_eq!(
        stale_among(&listed, &folder, &files),
        vec![b"/F/b.mp3".to_vec(), broken.clone(), b"/F/z.mp3".to_vec()]
    );
    assert_eq!(
        stale_among(&listed, &folder, &Vec::new()),
        vec![b"/F/a.mp3".to_vec(), b"/F/b.mp3".to_vec(), broken, b"/F/z.mp3".to_vec()]
    );
    assert_eq!(
        stale_among(&listed, &"/G".to_string(), &vec!["/G/b.mp3".to_string()]),
        Vec::<Vec<u8>>::new()
    );
    assert_eq!(stale_among(&listed, &"/".to_string(), &files), vec![b"/F".to_vec()]);
    assert_eq!(stale_among(&Vec::new(), &folder, &files), Vec::<Vec<u8>>::new());
}

#[test]
fn what_a_read_gave_is_entered() {
    let mut app = App::new("/F".to_string(), DurationStore::unavailable());
    let path = "/F/a.mp3".to_string();
    app.enter_lookup(&path, None);
    assert_eq!(app.durations.len(), 0);
    app.enter_lookup(&path, Some(Some(TimeSpan::from_millis(3000))));
    assert_eq!(app.durations.len(), 1);
    assert_eq!(app.cached_duration("/F/a.mp3"), Some(TimeSpan::from_millis(3000)));
    app.enter_lookup(&path, None);
    assert_eq!(app.cached_duration("/F/a.mp3"), Some(TimeSpan::from_millis(3000)));
    app.enter_lookup(&"/F/b.mp3".to_string(), Some(None));
    assert_eq!(app.durations.len(), 2);
    assert_eq!(app.cached_duration("/F/b.mp3"), None);
    app.enter_lookup(&path, Some(None));
    assert_eq!(app.durations.len(), 2);
    assert_eq!(app.cached_duration("/F/a.mp3"), None);
    let load = app.reload(&vec![FileEntry {
        name: "b.mp3".to_string(),
        path: "/F/b.mp3".to_string(),
        is_dir: false,
    }]);
    assert!(load.pending.is_empty());
}

#[test]
fn a_path_that_is_found_twice_is_asked_for_once() {
    let mut app = App::new("/F".to_string(), DurationStore::unavailable());
    let found = vec![file("/F", "b.mp3"), file("/F", "a.mp3"), file("/F", "b.mp3"), file("/F", "a.mp3")];
    let load = app.reload(&found);
    assert_eq!(load.pending, vec!["/F/a.mp3".to_string(), "/F/b.mp3".to_string()]);
    assert_eq!(app.entries.len(), 5);
}

#[test]
fn the_paths_that_are_still_to_be_probed() {
    let mut app = App::new("/F".to_string(), temporary_store());
    let paths = vec!["/F/c.mp3".to_string(), "/F/a.mp3".to_string(), "/F/b.mp3".to_string()];
    assert_eq!(app.durations.missing(&paths), paths);
    app.enter_lookup(&"/F/a.mp3".to_string(), Some(None));
    assert_eq!(
        app.durations.missing(&paths),
        vec!["/F/c.mp3".to_string(), "/F/b.mp3".to_string()]
    );
    app.enter_lookup(&"/F/c.mp3".to_string(), Some(Some(TimeSpan::from_secs(1))));
    app.enter_lookup(&"/F/b.mp3".to_string(), Some(Some(TimeSpan::from_secs(2))));
    assert_eq!(app.durations.missing(&paths), Vec::<String>::new());
    assert_eq!(app.durations.missing(&Vec::new()), Vec::<String>::new());
}

#[test]
fn a_sync_that_succeeds_has_flushed() {
    let mut store = DurationStore::open("/tmp/mp3-tui-test-sync-flush");
    assert!(store.is_available());
    assert!(store.put("/F/gone.mp3", Some(TimeSpan::from_secs(1))));
    assert!(store.put("/F/kept.mp3", Some(TimeSpan::from_secs(2))));
    let mut app = App::new("/F".to_string(), store);
    let load = app.reload(&vec![file("/F", "kept.mp3")]);
    assert!(load.synced);
    drop(app);
    let again = DurationStore::open("/tmp/mp3-tui-test-sync-flush");
    assert!(again.is_available());
    assert_eq!(again.get("/F/gone.mp3"), None);
    assert_eq!(again.get("/F/kept.mp3"), Some(Some(TimeSpan::from_secs(2))));
}
