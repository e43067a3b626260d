use mp3_tui::store::{listing_outcome, lookup_outcome, taken, DurationStore};
use mp3_tui::timespan::TimeSpan;

fn temporary_store() -> DurationStore {
    DurationStore::with_db(sled::Config::new().temporary(true).open().unwrap())
}

#[test]
fn a_record_that_was_put_is_read_back() {
    let mut store = temporary_store();
    assert!(store.is_available());
    assert_eq!(store.get("/m/a.mp3"), None);
    assert!(store.put("/m/a.mp3", Some(TimeSpan::from_millis(3000))));
    assert_eq!(store.get("/m/a.mp3"), Some(Some(TimeSpan::from_millis(3000))));
    assert_eq!(store.get("/m/b.mp3"), None);
}

#[test]
fn an_unknown_duration_is_a_record_too() {
    let mut store = temporary_store();
    assert!(store.put("/m/a.mp3", None));
    assert_eq!(store.get("/m/a.mp3"), Some(None));
}

#[test]
fn a_later_record_replaces_an_earlier_one() {
    let mut store = temporary_store();
    assert!(store.put("/m/a.mp3", None));
    assert!(store.put("/m/a.mp3", Some(TimeSpan::from_millis(42))));
    assert_eq!(store.get("/m/a.mp3"), Some(Some(TimeSpan::from_millis(42))));
    assert_eq!(store.entries().unwrap().len(), 1);
}

#[test]
fn records_are_kept_at_millisecond_precision() {
    let mut store = temporary_store();
    assert!(store.put("/m/a.mp3", Some(TimeSpan::from_nanos(1_999_999_999))));
    assert_eq!(store.get("/m/a.mp3"), Some(Some(TimeSpan::from_millis(1999))));
}

#[test]
fn spellings_of_a_path_are_different_keys() {
    let mut store = temporary_store();
    assert!(store.put("/m/a.mp3", Some(TimeSpan::from_secs(1))));
    assert_eq!(store.get("/m/./a.mp3"), None);
    assert_eq!(store.get("/m/A.mp3"), None);
    assert_eq!(store.get("/m//a.mp3"), None);
}

#[test]
fn a_removed_record_is_gone() {
    let mut store = temporary_store();
    assert!(store.put("/m/a.mp3", Some(TimeSpan::from_secs(1))));
    assert!(store.put("/m/b.mp3", Some(TimeSpan::from_secs(2))));
    assert!(store.remove(b"/m/a.mp3"));
    assert_eq!(store.get("/m/a.mp3"), None);
    assert_eq!(store.get("/m/b.mp3"), Some(Some(TimeSpan::from_secs(2))));
    assert!(store.remove(b"/m/a.mp3"));
    assert!(store.remove(b"/never/there"));
    assert_eq!(store.entries().unwrap().len(), 1);
}

#[test]
fn entries_list_keys_and_raw_records() {
    let mut store = temporary_store();
    assert_eq!(store.entries(), Some(Vec::new()));
    assert!(store.put("/m/b.mp3", None));
    assert!(store.put("/m/a.mp3", Some(TimeSpan::from_millis(1500))));
    let mut entries = store.entries().unwrap();
    entries.sort();
    assert_eq!(
        entries,
        vec![
            (b"/m/a.mp3".to_vec(), vec![1u8, 0xdc, 0x05, 0, 0, 0, 0, 0, 0]),
            (b"/m/b.mp3".to_vec(), vec![0u8]),
        ]
    );
}

#[test]
fn a_foreign_record_reads_as_unknown() {
    let db = sled::Config::new().temporary(true).open().unwrap();
    db.insert(b"/m/a.mp3", b"not a record".to_vec()).unwrap();
    db.insert(b"/m/b.mp3", vec![1u8, 1, 2, 3]).unwrap();
    let store = DurationStore::with_db(db);
    assert_eq!(store.get("/m/a.mp3"), Some(None));
    assert_eq!(store.get("/m/b.mp3"), Some(None));
}

#[test]
fn flush_succeeds_on_an_open_store() {
    let mut store = temporary_store();
    assert!(store.put("/m/a.mp3", None));
    assert!(store.flush());
}

#[test]
fn an_unavailable_store_keeps_nothing() {
    let mut store = DurationStore::unavailable();
    assert!(!store.is_available());
    assert!(!store.put("/m/a.mp3", Some(TimeSpan::from_secs(1))));
    assert_eq!(store.get("/m/a.mp3"), None);
    assert!(!store.remove(b"/m/a.mp3"));
    assert_eq!(store.entries(), None);
    assert!(!store.flush());
}

#[test]
fn a_store_that_cannot_be_opened_is_unavailable() {
    let store = DurationStore::open("/dev/null/no-such-directory/cache");
    assert!(!store.is_available());
}

#[test]
fn what_a_read_means() {
    assert_eq!(lookup_outcome(Ok(None)), None);
    assert_eq!(lookup_outcome(Ok(Some(vec![0u8]))), Some(None));
    assert_eq!(
        lookup_outcome(Ok(Some(vec![1u8, 1, 0, 0, 0, 0, 0, 0, 0]))),
        Some(Some(TimeSpan::from_millis(1)))
    );
    assert_eq!(lookup_outcome(Ok(Some(Vec::new()))), Some(None));
    assert_eq!(lookup_outcome(Err(sled::Error::Unsupported("closed".to_string()))), None);
}

#[test]
fn what_an_attempt_to_open_means() {
    let db = sled::Config::new().temporary(true).open().unwrap();
    db.insert(b"/m/a.mp3", vec![0u8]).unwrap();
    let store = DurationStore::from_opened(Ok(db));
    assert!(store.is_available());
    assert_eq!(store.get("/m/a.mp3"), Some(None));
    let store = DurationStore::from_opened(Err(sled::Error::Unsupported("locked".to_string())));
    assert!(!store.is_available());
    assert_eq!(store.get("/m/a.mp3"), None);
}

#[test]
fn what_the_answer_to_a_write_means() {
    assert!(taken(Ok::<Option<Vec<u8>>, sled::Error>(None)));
    assert!(taken(Ok::<Option<Vec<u8>>, sled::Error>(Some(vec![1u8]))));
    assert!(taken(Ok::<usize, sled::Error>(0)));
    assert!(!taken(Err::<usize, sled::Error>(sled::Error::Unsupported("read only".to_string()))));
    assert!(!taken(Err::<Option<Vec<u8>>, sled::Error>(sled::Error::ReportableBug(String::new()))));
}

#[test]
fn what_a_walk_means() {
    let entries = vec![(b"/m/a.mp3".to_vec(), vec![0u8]), (b"/m/b.mp3".to_vec(), vec![1u8, 2])];
    assert_eq!(listing_outcome(Ok(entries.clone())), Some(entries));
    assert_eq!(listing_outcome(Ok(Vec::new())), Some(Vec::new()));
    assert_eq!(listing_outcome(Err(sled::Error::Unsupported("closed".to_string()))), None);
}

#[test]
fn what_was_flushed_is_there_when_the_store_is_opened_again() {
    let mut store = DurationStore::open("/tmp/mp3-tui-test-reopen");
    assert!(store.is_available());
    assert!(store.put("/m/a.mp3", Some(TimeSpan::from_millis(1234))));
    assert!(store.put("/m/b.mp3", None));
    assert!(store.remove(b"/m/b.mp3"));
    assert!(store.flush());
    drop(store);
    let again = DurationStore::open("/tmp/mp3-tui-test-reopen");
    assert!(again.is_available());
    assert_eq!(again.get("/m/a.mp3"), Some(Some(TimeSpan::from_millis(1234))));
    assert_eq!(again.get("/m/b.mp3"), None);
}

#[test]
fn a_store_that_is_open_cannot_be_opened_twice() {
    let first = DurationStore::open("/tmp/mp3-tui-test-locked");
    assert!(first.is_available());
    let second = DurationStore::open("/tmp/mp3-tui-test-locked");
    assert!(!second.is_available());
    assert_eq!(second.get("/m/a.mp3"), None);
}
