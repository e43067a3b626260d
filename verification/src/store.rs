//! The persistent store of duration records, kept in a `sled` database.
//!
//! A record is filed under the UTF-8 bytes of the path it belongs to. The
//! store is a cache and never a dependency: an operation that the database
//! fails leaves the caller with a miss, and says so in its result.

use vstd::prelude::*;
use vstd::string::*;
use vstd::utf8::encode_utf8;
use crate::codec::{decode_duration, duration_of, encode_duration, record_of};
use crate::timespan::{span_nanos, TimeSpan};

verus! {

/// `sled::Db`, a handle on an open database. Nothing inside it is visible
/// here; what it holds is spoken of through `db_records`.
#[verifier::external_type_specification]
#[verifier::external_body]
pub struct ExDb(sled::Db);

/// `sled::Error`, what a failed operation of the database hands back. It is
/// carried through and never looked into.
#[verifier::external_type_specification]
#[verifier::external_body]
pub struct ExDbError(sled::Error);

/// The records that the default tree of a database holds, by key.
pub uninterp spec fn db_records(db: sled::Db) -> Map<Seq<u8>, Seq<u8>>;

/// The records that a database has made durable: those that opening it
/// again after a crash recovers.
pub uninterp spec fn db_durable(db: sled::Db) -> Map<Seq<u8>, Seq<u8>>;

/// Whether `entries` lists `records`: every entry is a record, every record
/// has an entry, and no key is listed twice.
pub open spec fn lists_records(
    entries: Seq<(Vec<u8>, Vec<u8>)>,
    records: Map<Seq<u8>, Seq<u8>>,
) -> bool {
    &&& forall|i: int|
        0 <= i < entries.len() ==> records.contains_key(#[trigger] entries[i].0@)
            && records[entries[i].0@] == entries[i].1@
    &&& forall|key: Seq<u8>| #[trigger]
        records.contains_key(key) ==> exists|i: int|
            0 <= i < entries.len() && #[trigger] entries[i].0@ == key
    &&& forall|i: int, j: int|
        0 <= i < j < entries.len() ==> #[trigger] entries[i].0@ != #[trigger] entries[j].0@
}

/// Calls `sled::open`, which opens the database at `path` or creates it.
/// Trusted without a claim: what it finds depends on what is on disk.
#[verifier::external_body]
fn db_open(path: &str) -> (opened: Result<sled::Db, sled::Error>) {
    sled::open(path)
}

/// Calls `sled::Tree::get` on the default tree. Trusted: a value that is
/// found is the record under `key`, and `Ok(None)` means that there is none.
#[verifier::external_body]
fn db_get(db: &sled::Db, key: &[u8]) -> (found: Result<Option<Vec<u8>>, sled::Error>)
    ensures
        found matches Ok(Some(value)) ==> db_records(*db).contains_key(key@) && db_records(
            *db,
        )[key@] == value@,
        found matches Ok(None) ==> !db_records(*db).contains_key(key@),
{
    db.get(key).map(|value| value.map(|bytes| bytes.to_vec()))
}

/// Calls `sled::Tree::insert` on the default tree. Trusted: on `Ok` the
/// record under `key` is `value`, every other record is as before, and the
/// result is the record that `key` had. Nothing is claimed after an error.
#[verifier::external_body]
fn db_insert(db: &mut sled::Db, key: &[u8], value: Vec<u8>) -> (replaced: Result<
    Option<Vec<u8>>,
    sled::Error,
>)
    ensures
        replaced is Ok ==> db_records(*final(db)) == db_records(*old(db)).insert(key@, value@),
        replaced matches Ok(Some(before)) ==> db_records(*old(db)).contains_key(key@)
            && db_records(*old(db))[key@] == before@,
        replaced matches Ok(None) ==> !db_records(*old(db)).contains_key(key@),
{
    db.insert(key, value).map(|before| before.map(|bytes| bytes.to_vec()))
}

/// Calls `sled::Tree::remove` on the default tree. Trusted: on `Ok` there is
/// no record under `key`, every other record is as before, and the result is
/// the record that `key` had. Nothing is claimed after an error.
#[verifier::external_body]
fn db_remove(db: &mut sled::Db, key: &[u8]) -> (removed: Result<Option<Vec<u8>>, sled::Error>)
    ensures
        removed is Ok ==> db_records(*final(db)) == db_records(*old(db)).remove(key@),
        removed matches Ok(Some(before)) ==> db_records(*old(db)).contains_key(key@)
            && db_records(*old(db))[key@] == before@,
        removed matches Ok(None) ==> !db_records(*old(db)).contains_key(key@),
{
    db.remove(key).map(|before| before.map(|bytes| bytes.to_vec()))
}

/// Calls `sled::Tree::iter` on the default tree and walks it to its end or
/// to its first error. Trusted: a walk without an error lists the records,
/// each key once. The order of the keys is not claimed.
#[verifier::external_body]
fn db_entries(db: &sled::Db) -> (walked: Result<Vec<(Vec<u8>, Vec<u8>)>, sled::Error>)
    ensures
        walked matches Ok(entries) ==> lists_records(entries@, db_records(*db)),
{
    db.iter().map(|item| item.map(|(key, value)| (key.to_vec(), value.to_vec()))).collect()
}

/// Calls `sled::Tree::flush`, which writes what is pending to disk and
/// syncs it. Trusted: the records are as before, and after `Ok` every one of
/// them is durable, and nothing else is. Nothing is claimed of what is
/// durable after an error.
#[verifier::external_body]
fn db_flush(db: &mut sled::Db) -> (flushed: Result<usize, sled::Error>)
    ensures
        db_records(*final(db)) == db_records(*old(db)),
        flushed is Ok ==> db_durable(*final(db)) == db_records(*final(db)),
{
    db.flush()
}

/// The key under which the record of the path spelled `path` is filed.
pub open spec fn key_of(path: Seq<char>) -> Seq<u8> {
    encode_utf8(path)
}

/// What a read of the database means to the cache: a record that was found
/// reads as its duration, and a missing record or a failed read is a miss.
pub fn lookup_outcome(fetched: Result<Option<Vec<u8>>, sled::Error>) -> (outcome: Option<
    Option<TimeSpan>,
>)
    ensures
        fetched matches Ok(Some(raw)) ==> outcome matches Some(duration) && span_nanos(duration)
            == duration_of(raw@),
        !(fetched matches Ok(Some(_))) ==> outcome is None,
{
    match fetched {
        Ok(Some(raw)) => Some(decode_duration(raw.as_slice())),
        _ => None,
    }
}

/// The store of duration records. It may be unavailable, and then holds
/// nothing and keeps nothing.
pub struct DurationStore {
    db: Option<sled::Db>,
}

impl DurationStore {
    /// Whether there is a database behind the store.
    pub closed spec fn available(&self) -> bool {
        self.db is Some
    }

    /// The records in the store by key; none when the store is unavailable.
    pub closed spec fn records(&self) -> Map<Seq<u8>, Seq<u8>> {
        match self.db {
            Some(db) => db_records(db),
            None => Map::empty(),
        }
    }

    /// What the store has made durable; nothing when the store is
    /// unavailable.
    pub closed spec fn durable(&self) -> Map<Seq<u8>, Seq<u8>> {
        match self.db {
            Some(db) => db_durable(db),
            None => Map::empty(),
        }
    }

    /// Opens the store at `path`, or creates it there. A database that
    /// cannot be opened gives an unavailable store, which holds nothing:
    /// the durations are then kept in memory only. `is_available` tells the
    /// caller which of the two it got.
    ///
    /// Whether the database opens, and what it holds, is for the disk to
    /// say; `from_opened` says what the answer means.
    pub fn open(path: &str) -> (store: DurationStore)
        ensures
            !store.available() ==> store.records() == Map::<Seq<u8>, Seq<u8>>::empty()
                && store.durable() == Map::<Seq<u8>, Seq<u8>>::empty(),
    {
        DurationStore::from_opened(db_open(path))
    }

    /// A store without a database.
    pub fn unavailable() -> (store: DurationStore)
        ensures
            !store.available(),
            store.records() == Map::<Seq<u8>, Seq<u8>>::empty(),
            store.durable() == Map::<Seq<u8>, Seq<u8>>::empty(),
    {
        DurationStore { db: None }
    }

    /// A store on an open database.
    pub fn with_db(db: sled::Db) -> (store: DurationStore)
        ensures
            store.available(),
            store.records() == db_records(db),
            store.durable() == db_durable(db),
    {
        DurationStore { db: Some(db) }
    }

    /// Whether there is a database behind the store.
    pub fn is_available(&self) -> (available: bool)
        ensures
            available == self.available(),
    {
        self.db.is_some()
    }

    /// Reads the record of `path`. `Some` holds the duration that the record
    /// reads as; `None` is a miss: no record, no store, or a failed read.
    ///
    /// The database is asked for the record under the key of `path`, and
    /// `lookup_outcome` says what its answer means.
    pub fn get(&self, path: &str) -> (outcome: Option<Option<TimeSpan>>)
        ensures
            outcome matches Some(duration) ==> self.records().contains_key(key_of(path@))
                && span_nanos(duration) == duration_of(self.records()[key_of(path@)]),
            !self.records().contains_key(key_of(path@)) ==> outcome is None,
    {
        match &self.db {
            Some(db) => lookup_outcome(db_get(db, path.as_bytes())),
            None => None,
        }
    }

    /// Files the record of `duration` under `path`. The result says whether
    /// the record was written; an unavailable store writes nothing.
    pub fn put(&mut self, path: &str, duration: Option<TimeSpan>) -> (written: bool)
        ensures
            final(self).available() == old(self).available(),
            written ==> old(self).available() && final(self).records() == old(
                self,
            ).records().insert(key_of(path@), record_of(span_nanos(duration))),
            !old(self).available() ==> !written && final(self).records() == old(self).records()
                && final(self).durable() == old(self).durable(),
    {
        match &mut self.db {
            Some(db) => taken(db_insert(db, path.as_bytes(), encode_duration(duration))),
            None => false,
        }
    }

    /// Takes the record under `key` out of the store. The result says whether
    /// the store did so; an unavailable store removes nothing.
    pub fn remove(&mut self, key: &[u8]) -> (removed: bool)
        ensures
            final(self).available() == old(self).available(),
            removed ==> old(self).available() && final(self).records() == old(
                self,
            ).records().remove(key@),
            !old(self).available() ==> !removed && final(self).records() == old(self).records()
                && final(self).durable() == old(self).durable(),
    {
        match &mut self.db {
            Some(db) => taken(db_remove(db, key)),
            None => false,
        }
    }

    /// Lists the records, each key once, or `None` where the store is
    /// unavailable or the walk failed.
    pub fn entries(&self) -> (listed: Option<Vec<(Vec<u8>, Vec<u8>)>>)
        ensures
            listed matches Some(entries) ==> self.available() && lists_records(
                entries@,
                self.records(),
            ),
            !self.available() ==> listed is None,
    {
        match &self.db {
            Some(db) => listing_outcome(db_entries(db)),
            None => None,
        }
    }

    /// Asks the database to write what is pending to disk. The records are
    /// as before. The result says whether the database did so: then every
    /// record is durable. An unavailable store has nothing to flush.
    ///
    /// Whether a flush succeeds is for the database to say; `taken` says
    /// what its answer means.
    pub fn flush(&mut self) -> (flushed: bool)
        ensures
            final(self).available() == old(self).available(),
            final(self).records() == old(self).records(),
            flushed ==> old(self).available() && final(self).durable() == final(self).records(),
            !old(self).available() ==> !flushed && final(self).durable() == old(self).durable(),
    {
        match &mut self.db {
            Some(db) => taken(db_flush(db)),
            None => false,
        }
    }
}

impl DurationStore {
    /// What an attempt to open the database means to the cache: a store on
    /// the database that was opened, or an unavailable store after a
    /// failure.
    pub fn from_opened(opened: Result<sled::Db, sled::Error>) -> (store: DurationStore)
        ensures
            opened matches Ok(db) ==> store.available() && store.records() == db_records(db)
                && store.durable() == db_durable(db),
            opened is Err ==> !store.available() && store.records() == Map::<
                Seq<u8>,
                Seq<u8>,
            >::empty() && store.durable() == Map::<Seq<u8>, Seq<u8>>::empty(),
    {
        match opened {
            Ok(db) => DurationStore { db: Some(db) },
            Err(_) => DurationStore { db: None },
        }
    }
}

/// What the answer of the database to a write or a flush means to the
/// cache: whether the database did what it was asked.
pub fn taken<T>(answer: Result<T, sled::Error>) -> (done: bool)
    ensures
        done == (answer is Ok),
{
    answer.is_ok()
}

/// What a walk over the database means to the cache: the entries that a
/// complete walk listed, or nothing after a failure.
pub fn listing_outcome(walked: Result<Vec<(Vec<u8>, Vec<u8>)>, sled::Error>) -> (listed: Option<
    Vec<(Vec<u8>, Vec<u8>)>,
>)
    ensures
        walked matches Ok(entries) ==> listed == Some(entries),
        walked is Err ==> listed is None,
{
    match walked {
        Ok(entries) => Some(entries),
        Err(_) => None,
    }
}

} // verus!
