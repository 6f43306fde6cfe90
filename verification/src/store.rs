//! The external index: a disk-backed ordered store from canonical key to
//! stored value, kept in a scratch directory of its own.
//!
//! Everything in this file is believed, not proved: each function makes one
//! call into the store or the scratch directory, and its contract says what
//! that call does.

use vstd::prelude::*;
use crate::ident::bytes_before;

verus! {

/// `sled::Db`, the handle of an open store. Nothing inside it is seen.
#[verifier::external_type_specification]
#[verifier::external_body]
pub struct ExDb(sled::Db);

/// `sled::Error`, what a failed call into the store returns.
#[verifier::external_type_specification]
#[verifier::external_body]
pub struct ExStoreError(sled::Error);

/// `tempfile::TempDir`, a directory that is removed when the value is
/// dropped.
#[verifier::external_type_specification]
#[verifier::external_body]
pub struct ExTempDir(tempfile::TempDir);

/// `std::io::Error`, what a failed attempt to make the directory returns.
#[verifier::external_type_specification]
#[verifier::external_body]
pub struct ExIoError(std::io::Error);

/// What the store holds: for each key the value last written under it.
pub uninterp spec fn store_entries(db: sled::Db) -> Map<Seq<u8>, Seq<u8>>;

/// A cursor over the entries of a store: a `sled::Iter`, held where nothing
/// of it is seen.
#[verifier::external_body]
pub struct Scan {
    inner: sled::Iter,
}

/// What the cursor has yet to hand out: keys and values, in the order in
/// which they will come.
pub uninterp spec fn scan_pending(scan: Scan) -> Seq<(Seq<u8>, Seq<u8>)>;

/// `items` holds each entry of `entries` once, in ascending order of the
/// keys.
pub open spec fn lists_in_key_order(
    items: Seq<(Seq<u8>, Seq<u8>)>,
    entries: Map<Seq<u8>, Seq<u8>>,
) -> bool {
    &&& forall|i: int|
        0 <= i < items.len() ==> {
            let key = (#[trigger] items[i]).0;
            entries.contains_key(key) && entries[key] == items[i].1
        }
    &&& forall|key: Seq<u8>| #[trigger]
        entries.contains_key(key) ==> exists|i: int|
            0 <= i < items.len() && (#[trigger] items[i]).0 == key
    &&& forall|i: int, j: int|
        0 <= i < j < items.len() ==> bytes_before((#[trigger] items[i]).0, (#[trigger] items[j]).0)
}

/// `tempfile::tempdir`: a new directory that is removed again when the
/// value is dropped. Nothing is promised of where it lies, nor that it can
/// be made.
#[verifier::external_body]
pub(crate) fn scratch_dir() -> (made: Result<tempfile::TempDir, std::io::Error>) {
    tempfile::tempdir()
}

/// `sled::open`, on the path `name` inside `dir`. Nothing is promised of
/// the store that comes back, nor that one does.
#[verifier::external_body]
pub(crate) fn store_open(dir: &tempfile::TempDir, name: &str) -> (opened: Result<
    sled::Db,
    sled::Error,
>) {
    sled::open(dir.path().join(name))
}

/// `sled::Tree::is_empty`: where it says yes, the store holds nothing.
#[verifier::external_body]
pub(crate) fn store_is_empty(db: &sled::Db) -> (empty: bool)
    ensures
        empty ==> store_entries(*db) =~= Map::empty(),
{
    db.is_empty()
}

/// `sled::Tree::insert`: where the call succeeds, the key maps to the new
/// value afterwards and every other key is as before.
#[verifier::external_body]
pub(crate) fn store_insert(db: &mut sled::Db, key: &[u8], value: Vec<u8>) -> (done: Result<
    (),
    sled::Error,
>)
    ensures
        done.is_ok() ==> store_entries(*final(db)) == store_entries(*old(db)).insert(key@, value@),
{
    db.insert(key, value).map(|_| ())
}

/// `sled::Tree::flush`: writes what is pending to disk; the entries stay as
/// they are.
#[verifier::external_body]
pub(crate) fn store_flush(db: &sled::Db) -> (done: Result<(), sled::Error>) {
    db.flush().map(|_| ())
}

/// `sled::Tree::remove`: where the call succeeds, it returns the value that
/// was under the key, if there was one, and the key is absent afterwards.
#[verifier::external_body]
pub(crate) fn store_remove(db: &mut sled::Db, key: &[u8]) -> (taken: Result<
    Option<Vec<u8>>,
    sled::Error,
>)
    ensures
        taken matches Ok(found) ==> {
            &&& store_entries(*final(db)) == store_entries(*old(db)).remove(key@)
            &&& found.is_some() == store_entries(*old(db)).contains_key(key@)
            &&& found matches Some(value) ==> value@ == store_entries(*old(db))[key@]
        },
{
    db.remove(key).map(|found| found.map(|value| value.to_vec()))
}

/// `sled::Tree::iter`: a cursor that hands out each entry of the store
/// once, in ascending order of the keys. The store is given up to the
/// cursor, so that nothing is written to it while the cursor runs.
#[verifier::external_body]
pub(crate) fn store_scan(db: sled::Db) -> (scan: Scan)
    ensures
        lists_in_key_order(scan_pending(scan), store_entries(db)),
{
    Scan { inner: db.iter() }
}

/// `Iterator::next` of `sled::Iter`: nothing where nothing is left; else
/// the first of what is left, which is then left no more, or the error
/// that reading it met.
#[verifier::external_body]
pub(crate) fn scan_next(scan: &mut Scan) -> (step: Option<
    Result<(Vec<u8>, Vec<u8>), sled::Error>,
>)
    ensures
        step is None ==> scan_pending(*old(scan)).len() == 0,
        step matches Some(Ok(item)) ==> {
            &&& scan_pending(*old(scan)).len() > 0
            &&& (item.0@, item.1@) == scan_pending(*old(scan))[0]
            &&& scan_pending(*final(scan)) == scan_pending(*old(scan)).drop_first()
        },
{
    scan.inner.next().map(|step| step.map(|(key, value)| (key.to_vec(), value.to_vec())))
}

} // verus!
