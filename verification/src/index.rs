//! The in-memory index: canonical key to buffered sequence and quality.
//!
//! Everything in this file is believed, not proved: each function makes one
//! call into the hash map, and its contract says what that call does.

use vstd::prelude::*;

verus! {

/// `ahash::RandomState`, the hasher that the map is built with.
#[verifier::external_type_specification]
#[verifier::external_body]
pub struct ExRandomState(ahash::RandomState);

/// `ahash::AHashMap`, a hash map. Nothing inside it is seen.
#[verifier::external_type_specification]
#[verifier::external_body]
#[verifier::reject_recursive_types(K)]
#[verifier::reject_recursive_types(V)]
#[verifier::reject_recursive_types(S)]
pub struct ExAHashMap<K, V, S>(ahash::AHashMap<K, V, S>);

/// What the index holds: for each canonical key the sequence and the
/// optional quality string buffered under it.
pub uninterp spec fn index_entries(
    index: ahash::AHashMap<Vec<u8>, (Vec<u8>, Option<Vec<u8>>)>,
) -> Map<Seq<u8>, (Seq<u8>, Option<Seq<u8>>)>;

/// `ahash::AHashMap::new`: the new map holds nothing.
#[verifier::external_body]
pub(crate) fn index_new() -> (made: ahash::AHashMap<Vec<u8>, (Vec<u8>, Option<Vec<u8>>)>)
    ensures
        index_entries(made) =~= Map::empty(),
{
    ahash::AHashMap::new()
}

/// `ahash::AHashMap::insert`: afterwards the key maps to the new value and
/// every other key is as before.
#[verifier::external_body]
pub(crate) fn index_insert(
    index: &mut ahash::AHashMap<Vec<u8>, (Vec<u8>, Option<Vec<u8>>)>,
    key: Vec<u8>,
    seq: Vec<u8>,
    qual: Option<Vec<u8>>,
)
    ensures
        index_entries(*final(index)) == index_entries(*old(index)).insert(
            key@,
            (seq@, crate::record::opt_bytes(qual)),
        ),
{
    index.insert(key, (seq, qual));
}

/// `ahash::AHashMap::remove`: returns the value under the key, if there is
/// one, and afterwards the key is absent and every other key is as before.
#[verifier::external_body]
pub(crate) fn index_remove(
    index: &mut ahash::AHashMap<Vec<u8>, (Vec<u8>, Option<Vec<u8>>)>,
    key: &[u8],
) -> (found: Option<(Vec<u8>, Option<Vec<u8>>)>)
    ensures
        index_entries(*final(index)) == index_entries(*old(index)).remove(key@),
        found.is_some() == index_entries(*old(index)).contains_key(key@),
        found matches Some(value) ==> (value.0@, crate::record::opt_bytes(value.1))
            == index_entries(*old(index))[key@],
{
    index.remove(key)
}

/// `items` holds each entry of `entries` once, as key, sequence and
/// quality. Nothing is said of the order.
pub open spec fn lists_entries(
    items: Seq<(Vec<u8>, Vec<u8>, Option<Vec<u8>>)>,
    entries: Map<Seq<u8>, (Seq<u8>, Option<Seq<u8>>)>,
) -> bool {
    &&& forall|i: int|
        0 <= i < items.len() ==> {
            let key = (#[trigger] items[i]).0@;
            entries.contains_key(key) && entries[key] == (
                items[i].1@,
                crate::record::opt_bytes(items[i].2),
            )
        }
    &&& forall|key: Seq<u8>| #[trigger]
        entries.contains_key(key) ==> exists|i: int|
            0 <= i < items.len() && (#[trigger] items[i]).0@ == key
    &&& forall|i: int, j: int|
        0 <= i < j < items.len() ==> (#[trigger] items[i]).0@ != (#[trigger] items[j]).0@
}

/// `IntoIterator::into_iter` of `ahash::AHashMap`, gathered into a list:
/// every entry comes out once, in an order that is not fixed.
#[verifier::external_body]
pub(crate) fn index_drain(
    index: ahash::AHashMap<Vec<u8>, (Vec<u8>, Option<Vec<u8>>)>,
) -> (items: Vec<(Vec<u8>, Vec<u8>, Option<Vec<u8>>)>)
    ensures
        lists_entries(items@, index_entries(index)),
{
    index.into_iter().map(|(key, (seq, qual))| (key, seq, qual)).collect()
}

} // verus!
