//! Canonical pairing keys.
//!
//! A read's identifier may end in a two-byte pairing suffix, `/1` for the
//! forward mate and `/2` for the reverse mate. The canonical key is the
//! identifier without that suffix. Two reads are mates exactly when their
//! canonical keys are equal byte for byte.

use vstd::prelude::*;
use crate::record::copy_bytes;

verus! {

/// The byte `/` that opens a pairing suffix.
pub const SLASH: u8 = 47;

/// The byte `1` that closes the forward suffix.
pub const ONE: u8 = 49;

/// The byte `2` that closes the reverse suffix.
pub const TWO: u8 = 50;

/// `id` ends with the two bytes `/` and `digit`.
pub open spec fn ends_with_suffix(id: Seq<u8>, digit: u8) -> bool {
    id.len() >= 2 && id[id.len() - 2] == SLASH && id[id.len() - 1] == digit
}

/// `id` ends with `/1`.
pub open spec fn is_forward_id(id: Seq<u8>) -> bool {
    ends_with_suffix(id, ONE)
}

/// `id` ends with `/2`.
pub open spec fn is_reverse_id(id: Seq<u8>) -> bool {
    ends_with_suffix(id, TWO)
}

/// The canonical key of `id`: the identifier without a trailing `/1` or `/2`,
/// and the identifier itself where it has neither.
pub open spec fn base_id(id: Seq<u8>) -> Seq<u8> {
    if is_forward_id(id) || is_reverse_id(id) {
        id.subrange(0, id.len() - 2)
    } else {
        id
    }
}

/// `key` followed by the two bytes `/` and `digit`.
pub open spec fn with_suffix(key: Seq<u8>, digit: u8) -> Seq<u8> {
    key.push(SLASH).push(digit)
}

/// The identifier given to the reverse mate of a matched forward read: the
/// key followed by `/2` where the forward identifier ends in `/1`, the bare
/// key otherwise.
pub open spec fn mate_id(forward_id: Seq<u8>) -> Seq<u8> {
    if is_forward_id(forward_id) {
        with_suffix(base_id(forward_id), TWO)
    } else {
        base_id(forward_id)
    }
}

/// `a` comes before `b` in the order of byte strings: at the first position
/// where they differ `a` has the smaller byte, or `a` is a proper prefix of
/// `b`.
pub open spec fn bytes_before(a: Seq<u8>, b: Seq<u8>) -> bool
    decreases a.len(),
{
    if b.len() == 0 {
        false
    } else if a.len() == 0 {
        true
    } else if a[0] != b[0] {
        a[0] < b[0]
    } else {
        bytes_before(a.drop_first(), b.drop_first())
    }
}

/// No byte string comes before itself.
pub proof fn lemma_not_before_itself(a: Seq<u8>)
    ensures
        !bytes_before(a, a),
    decreases a.len(),
{
    if a.len() > 0 {
        lemma_not_before_itself(a.drop_first());
    }
}

/// A key with a pairing suffix appended normalises back to the key.
pub proof fn lemma_suffix_strips(key: Seq<u8>, digit: u8)
    requires
        digit == ONE || digit == TWO,
    ensures
        base_id(with_suffix(key, digit)) == key,
{
    let id = with_suffix(key, digit);
    assert(id.subrange(0, id.len() - 2) =~= key);
}

/// Normalising takes one suffix off and no more. A key that does not end
/// in a pairing suffix stays as it is when it is normalised again; a key
/// that does, as the key `a/1` of `a/1/2`, loses that suffix too.
pub proof fn lemma_base_id_again(id: Seq<u8>)
    ensures
        base_id(base_id(id)) == base_id(id) <==> !(is_forward_id(base_id(id)) || is_reverse_id(
            base_id(id),
        )),
        id.len() - 2 <= base_id(id).len() <= id.len(),
{
}

/// Tells whether `id` ends with `/` followed by `digit`.
pub fn has_suffix(id: &[u8], digit: u8) -> (found: bool)
    ensures
        found == ends_with_suffix(id@, digit),
{
    let n: usize = id.len();
    n >= 2 && id[n - 2] == SLASH && id[n - 1] == digit
}

/// Returns the canonical key of `id` as a prefix of `id`.
pub fn get_base_id(id: &[u8]) -> (key: &[u8])
    ensures
        key@ == base_id(id@),
{
    if has_suffix(id, ONE) || has_suffix(id, TWO) {
        let n: usize = id.len();
        vstd::slice::slice_subrange(id, 0, n - 2)
    } else {
        id
    }
}

/// Appends `/` and `digit` to `key`.
pub fn append_suffix(key: Vec<u8>, digit: u8) -> (id: Vec<u8>)
    ensures
        id@ == with_suffix(key@, digit),
{
    let mut id = key;
    id.push(SLASH);
    id.push(digit);
    id
}

/// Builds the identifier of the reverse mate of the forward read `id`.
pub fn mate_id_for(id: &[u8]) -> (mate: Vec<u8>)
    ensures
        mate@ == mate_id(id@),
{
    let key = copy_bytes(get_base_id(id));
    if has_suffix(id, ONE) {
        append_suffix(key, TWO)
    } else {
        key
    }
}

} // verus!
