//! What the model implies, step by step.
//!
//! These facts carry the proofs of the laws and of the joins themselves.

use vstd::prelude::*;
use crate::model::has_key;
use crate::model::index_after;
use crate::model::join_after;
use crate::model::key_of;
use crate::model::keys_distinct;
use crate::model::orphan_of;
use crate::model::survives;
use crate::record::RecordView;

verus! {

/// The keys of the index are the canonical keys of the reverse reads.
pub proof fn lemma_index_keys(reverse: Seq<RecordView>)
    ensures
        forall|key: Seq<u8>| #[trigger]
            index_after(reverse).contains_key(key) <==> has_key(reverse, key),
    decreases reverse.len(),
{
    if reverse.len() > 0 {
        let before = reverse.drop_last();
        lemma_index_keys(before);
        assert forall|key: Seq<u8>| #[trigger]
            index_after(reverse).contains_key(key) <==> has_key(reverse, key) by {
            assert(index_after(before).contains_key(key) <==> has_key(before, key));
            if has_key(before, key) {
                let i = choose|i: int| 0 <= i < before.len() && key_of(#[trigger] before[i]) == key;
                assert(key_of(reverse[i]) == key);
            }
            if key == key_of(reverse.last()) {
                assert(key_of(reverse[reverse.len() - 1]) == key);
            }
            if has_key(reverse, key) {
                let i = choose|i: int|
                    0 <= i < reverse.len() && key_of(#[trigger] reverse[i]) == key;
                if i < before.len() {
                    assert(key_of(before[i]) == key);
                }
            }
        }
    }
}

/// A reverse read that is the last under its key survives.
pub proof fn lemma_last_survives(reverse: Seq<RecordView>, at: int)
    requires
        0 <= at < reverse.len(),
        forall|later: int|
            at < later < reverse.len() ==> key_of(#[trigger] reverse[later]) != key_of(reverse[at]),
    ensures
        index_after(reverse).contains_key(key_of(reverse[at])),
        survives(reverse, at),
    decreases reverse.len(),
{
    if at < reverse.len() - 1 {
        let before = reverse.drop_last();
        assert(key_of(reverse[reverse.len() - 1]) != key_of(reverse[at]));
        assert forall|later: int| at < later < before.len() implies key_of(
            #[trigger] before[later],
        ) != key_of(before[at]) by {
            assert(key_of(reverse[later]) != key_of(reverse[at]));
        }
        lemma_last_survives(before, at);
    }
}

/// What is left in the index after the forward reads: the entries whose key
/// no forward read has, unchanged. And each forward read is in exactly one
/// of the two forward outputs.
pub proof fn lemma_join_index(
    index: Map<Seq<u8>, (Seq<u8>, Option<Seq<u8>>)>,
    forward: Seq<RecordView>,
)
    ensures
        forall|key: Seq<u8>| #[trigger]
            join_after(index, forward).index.contains_key(key) <==> (index.contains_key(key)
                && !has_key(forward, key)),
        forall|key: Seq<u8>| #[trigger]
            join_after(index, forward).index.contains_key(key) ==> join_after(
                index,
                forward,
            ).index[key] == index[key],
        join_after(index, forward).forward_paired.len() == join_after(
            index,
            forward,
        ).reverse_paired.len(),
        join_after(index, forward).forward_paired.len() + join_after(
            index,
            forward,
        ).forward_single.len() == forward.len(),
    decreases forward.len(),
{
    let end = join_after(index, forward);
    if forward.len() == 0 {
        assert forall|key: Seq<u8>| #[trigger]
            end.index.contains_key(key) <==> (index.contains_key(key) && !has_key(
                forward,
                key,
            )) by {
            assert(!has_key(forward, key));
        }
    } else {
        let before = forward.drop_last();
        let last = forward.last();
        lemma_join_index(index, before);
        let mid = join_after(index, before);
        assert(end == crate::model::step(mid, last));
        assert forall|key: Seq<u8>| #[trigger]
            end.index.contains_key(key) <==> (index.contains_key(key) && !has_key(
                forward,
                key,
            )) by {
            assert(mid.index.contains_key(key) <==> (index.contains_key(key) && !has_key(
                before,
                key,
            )));
            if has_key(before, key) {
                let i = choose|i: int| 0 <= i < before.len() && key_of(#[trigger] before[i]) == key;
                assert(key_of(forward[i]) == key);
            }
            if key == key_of(last) {
                assert(key_of(forward[forward.len() - 1]) == key);
            }
            if has_key(forward, key) {
                let i = choose|i: int|
                    0 <= i < forward.len() && key_of(#[trigger] forward[i]) == key;
                if i < before.len() {
                    assert(key_of(before[i]) == key);
                }
            }
        }
        assert forall|key: Seq<u8>| #[trigger] end.index.contains_key(key) implies end.index[key]
            == index[key] by {
            assert(mid.index.contains_key(key));
        }
    }
}

/// Where no forward read has a key of the index, nothing is paired and the
/// index stays as it was.
pub proof fn lemma_no_hits(
    index: Map<Seq<u8>, (Seq<u8>, Option<Seq<u8>>)>,
    forward: Seq<RecordView>,
)
    requires
        forall|i: int| 0 <= i < forward.len() ==> !index.contains_key(key_of(#[trigger] forward[i])),
    ensures
        join_after(index, forward).index == index,
        join_after(index, forward).forward_paired =~= Seq::empty(),
        join_after(index, forward).reverse_paired =~= Seq::empty(),
        join_after(index, forward).forward_single =~= forward,
    decreases forward.len(),
{
    if forward.len() > 0 {
        let before = forward.drop_last();
        assert forall|i: int| 0 <= i < before.len() implies !index.contains_key(
            key_of(#[trigger] before[i]),
        ) by {
            assert(before[i] == forward[i]);
        }
        lemma_no_hits(index, before);
        assert(!index.contains_key(key_of(forward[forward.len() - 1])));
        assert(before.push(forward.last()) =~= forward);
    }
}

/// Where every forward read has a key of the index and no two of them share
/// one, every forward read is paired.
pub proof fn lemma_all_hits(
    index: Map<Seq<u8>, (Seq<u8>, Option<Seq<u8>>)>,
    forward: Seq<RecordView>,
)
    requires
        keys_distinct(forward),
        forall|i: int| 0 <= i < forward.len() ==> index.contains_key(key_of(#[trigger] forward[i])),
    ensures
        join_after(index, forward).forward_paired =~= forward,
        join_after(index, forward).forward_single =~= Seq::empty(),
    decreases forward.len(),
{
    if forward.len() > 0 {
        let before = forward.drop_last();
        let last = forward.last();
        assert forall|i: int| 0 <= i < before.len() implies index.contains_key(
            key_of(#[trigger] before[i]),
        ) by {
            assert(before[i] == forward[i]);
        }
        assert forall|i: int, j: int| 0 <= i < j < before.len() implies key_of(
            #[trigger] before[i],
        ) != key_of(#[trigger] before[j]) by {
            assert(before[i] == forward[i] && before[j] == forward[j]);
        }
        lemma_all_hits(index, before);
        lemma_join_index(index, before);
        assert(index.contains_key(key_of(forward[forward.len() - 1])));
        if has_key(before, key_of(last)) {
            let i = choose|i: int|
                0 <= i < before.len() && key_of(#[trigger] before[i]) == key_of(last);
            assert(key_of(forward[i]) != key_of(forward[forward.len() - 1]));
        }
        assert(before.push(last) =~= forward);
    }
}

/// The index holds at most as many entries as there are reverse reads, and
/// exactly as many where no two of them share a key.
pub proof fn lemma_index_size(reverse: Seq<RecordView>)
    ensures
        index_after(reverse).dom().finite(),
        index_after(reverse).dom().len() <= reverse.len(),
        keys_distinct(reverse) <==> index_after(reverse).dom().len() == reverse.len(),
{
    let keys = reverse.map_values(|read: RecordView| key_of(read));
    lemma_index_keys(reverse);
    assert forall|key: Seq<u8>| index_after(reverse).dom().contains(key) <==> keys.to_set().contains(
        key,
    ) by {
        assert(index_after(reverse).contains_key(key) <==> has_key(reverse, key));
        if has_key(reverse, key) {
            let i = choose|i: int| 0 <= i < reverse.len() && key_of(#[trigger] reverse[i]) == key;
            assert(keys[i] == key);
        }
        if keys.contains(key) {
            let i = choose|i: int| 0 <= i < keys.len() && keys[i] == key;
            assert(key_of(reverse[i]) == key);
        }
    }
    assert(index_after(reverse).dom() =~= keys.to_set());
    vstd::seq_lib::seq_to_set_is_finite(keys);
    keys.lemma_cardinality_of_set();
    if keys_distinct(reverse) {
        assert forall|i: int, j: int|
            0 <= i < keys.len() && 0 <= j < keys.len() && i != j implies keys[i] != keys[j] by {
            if i < j {
                assert(key_of(reverse[i]) != key_of(reverse[j]));
            } else {
                assert(key_of(reverse[j]) != key_of(reverse[i]));
            }
        }
        keys.unique_seq_to_set();
    } else {
        let (i, j) = choose|i: int, j: int|
            0 <= i < j < reverse.len() && key_of(#[trigger] reverse[i]) == key_of(
                #[trigger] reverse[j],
            );
        lemma_repeated_key_shrinks(keys, i, j);
    }
}

/// A list in which one value stands at two places has fewer distinct
/// values than places.
pub proof fn lemma_repeated_key_shrinks(keys: Seq<Seq<u8>>, i: int, j: int)
    requires
        0 <= i < j < keys.len(),
        keys[i] == keys[j],
    ensures
        keys.to_set().len() < keys.len(),
{
    let rest = keys.remove(j);
    assert forall|key: Seq<u8>| keys.to_set().contains(key) <==> rest.to_set().contains(key) by {
        if keys.contains(key) {
            let at = choose|at: int| 0 <= at < keys.len() && keys[at] == key;
            if at < j {
                assert(rest[at] == key);
            } else if at == j {
                assert(rest[i] == key);
            } else {
                assert(rest[at - 1] == key);
            }
        }
        if rest.contains(key) {
            let at = choose|at: int| 0 <= at < rest.len() && rest[at] == key;
            if at < j {
                assert(keys[at] == key);
            } else {
                assert(keys[at + 1] == key);
            }
        }
    }
    assert(keys.to_set() =~= rest.to_set());
    rest.lemma_cardinality_of_set();
}

/// Each pair takes one entry out of the index.
pub proof fn lemma_join_size(
    index: Map<Seq<u8>, (Seq<u8>, Option<Seq<u8>>)>,
    forward: Seq<RecordView>,
)
    requires
        index.dom().finite(),
    ensures
        join_after(index, forward).index.dom().finite(),
        join_after(index, forward).index.dom().len() + join_after(
            index,
            forward,
        ).forward_paired.len() == index.dom().len(),
    decreases forward.len(),
{
    if forward.len() > 0 {
        let before = forward.drop_last();
        lemma_join_size(index, before);
        let mid = join_after(index, before);
        let key = key_of(forward.last());
        assert(mid.index.remove(key).dom() =~= mid.index.dom().remove(key));
    }
}

/// There are as many reverse singletons as entries left in the index.
pub proof fn lemma_orphans_count(
    singles: Seq<RecordView>,
    index: Map<Seq<u8>, (Seq<u8>, Option<Seq<u8>>)>,
)
    requires
        crate::model::lists_orphans(singles, index),
    ensures
        index.dom().finite(),
        index.dom().len() == singles.len(),
{
    let keys = singles.map_values(|single: RecordView| crate::ident::base_id(single.id));
    assert forall|key: Seq<u8>| index.dom().contains(key) <==> keys.to_set().contains(key) by {
        if index.contains_key(key) {
            let single = orphan_of(key, index[key]);
            assert(singles.contains(single));
            let i = choose|i: int| 0 <= i < singles.len() && singles[i] == single;
            crate::ident::lemma_suffix_strips(key, crate::ident::TWO);
            assert(keys[i] == key);
        }
        if keys.contains(key) {
            let i = choose|i: int| 0 <= i < keys.len() && keys[i] == key;
            assert(crate::ident::base_id(singles[i].id) == key);
        }
    }
    assert(index.dom() =~= keys.to_set());
    assert forall|i: int, j: int|
        0 <= i < keys.len() && 0 <= j < keys.len() && i != j implies keys[i] != keys[j] by {
        let a = crate::ident::base_id(singles[i].id);
        let b = crate::ident::base_id(singles[j].id);
        assert(singles[i] == orphan_of(a, index[a]));
        assert(singles[j] == orphan_of(b, index[b]));
        if i < j {
            assert(singles[i].id != singles[j].id);
        } else {
            assert(singles[j].id != singles[i].id);
        }
    }
    vstd::seq_lib::seq_to_set_is_finite(keys);
    keys.unique_seq_to_set();
}

/// A record is among the reverse singletons exactly where it is the
/// singleton of an entry of the index.
pub proof fn lemma_orphans_listed(
    singles: Seq<RecordView>,
    index: Map<Seq<u8>, (Seq<u8>, Option<Seq<u8>>)>,
    single: RecordView,
)
    requires
        crate::model::lists_orphans(singles, index),
    ensures
        singles.contains(single) <==> exists|key: Seq<u8>| #[trigger]
            index.contains_key(key) && single == orphan_of(key, index[key]),
{
    if singles.contains(single) {
        let i = choose|i: int| 0 <= i < singles.len() && singles[i] == single;
        let key = crate::ident::base_id(singles[i].id);
        assert(index.contains_key(key) && single == orphan_of(key, index[key]));
    }
}

} // verus!
