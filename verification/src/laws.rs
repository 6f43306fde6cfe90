//! What holds of every two-file join.
//!
//! Each law is stated of any output that meets the contract of a join, so it
//! holds of what `run_inmemory` and `run_ondisk` return: what meets
//! `is_disk_join` meets `is_memory_join` too.

use vstd::prelude::*;
use crate::facts::lemma_all_hits;
use crate::facts::lemma_index_keys;
use crate::facts::lemma_index_size;
use crate::facts::lemma_join_index;
use crate::facts::lemma_join_size;
use crate::facts::lemma_last_survives;
use crate::facts::lemma_no_hits;
use crate::facts::lemma_orphans_count;
use crate::facts::lemma_orphans_listed;
use crate::model::has_key;
use crate::model::index_after;
use crate::model::is_disk_join;
use crate::model::is_memory_join;
use crate::model::key_of;
use crate::model::key_set;
use crate::model::keys_disjoint;
use crate::model::keys_distinct;
use crate::model::orphan_of;
use crate::model::payload_of;
use crate::model::survives;
use crate::model::two_file_join;
use crate::model::JoinView;
use crate::record::RecordView;
use crate::utils::sink_bytes;

verus! {

/// Disjoint keys: nothing is paired, and every read is a singleton.
///
/// Where no forward read shares its canonical key with a reverse read, both
/// paired outputs are empty and both paired counters are zero, the forward
/// singletons are the forward reads in their order, and every reverse read
/// that survives in the index is among the reverse singletons, under its key
/// followed by `/2`.
pub proof fn lemma_disjoint_keys_pair_nothing(
    out: JoinView,
    forward: Seq<RecordView>,
    reverse: Seq<RecordView>,
)
    requires
        is_memory_join(out, forward, reverse),
        keys_disjoint(forward, reverse),
    ensures
        out.forward_paired.len() == 0,
        out.reverse_paired.len() == 0,
        out.stats.forward_paired == 0,
        out.stats.reverse_paired == 0,
        out.forward_single == forward,
        forall|at: int|
            0 <= at < reverse.len() && survives(reverse, at) ==> out.reverse_single.contains(
                orphan_of(key_of(#[trigger] reverse[at]), payload_of(reverse[at])),
            ),
{
    let index = index_after(reverse);
    lemma_index_keys(reverse);
    assert forall|i: int| 0 <= i < forward.len() implies !index.contains_key(
        key_of(#[trigger] forward[i]),
    ) by {
        if has_key(reverse, key_of(forward[i])) {
            let j = choose|j: int|
                0 <= j < reverse.len() && key_of(#[trigger] reverse[j]) == key_of(forward[i]);
            assert(key_of(forward[i]) != key_of(reverse[j]));
        }
    }
    lemma_no_hits(index, forward);
    assert forall|at: int| 0 <= at < reverse.len() && survives(reverse, at) implies 
        out.reverse_single.contains(
        orphan_of(key_of(#[trigger] reverse[at]), payload_of(reverse[at])),
    ) by {
        assert(has_key(reverse, key_of(reverse[at])));
        assert(index.contains_key(key_of(reverse[at])));
    }
}

/// Equal key sets: nothing is left unpaired.
///
/// Where the forward reads and the reverse reads have the same set of
/// canonical keys and no two forward reads share a key, both singleton
/// outputs are empty and the total of unpaired reads is zero.
pub proof fn lemma_equal_keys_pair_everything(
    out: JoinView,
    forward: Seq<RecordView>,
    reverse: Seq<RecordView>,
)
    requires
        is_memory_join(out, forward, reverse),
        key_set(forward) == key_set(reverse),
        keys_distinct(forward),
    ensures
        out.forward_single.len() == 0,
        out.reverse_single.len() == 0,
        out.forward_paired == forward,
        out.stats.unpaired_total() == 0,
{
    let index = index_after(reverse);
    lemma_index_keys(reverse);
    assert forall|key: Seq<u8>| has_key(forward, key) <==> has_key(reverse, key) by {
        assert(key_set(forward).contains(key) == has_key(forward, key));
        assert(key_set(reverse).contains(key) == has_key(reverse, key));
    }
    assert forall|i: int| 0 <= i < forward.len() implies index.contains_key(
        key_of(#[trigger] forward[i]),
    ) by {
        assert(has_key(forward, key_of(forward[i])));
    }
    lemma_all_hits(index, forward);
    lemma_join_index(index, forward);
    let end = two_file_join(forward, reverse);
    if out.reverse_single.len() > 0 {
        let key = crate::ident::base_id(out.reverse_single[0].id);
        assert(end.index.contains_key(key));
        assert(index.contains_key(key) && !has_key(forward, key));
        assert(has_key(reverse, key));
        assert(false);
    }
}

/// The counters balance.
///
/// At the end of a two-file join every forward read is counted as paired
/// or as unpaired. No more reverse reads are counted as paired or unpaired
/// than were read, and every reverse read is counted as one or the other
/// exactly where no two reverse reads share a canonical key: a read that a
/// later one replaced in the index is counted as read and as nothing else.
pub proof fn lemma_counters_balance(
    out: JoinView,
    forward: Seq<RecordView>,
    reverse: Seq<RecordView>,
)
    requires
        is_memory_join(out, forward, reverse),
    ensures
        out.stats.forward_balanced(),
        out.stats.wf(),
        out.stats.forward_paired == out.stats.reverse_paired,
        keys_distinct(reverse) <==> out.stats.reverse_balanced(),
{
    let index = index_after(reverse);
    lemma_index_size(reverse);
    lemma_join_index(index, forward);
    lemma_join_size(index, forward);
    lemma_orphans_count(out.reverse_single, two_file_join(forward, reverse).index);
}

/// Both strategies write the same pairs.
///
/// The in-memory join and the external join of the same reads give the
/// same paired outputs, record for record and so byte for byte, the same
/// forward singletons and the same counters. The reverse singletons are the
/// same records, in an order that may differ.
pub proof fn lemma_strategies_agree(
    memory: JoinView,
    disk: JoinView,
    forward: Seq<RecordView>,
    reverse: Seq<RecordView>,
)
    requires
        is_memory_join(memory, forward, reverse),
        is_disk_join(disk, forward, reverse),
    ensures
        memory.forward_paired == disk.forward_paired,
        memory.reverse_paired == disk.reverse_paired,
        memory.forward_single == disk.forward_single,
        memory.stats == disk.stats,
        sink_bytes(memory.forward_paired) == sink_bytes(disk.forward_paired),
        sink_bytes(memory.reverse_paired) == sink_bytes(disk.reverse_paired),
        memory.reverse_single.len() == disk.reverse_single.len(),
        forall|single: RecordView|
            memory.reverse_single.contains(single) <==> disk.reverse_single.contains(single),
{
    let end = two_file_join(forward, reverse);
    lemma_orphans_count(memory.reverse_single, end.index);
    lemma_orphans_count(disk.reverse_single, end.index);
    assert forall|single: RecordView|
        memory.reverse_single.contains(single) <==> disk.reverse_single.contains(single) by {
        lemma_orphans_listed(memory.reverse_single, end.index, single);
        lemma_orphans_listed(disk.reverse_single, end.index, single);
    }
}

/// Where no two reverse reads share a key, every reverse read survives.
pub proof fn lemma_distinct_survive(reverse: Seq<RecordView>)
    requires
        keys_distinct(reverse),
    ensures
        forall|at: int| 0 <= at < reverse.len() ==> survives(reverse, at),
{
    assert forall|at: int| 0 <= at < reverse.len() implies survives(reverse, at) by {
        lemma_last_survives(reverse, at);
    }
}

} // verus!
