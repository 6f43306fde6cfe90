//! The mathematical model of the two-file join.
//!
//! The reverse reads are taken into an index from canonical key to sequence
//! and quality, a later read replacing an earlier one under the same key.
//! The forward reads are then taken one by one: a read whose key is in the
//! index is paired with the entry, which leaves the index; any other read is
//! a forward singleton. What the index still holds at the end are the reverse
//! singletons.

use vstd::prelude::*;
use crate::ident::base_id;
use crate::ident::bytes_before;
use crate::ident::mate_id;
use crate::ident::with_suffix;
use crate::ident::TWO;
use crate::record::RecordView;
use crate::stats::Stats;

verus! {

/// The canonical key of a read.
pub open spec fn key_of(read: RecordView) -> Seq<u8> {
    base_id(read.id)
}

/// What the index buffers of a read: its sequence and optional qualities.
pub open spec fn payload_of(read: RecordView) -> (Seq<u8>, Option<Seq<u8>>) {
    (read.seq, read.qual)
}

/// The index after the reads of `reverse` were taken in, in order.
pub open spec fn index_after(reverse: Seq<RecordView>) -> Map<Seq<u8>, (Seq<u8>, Option<Seq<u8>>)>
    decreases reverse.len(),
{
    if reverse.len() == 0 {
        Map::empty()
    } else {
        index_after(reverse.drop_last()).insert(key_of(reverse.last()), payload_of(reverse.last()))
    }
}

/// The reverse record written beside a matched forward read.
pub open spec fn mate_of(forward: RecordView, payload: (Seq<u8>, Option<Seq<u8>>)) -> RecordView {
    RecordView { id: mate_id(forward.id), seq: payload.0, qual: payload.1 }
}

/// The reverse singleton made of an entry that was never matched: its
/// identifier is the key followed by `/2`.
pub open spec fn orphan_of(key: Seq<u8>, payload: (Seq<u8>, Option<Seq<u8>>)) -> RecordView {
    RecordView { id: with_suffix(key, TWO), seq: payload.0, qual: payload.1 }
}

/// What becomes of one forward read.
pub enum Outcome {
    /// Its key was in the index: the read and its reverse mate.
    Paired { forward: RecordView, reverse: RecordView },
    /// Its key was not in the index.
    Single { forward: RecordView },
}

/// What becomes of `forward` against `index`.
pub open spec fn outcome_of(
    index: Map<Seq<u8>, (Seq<u8>, Option<Seq<u8>>)>,
    forward: RecordView,
) -> Outcome {
    let key = key_of(forward);
    if index.contains_key(key) {
        Outcome::Paired { forward, reverse: mate_of(forward, index[key]) }
    } else {
        Outcome::Single { forward }
    }
}

/// The join while the forward reads are being taken.
pub struct JoinState {
    /// The reverse reads not matched so far.
    pub index: Map<Seq<u8>, (Seq<u8>, Option<Seq<u8>>)>,
    /// The matched forward reads, in the order in which they came.
    pub forward_paired: Seq<RecordView>,
    /// Their reverse mates, in the same order.
    pub reverse_paired: Seq<RecordView>,
    /// The forward reads that found no mate, in the order in which they came.
    pub forward_single: Seq<RecordView>,
}

/// The state before any forward read was taken.
pub open spec fn start_of(index: Map<Seq<u8>, (Seq<u8>, Option<Seq<u8>>)>) -> JoinState {
    JoinState {
        index,
        forward_paired: Seq::empty(),
        reverse_paired: Seq::empty(),
        forward_single: Seq::empty(),
    }
}

/// The state after one more forward read.
pub open spec fn step(state: JoinState, forward: RecordView) -> JoinState {
    let key = key_of(forward);
    if state.index.contains_key(key) {
        JoinState {
            index: state.index.remove(key),
            forward_paired: state.forward_paired.push(forward),
            reverse_paired: state.reverse_paired.push(mate_of(forward, state.index[key])),
            forward_single: state.forward_single,
        }
    } else {
        JoinState {
            index: state.index,
            forward_paired: state.forward_paired,
            reverse_paired: state.reverse_paired,
            forward_single: state.forward_single.push(forward),
        }
    }
}

/// The state after the reads of `forward` were taken, in order, against an
/// index that started as `index`.
pub open spec fn join_after(
    index: Map<Seq<u8>, (Seq<u8>, Option<Seq<u8>>)>,
    forward: Seq<RecordView>,
) -> JoinState
    decreases forward.len(),
{
    if forward.len() == 0 {
        start_of(index)
    } else {
        step(join_after(index, forward.drop_last()), forward.last())
    }
}

/// The state at the end of a two-file join.
pub open spec fn two_file_join(forward: Seq<RecordView>, reverse: Seq<RecordView>) -> JoinState {
    join_after(index_after(reverse), forward)
}

/// `singles` holds one reverse singleton for each entry of `index`, and
/// nothing else. Nothing is said of their order.
pub open spec fn lists_orphans(
    singles: Seq<RecordView>,
    index: Map<Seq<u8>, (Seq<u8>, Option<Seq<u8>>)>,
) -> bool {
    &&& forall|i: int|
        0 <= i < singles.len() ==> {
            let key = base_id(#[trigger] singles[i].id);
            index.contains_key(key) && singles[i] == orphan_of(key, index[key])
        }
    &&& forall|key: Seq<u8>| #[trigger]
        index.contains_key(key) ==> singles.contains(orphan_of(key, index[key]))
    &&& forall|i: int, j: int|
        0 <= i < j < singles.len() ==> (#[trigger] singles[i]).id != (#[trigger] singles[j]).id
}

/// The singletons come in ascending order of their keys.
pub open spec fn in_key_order(singles: Seq<RecordView>) -> bool {
    forall|i: int, j: int|
        0 <= i < j < singles.len() ==> bytes_before(
            base_id(#[trigger] singles[i].id),
            base_id(#[trigger] singles[j].id),
        )
}

/// The four outputs and the counters of a join, in contracts.
pub struct JoinView {
    pub forward_paired: Seq<RecordView>,
    pub reverse_paired: Seq<RecordView>,
    pub forward_single: Seq<RecordView>,
    pub reverse_single: Seq<RecordView>,
    pub stats: Stats,
}

/// The counters say how many reads came in on each side and how many records
/// each output holds.
pub open spec fn counts_outputs(out: JoinView, forward_reads: nat, reverse_reads: nat) -> bool {
    &&& out.stats.forward_reads == forward_reads
    &&& out.stats.reverse_reads == reverse_reads
    &&& out.stats.forward_paired == out.forward_paired.len()
    &&& out.stats.reverse_paired == out.reverse_paired.len()
    &&& out.stats.forward_unpaired == out.forward_single.len()
    &&& out.stats.reverse_unpaired == out.reverse_single.len()
}

/// `out` is what the in-memory join gives for `forward` and `reverse`. The
/// paired outputs and the forward singletons are fixed, in content and in
/// order. The reverse singletons are fixed in content only.
pub open spec fn is_memory_join(
    out: JoinView,
    forward: Seq<RecordView>,
    reverse: Seq<RecordView>,
) -> bool {
    let end = two_file_join(forward, reverse);
    &&& out.forward_paired == end.forward_paired
    &&& out.reverse_paired == end.reverse_paired
    &&& out.forward_single == end.forward_single
    &&& lists_orphans(out.reverse_single, end.index)
    &&& counts_outputs(out, forward.len(), reverse.len())
}

/// `out` is what the external join gives for `forward` and `reverse`: what
/// the in-memory join gives, with the reverse singletons in ascending order
/// of their keys.
pub open spec fn is_disk_join(
    out: JoinView,
    forward: Seq<RecordView>,
    reverse: Seq<RecordView>,
) -> bool {
    &&& is_memory_join(out, forward, reverse)
    &&& in_key_order(out.reverse_single)
}

/// Some read of `reads` has the canonical key `key`.
pub open spec fn has_key(reads: Seq<RecordView>, key: Seq<u8>) -> bool {
    exists|i: int| 0 <= i < reads.len() && key_of(#[trigger] reads[i]) == key
}

/// The canonical keys of `reads`.
pub open spec fn key_set(reads: Seq<RecordView>) -> Set<Seq<u8>> {
    Set::new(|key: Seq<u8>| has_key(reads, key))
}

/// No forward read has the canonical key of a reverse read.
pub open spec fn keys_disjoint(forward: Seq<RecordView>, reverse: Seq<RecordView>) -> bool {
    forall|i: int, j: int|
        0 <= i < forward.len() && 0 <= j < reverse.len() ==> key_of(#[trigger] forward[i])
            != key_of(#[trigger] reverse[j])
}

/// No two reads of `reads` have the same canonical key.
pub open spec fn keys_distinct(reads: Seq<RecordView>) -> bool {
    forall|i: int, j: int|
        0 <= i < j < reads.len() ==> key_of(#[trigger] reads[i]) != key_of(#[trigger] reads[j])
}

/// The index holds the sequence and qualities of the read at `at` under its
/// key once all reverse reads are in: no later read under the same key has
/// put others in their place.
pub open spec fn survives(reverse: Seq<RecordView>, at: int) -> bool {
    index_after(reverse)[key_of(reverse[at])] == payload_of(reverse[at])
}

} // verus!
