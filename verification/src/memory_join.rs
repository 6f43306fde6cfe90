//! The two-file join over an index held in memory.

use vstd::prelude::*;
use crate::ident::append_suffix;
use crate::ident::get_base_id;
use crate::ident::lemma_suffix_strips;
use crate::ident::mate_id_for;
use crate::ident::TWO;
use crate::index::index_drain;
use crate::index::index_entries;
use crate::index::index_insert;
use crate::index::index_new;
use crate::index::index_remove;
use crate::index::lists_entries;
use crate::model::keys_distinct;
use crate::laws::lemma_counters_balance;
use crate::facts::lemma_orphans_count;
use crate::model::index_after;
use crate::model::is_memory_join;
use crate::model::join_after;
use crate::model::key_of;
use crate::model::lists_orphans;
use crate::model::orphan_of;
use crate::model::outcome_of;
use crate::model::payload_of;
use crate::output::JoinOutput;
use crate::output::Matched;
use crate::record::copy_bytes;
use crate::record::views;
use crate::record::Record;
use crate::stats::Stats;

verus! {

/// The in-memory join as it runs: first the reverse reads are added, then
/// the forward reads are matched, then the rest is handed out.
pub struct MemoryJoin {
    index: ahash::AHashMap<Vec<u8>, (Vec<u8>, Option<Vec<u8>>)>,
    stats: Stats,
}

impl MemoryJoin {
    /// The reverse reads that are in the index.
    pub closed spec fn entries(&self) -> Map<Seq<u8>, (Seq<u8>, Option<Seq<u8>>)> {
        index_entries(self.index)
    }

    /// The counters so far.
    pub closed spec fn counts(&self) -> Stats {
        self.stats
    }

    /// Every forward read so far is classified, each pair is counted on both
    /// sides, no reverse singleton is counted before the end, and the
    /// entries of the index together with the pairs are no more than the
    /// reverse reads that were counted.
    pub open spec fn wf(&self) -> bool {
        &&& self.counts().forward_balanced()
        &&& self.counts().forward_paired == self.counts().reverse_paired
        &&& self.counts().reverse_unpaired == 0
        &&& self.entries().dom().finite()
        &&& self.entries().dom().len() + self.counts().reverse_paired
            <= self.counts().reverse_reads
    }

    /// A join with an empty index and all counters at zero.
    pub fn new() -> (join: MemoryJoin)
        ensures
            join.entries() =~= Map::empty(),
            join.counts() == Stats::zero(),
            join.wf(),
    {
        MemoryJoin { index: index_new(), stats: Stats::new() }
    }

    /// Reads the counters.
    pub fn stats(&self) -> (stats: Stats)
        ensures
            stats == self.counts(),
    {
        self.stats
    }

    /// Takes one reverse read into the index under its canonical key. An
    /// earlier read under the same key is replaced.
    pub fn add_reverse(&mut self, read: Record)
        requires
            old(self).wf(),
            old(self).counts().reverse_reads < u64::MAX,
        ensures
            final(self).wf(),
            final(self).entries() == old(self).entries().insert(key_of(read@), payload_of(read@)),
            final(self).counts() == (Stats {
                reverse_reads: (old(self).counts().reverse_reads + 1) as u64,
                ..old(self).counts()
            }),
    {
        let key = copy_bytes(get_base_id(read.id.as_slice()));
        index_insert(&mut self.index, key, read.seq, read.qual);
        self.stats.count_indexed();
    }

    /// Looks one forward read up by its canonical key. A hit takes the entry
    /// out of the index and pairs the read with it; a miss leaves the index
    /// as it is.
    pub fn match_forward(&mut self, read: Record) -> (matched: Matched)
        requires
            old(self).wf(),
            old(self).counts().forward_reads < u64::MAX,
        ensures
            final(self).wf(),
            matched@ == outcome_of(old(self).entries(), read@),
            matched is Paired ==> {
                &&& final(self).entries() == old(self).entries().remove(key_of(read@))
                &&& final(self).counts() == (Stats {
                    forward_reads: (old(self).counts().forward_reads + 1) as u64,
                    forward_paired: (old(self).counts().forward_paired + 1) as u64,
                    reverse_paired: (old(self).counts().reverse_paired + 1) as u64,
                    ..old(self).counts()
                })
            },
            matched is Single ==> {
                &&& final(self).entries() == old(self).entries()
                &&& final(self).counts() == (Stats {
                    forward_reads: (old(self).counts().forward_reads + 1) as u64,
                    forward_unpaired: (old(self).counts().forward_unpaired + 1) as u64,
                    ..old(self).counts()
                })
            },
    {
        let found = index_remove(&mut self.index, get_base_id(read.id.as_slice()));
        assert(old(self).entries().remove(key_of(read@)).dom() =~= old(self).entries().dom().remove(
            key_of(read@),
        ));
        match found {
            Some(payload) => {
                let id = mate_id_for(read.id.as_slice());
                self.stats.count_match();
                Matched::Paired { forward: read, reverse: Record { id, seq: payload.0, qual: payload.1 } }
            },
            None => {
                assert(old(self).entries().remove(key_of(read@)) =~= old(self).entries());
                self.stats.count_forward_single();
                Matched::Single { forward: read }
            },
        }
    }

    /// Ends the join: every entry still in the index becomes a reverse
    /// singleton whose identifier is its key followed by `/2`. The order of
    /// the singletons is that in which the index hands them out.
    pub fn finish(self) -> (rest: (Vec<Record>, Stats))
        requires
            self.wf(),
        ensures
            lists_orphans(views(rest.0@), self.entries()),
            rest.1 == (Stats { reverse_unpaired: rest.0.len() as u64, ..self.counts() }),
            rest.1.wf(),
            rest.1.forward_balanced(),
    {
        let mut stats = self.stats;
        let items = index_drain(self.index);
        let ghost entries = self.entries();
        let ghost listed = items@;
        let count: usize = items.len();
        let mut singles: Vec<Record> = Vec::new();
        for item in it: items
            invariant
                it.seq() == listed,
                listed.len() == count,
                lists_entries(listed, entries),
                singles.len() == it.index(),
                stats == (Stats { reverse_unpaired: it.index() as u64, ..self.counts() }),
                forall|i: int|
                    0 <= i < singles.len() ==> (#[trigger] singles[i])@ == orphan_of(
                        listed[i].0@,
                        entries[listed[i].0@],
                    ),
        {
            let id = append_suffix(item.0, TWO);
            stats.count_reverse_single();
            singles.push(Record { id, seq: item.1, qual: item.2 });
        }
        proof {
            let out = views(singles@);
            assert forall|i: int| 0 <= i < out.len() implies {
                let key = crate::ident::base_id(#[trigger] out[i].id);
                entries.contains_key(key) && out[i] == orphan_of(key, entries[key])
            } by {
                let key = listed[i].0@;
                assert(out[i] == singles[i]@);
                lemma_suffix_strips(key, TWO);
            }
            assert forall|key: Seq<u8>| #[trigger] entries.contains_key(key) implies out.contains(
                orphan_of(key, entries[key]),
            ) by {
                let i = choose|i: int| 0 <= i < listed.len() && (#[trigger] listed[i]).0@ == key;
                assert(out[i] == singles[i]@);
            }
            assert forall|i: int, j: int| 0 <= i < j < out.len() implies (#[trigger] out[i]).id != (
            #[trigger] out[j]).id by {
                assert(out[i] == singles[i]@);
                assert(out[j] == singles[j]@);
                lemma_suffix_strips(listed[i].0@, TWO);
                lemma_suffix_strips(listed[j].0@, TWO);
            }
            lemma_orphans_count(out, entries);
        }
        (singles, stats)
    }
}

/// Joins two lists of reads over an index held in memory.
///
/// The reverse reads are indexed by canonical key, then each forward read
/// is looked up. The paired outputs and the forward singletons come in the
/// order of the forward reads; the reverse singletons come in the order in
/// which the index hands them out.
pub fn run_inmemory(forward: Vec<Record>, reverse: Vec<Record>) -> (out: JoinOutput)
    ensures
        is_memory_join(out@, views(forward@), views(reverse@)),
        out.stats.wf(),
        out.stats.forward_balanced(),
        out.stats.reverse_balanced() <==> keys_distinct(views(reverse@)),
{
    let ghost fwd = views(forward@);
    let ghost rev = views(reverse@);
    let ghost forward_reads = forward@;
    let ghost reverse_reads = reverse@;
    let forward_count: usize = forward.len();
    let reverse_count: usize = reverse.len();
    let mut join = MemoryJoin::new();
    assert(rev.take(0) =~= Seq::empty());
    for read in it: reverse
        invariant
            it.seq() == reverse_reads,
            reverse_reads.len() == reverse_count,
            rev == views(reverse_reads),
            join.wf(),
            join.entries() == index_after(rev.take(it.index() as int)),
            join.counts() == (Stats { reverse_reads: it.index() as u64, ..Stats::zero() }),
    {
        proof {
            let next = rev.take(it.index() + 1);
            assert(next.drop_last() =~= rev.take(it.index() as int));
            assert(next.last() == read@);
        }
        join.add_reverse(read);
    }
    assert(rev.take(reverse_count as int) =~= rev);
    let ghost index = index_after(rev);
    let mut forward_paired: Vec<Record> = Vec::new();
    let mut reverse_paired: Vec<Record> = Vec::new();
    let mut forward_single: Vec<Record> = Vec::new();
    assert(fwd.take(0) =~= Seq::empty());
    assert(views(forward_paired@) =~= Seq::empty());
    assert(views(reverse_paired@) =~= Seq::empty());
    assert(views(forward_single@) =~= Seq::empty());
    for read in it: forward
        invariant
            it.seq() == forward_reads,
            forward_reads.len() == forward_count,
            fwd == views(forward_reads),
            join.wf(),
            join.entries() == join_after(index, fwd.take(it.index() as int)).index,
            views(forward_paired@) == join_after(index, fwd.take(it.index() as int)).forward_paired,
            views(reverse_paired@) == join_after(index, fwd.take(it.index() as int)).reverse_paired,
            views(forward_single@) == join_after(index, fwd.take(it.index() as int)).forward_single,
            forward_paired.len() == reverse_paired.len(),
            forward_paired.len() + forward_single.len() == it.index(),
            join.counts() == (Stats {
                forward_reads: it.index() as u64,
                reverse_reads: reverse_count as u64,
                forward_paired: forward_paired.len() as u64,
                reverse_paired: reverse_paired.len() as u64,
                forward_unpaired: forward_single.len() as u64,
                reverse_unpaired: 0,
            }),
    {
        proof {
            let next = fwd.take(it.index() + 1);
            assert(next.drop_last() =~= fwd.take(it.index() as int));
            assert(next.last() == read@);
        }
        match join.match_forward(read) {
            Matched::Paired { forward, reverse } => {
                assert(views(forward_paired@.push(forward)) =~= views(forward_paired@).push(forward@));
                assert(views(reverse_paired@.push(reverse)) =~= views(reverse_paired@).push(reverse@));
                forward_paired.push(forward);
                reverse_paired.push(reverse);
            },
            Matched::Single { forward } => {
                assert(views(forward_single@.push(forward)) =~= views(forward_single@).push(forward@));
                forward_single.push(forward);
            },
        }
    }
    assert(fwd.take(forward_count as int) =~= fwd);
    let (reverse_single, stats) = join.finish();
    let out = JoinOutput { forward_paired, reverse_paired, forward_single, reverse_single, stats };
    proof {
        lemma_counters_balance(out@, fwd, rev);
    }
    out
}

} // verus!
