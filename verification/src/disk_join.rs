//! The two-file join over an index kept on disk.
//!
//! The index lives in a scratch directory that is made when the join is
//! opened and removed when the join is dropped, however the join ends.
//!
//! Whether a call into the store succeeds is for the store to decide. What
//! follows each call stands in a function of its own, `assemble`,
//! `after_insert`, `after_flush`, `after_remove` and `after_scan`, which
//! takes the store's answer and says what comes of every answer.

use vstd::prelude::*;
use vstd::string::StringExecFns;
use crate::ident::append_suffix;
use crate::ident::base_id;
use crate::ident::bytes_before;
use crate::ident::lemma_not_before_itself;
use crate::ident::get_base_id;
use crate::ident::mate_id_for;
use crate::ident::TWO;
use crate::ident::lemma_suffix_strips;
use crate::model::keys_distinct;
use crate::laws::lemma_counters_balance;
use crate::facts::lemma_orphans_count;
use crate::model::in_key_order;
use crate::model::index_after;
use crate::model::is_disk_join;
use crate::model::join_after;
use crate::model::key_of;
use crate::model::lists_orphans;
use crate::model::mate_of;
use crate::model::orphan_of;
use crate::model::outcome_of;
use crate::model::payload_of;
use crate::model::Outcome;
use crate::output::JoinOutput;
use crate::output::Matched;
use crate::payload::decode_payload;
use crate::payload::decoded;
use crate::payload::encode_payload;
use crate::payload::lemma_decode_encode;
use crate::record::views;
use crate::record::Record;
use crate::record::RecordView;
use crate::stats::Stats;
use crate::store::scratch_dir;
use crate::store::store_entries;
use crate::store::store_flush;
use crate::store::store_insert;
use crate::store::store_is_empty;
use crate::store::scan_next;
use crate::store::Scan;
use crate::store::scan_pending;
use crate::store::store_scan;
use crate::store::store_open;
use crate::store::store_remove;

verus! {

/// Why the external index could not go on.
#[derive(Debug)]
pub enum IndexError {
    /// The scratch directory could not be made.
    Scratch(std::io::Error),
    /// The store could not be opened, read or written.
    Store(sled::Error),
    /// The store that was opened was not known to be empty.
    Occupied,
}

/// What becomes of a forward read, given the value that the store held
/// under its key.
pub open spec fn classified(read: crate::record::RecordView, stored: Option<Seq<u8>>) -> Outcome {
    match stored {
        Some(value) => Outcome::Paired { forward: read, reverse: mate_of(read, decoded(value)) },
        None => Outcome::Single { forward: read },
    }
}

/// Pairs a forward read with the value taken from the store, or makes it a
/// singleton where nothing was taken.
pub fn classify(read: Record, stored: Option<Vec<u8>>) -> (matched: Matched)
    ensures
        matched@ == classified(
            read@,
            match stored {
                Some(value) => Some(value@),
                None => None,
            },
        ),
{
    match stored {
        Some(value) => {
            let id = mate_id_for(read.id.as_slice());
            let parts = decode_payload(value.as_slice());
            Matched::Paired { forward: read, reverse: Record { id, seq: parts.0, qual: parts.1 } }
        },
        None => Matched::Single { forward: read },
    }
}

/// Makes the reverse singleton of an entry that stayed in the store.
pub fn orphan_from(key: Vec<u8>, value: &[u8]) -> (single: Record)
    ensures
        single@ == orphan_of(key@, decoded(value@)),
{
    let parts = decode_payload(value);
    Record { id: append_suffix(key, TWO), seq: parts.0, qual: parts.1 }
}

/// The external join as it runs: first the reverse reads are added, then
/// the forward reads are matched, then the rest is handed out.
pub struct DiskJoin {
    /// The store. It is dropped, and so closed, before its directory is
    /// removed.
    db: sled::Db,
    dir: tempfile::TempDir,
    stats: Stats,
}

impl DiskJoin {
    /// The reverse reads that are in the index: under each key, what the
    /// value stored there reads back as.
    pub closed spec fn index(&self) -> Map<Seq<u8>, (Seq<u8>, Option<Seq<u8>>)> {
        index_of_store(store_entries(self.db))
    }

    /// The counters so far.
    pub closed spec fn counts(&self) -> Stats {
        self.stats
    }

    /// Every forward read so far is classified, each pair is counted on both
    /// sides, no reverse singleton is counted before the end, and the
    /// entries of the index together with the pairs are no more than the
    /// reverse reads that were counted.
    pub open spec fn wf(&self) -> bool {
        &&& self.counts().forward_balanced()
        &&& self.counts().forward_paired == self.counts().reverse_paired
        &&& self.counts().reverse_unpaired == 0
        &&& self.index().dom().finite()
        &&& self.index().dom().len() + self.counts().reverse_paired <= self.counts().reverse_reads
    }

    /// Makes a scratch directory and opens an empty store in it.
    pub fn open() -> (opened: Result<DiskJoin, IndexError>)
        ensures
            opened matches Ok(join) ==> {
                &&& join.index() =~= Map::empty()
                &&& join.counts() == Stats::zero()
                &&& join.wf()
            },
    {
        let dir = match scratch_dir() {
            Ok(dir) => dir,
            Err(cause) => {
                return Err(IndexError::Scratch(cause));
            },
        };
        let db = match store_open(&dir, "pairfq_db") {
            Ok(db) => db,
            Err(cause) => {
                return Err(IndexError::Store(cause));
            },
        };
        let empty = store_is_empty(&db);
        assemble(dir, db, empty)
    }

    /// Reads the counters.
    pub fn stats(&self) -> (stats: Stats)
        ensures
            stats == self.counts(),
    {
        self.stats
    }

    /// Writes one reverse read to the store under its canonical key. An
    /// earlier read under the same key is replaced.
    pub fn add_reverse(&mut self, read: Record) -> (done: Result<(), IndexError>)
        requires
            old(self).wf(),
            old(self).counts().reverse_reads < u64::MAX,
        ensures
            done.is_ok() ==> {
                &&& final(self).wf()
                &&& final(self).index() == old(self).index().insert(
                    key_of(read@),
                    payload_of(read@),
                )
                &&& final(self).counts() == (Stats {
                    reverse_reads: (old(self).counts().reverse_reads + 1) as u64,
                    ..old(self).counts()
                })
            },
            done matches Err(cause) ==> cause is Store && final(self).counts() == old(self).counts(),
    {
        let value = match &read.qual {
            Some(qual) => encode_payload(read.seq.as_slice(), Some(qual.as_slice())),
            None => encode_payload(read.seq.as_slice(), None),
        };
        proof {
            lemma_decode_encode(read@.seq, read@.qual);
        }
        let written = store_insert(&mut self.db, get_base_id(read.id.as_slice()), value);
        assert(written.is_ok() ==> self.index() =~= old(self).index().insert(
            key_of(read@),
            payload_of(read@),
        ));
        after_insert(&mut self.stats, written)
    }

    /// Makes the store write out what was added so far. The index and the
    /// counters stay as they are.
    pub fn seal(&self) -> (done: Result<(), IndexError>)
        ensures
            done matches Err(cause) ==> cause is Store,
    {
        after_flush(store_flush(&self.db))
    }

    /// Looks one forward read up by its canonical key. A hit takes the entry
    /// out of the store and pairs the read with it; a miss leaves the store
    /// as it is.
    pub fn match_forward(&mut self, read: Record) -> (looked: Result<Matched, IndexError>)
        requires
            old(self).wf(),
            old(self).counts().forward_reads < u64::MAX,
        ensures
            looked matches Ok(matched) ==> {
                &&& final(self).wf()
                &&& matched@ == outcome_of(old(self).index(), read@)
                &&& matched is Paired ==> {
                    &&& final(self).index() == old(self).index().remove(key_of(read@))
                    &&& final(self).counts() == (Stats {
                        forward_reads: (old(self).counts().forward_reads + 1) as u64,
                        forward_paired: (old(self).counts().forward_paired + 1) as u64,
                        reverse_paired: (old(self).counts().reverse_paired + 1) as u64,
                        ..old(self).counts()
                    })
                }
                &&& matched is Single ==> {
                    &&& final(self).index() == old(self).index()
                    &&& final(self).counts() == (Stats {
                        forward_reads: (old(self).counts().forward_reads + 1) as u64,
                        forward_unpaired: (old(self).counts().forward_unpaired + 1) as u64,
                        ..old(self).counts()
                    })
                }
            },
            looked matches Err(cause) ==> cause is Store && final(self).counts() == old(self).counts(),
    {
        let taken = store_remove(&mut self.db, get_base_id(read.id.as_slice()));
        proof {
            let before = old(self).index();
            let key = key_of(read@);
            if taken is Ok {
                assert(self.index() =~= before.remove(key));
                assert(before.remove(key).dom() =~= before.dom().remove(key));
                if taken matches Ok(None) {
                    assert(before.remove(key) =~= before);
                }
            }
        }
        after_remove(&mut self.stats, read, taken)
    }

    /// Ends the matching and opens the hand-out of the rest: every entry
    /// still in the store will come out as a reverse singleton whose
    /// identifier is its key followed by `/2`, in ascending order of the
    /// keys.
    pub fn drain(self) -> (rest: DiskDrain)
        requires
            self.wf(),
        ensures
            rest.wf(),
            lists_orphans(rest.pending(), self.index()),
            in_key_order(rest.pending()),
            rest.counts() == self.counts(),
    {
        let ghost entries = store_entries(self.db);
        let ghost index = self.index();
        let rest = DiskDrain { scan: store_scan(self.db), dir: self.dir, stats: self.stats };
        proof {
            let listed = scan_pending(rest.scan);
            let out = rest.pending();
            assert forall|i: int| 0 <= i < out.len() implies {
                let key = base_id(#[trigger] out[i].id);
                index.contains_key(key) && out[i] == orphan_of(key, index[key])
            } by {
                lemma_suffix_strips(listed[i].0, TWO);
            }
            assert forall|key: Seq<u8>| #[trigger] index.contains_key(key) implies out.contains(
                orphan_of(key, index[key]),
            ) by {
                assert(entries.contains_key(key));
                let i = choose|i: int| 0 <= i < listed.len() && (#[trigger] listed[i]).0 == key;
                assert(out[i] == orphan_of(key, index[key]));
            }
            assert forall|i: int, j: int| 0 <= i < j < out.len() implies bytes_before(
                base_id(#[trigger] out[i].id),
                base_id(#[trigger] out[j].id),
            ) by {
                lemma_suffix_strips(listed[i].0, TWO);
                lemma_suffix_strips(listed[j].0, TWO);
            }
            assert forall|i: int, j: int| 0 <= i < j < out.len() implies (#[trigger] out[i]).id != (
            #[trigger] out[j]).id by {
                lemma_not_before_itself(base_id(out[i].id));
            }
            lemma_orphans_count(out, index);
        }
        rest
    }

    /// Ends the join and gathers the rest: the reverse singletons in
    /// ascending order of their keys, and the counters of the whole run.
    /// The store and its directory are removed.
    pub fn finish(self) -> (ended: Result<(Vec<Record>, Stats), IndexError>)
        requires
            self.wf(),
        ensures
            ended matches Ok(rest) ==> {
                &&& lists_orphans(views(rest.0@), self.index())
                &&& in_key_order(views(rest.0@))
                &&& rest.1 == (Stats { reverse_unpaired: rest.0.len() as u64, ..self.counts() })
                &&& rest.1.wf()
                &&& rest.1.forward_balanced()
            },
            ended matches Err(cause) ==> cause is Store,
    {
        let ghost index = self.index();
        let mut rest = self.drain();
        let ghost all = rest.pending();
        let mut singles: Vec<Record> = Vec::new();
        assert(all.take(0) =~= views(singles@));
        loop
            invariant
                rest.wf(),
                index == self.index(),
                lists_orphans(all, index),
                in_key_order(all),
                singles.len() + rest.pending().len() == all.len(),
                views(singles@) == all.take(singles.len() as int),
                rest.pending() == all.skip(singles.len() as int),
                rest.counts() == (Stats {
                    reverse_unpaired: singles.len() as u64,
                    ..self.counts()
                }),
            decreases rest.pending().len(),
        {
            let ghost before = rest.pending();
            let ghost counted = rest.counts();
            match rest.next() {
                Ok(Some(single)) => {
                    assert(views(singles@.push(single)) =~= views(singles@).push(single@));
                    assert(all.take(singles.len() + 1) =~= all.take(singles.len() as int).push(
                        all[singles.len() as int],
                    ));
                    assert(all.skip(singles.len() + 1) =~= all.skip(singles.len() as int).drop_first());
                    singles.push(single);
                },
                Ok(None) => {
                    assert(before.len() == 0);
                    assert(all.take(singles.len() as int) =~= all);
                    let stats = rest.finish();
                    assert(stats == counted);
                    assert(stats.wf());
                    return Ok((singles, stats));
                },
                Err(cause) => {
                    return Err(cause);
                },
            }
        }
    }
}

/// The hand-out of what the external index still holds once the forward
/// reads are through.
pub struct DiskDrain {
    /// The cursor over the store. It is dropped, and the store closed,
    /// before the directory is removed.
    scan: Scan,
    dir: tempfile::TempDir,
    stats: Stats,
}

impl DiskDrain {
    /// The reverse singletons that are yet to come, in order.
    pub closed spec fn pending(&self) -> Seq<RecordView> {
        scan_pending(self.scan).map_values(
            |item: (Seq<u8>, Seq<u8>)| orphan_of(item.0, decoded(item.1)),
        )
    }

    /// The counters so far.
    pub closed spec fn counts(&self) -> Stats {
        self.stats
    }

    /// Every forward read is classified, and the reverse singletons that
    /// are yet to come fit into the reverse reads that were counted.
    pub open spec fn wf(&self) -> bool {
        &&& self.counts().forward_balanced()
        &&& self.counts().forward_paired == self.counts().reverse_paired
        &&& self.pending().len() + self.counts().reverse_paired + self.counts().reverse_unpaired
            <= self.counts().reverse_reads
    }

    /// Reads the counters.
    pub fn stats(&self) -> (stats: Stats)
        ensures
            stats == self.counts(),
    {
        self.stats
    }

    /// Hands out the next reverse singleton and counts it, or nothing where
    /// none is left.
    pub fn next(&mut self) -> (step: Result<Option<Record>, IndexError>)
        requires
            old(self).wf(),
        ensures
            step matches Ok(Some(single)) ==> {
                &&& old(self).pending().len() > 0
                &&& single@ == old(self).pending()[0]
                &&& final(self).pending() == old(self).pending().drop_first()
                &&& final(self).counts() == (Stats {
                    reverse_unpaired: (old(self).counts().reverse_unpaired + 1) as u64,
                    ..old(self).counts()
                })
                &&& final(self).wf()
            },
            step matches Ok(None) ==> {
                &&& old(self).pending().len() == 0
                &&& final(self).counts() == old(self).counts()
            },
            step matches Err(cause) ==> cause is Store && final(self).counts() == old(self).counts(),
    {
        let found = scan_next(&mut self.scan);
        assert(found matches Some(Ok(item)) ==> self.pending() =~= old(self).pending().drop_first());
        after_scan(&mut self.stats, found)
    }

    /// Ends the hand-out and gives the counters of the whole run. The store
    /// and its directory are removed.
    pub fn finish(self) -> (stats: Stats)
        ensures
            stats == self.counts(),
    {
        self.stats
    }
}

/// Joins two lists of reads over an index kept on disk.
///
/// The reverse reads are written to a store in a scratch directory, then
/// each forward read is looked up. The paired outputs and the forward
/// singletons come in the order of the forward reads; the reverse
/// singletons come in ascending order of their keys. The scratch directory
/// is removed before the function returns, whether it succeeds or fails. It
/// fails only where the scratch directory or the store does.
pub fn run_ondisk(forward: Vec<Record>, reverse: Vec<Record>) -> (joined: Result<
    JoinOutput,
    IndexError,
>)
    ensures
        joined matches Ok(out) ==> {
            &&& is_disk_join(out@, views(forward@), views(reverse@))
            &&& out.stats.wf()
            &&& out.stats.forward_balanced()
            &&& out.stats.reverse_balanced() <==> keys_distinct(views(reverse@))
        },
{
    let ghost fwd = views(forward@);
    let ghost rev = views(reverse@);
    let ghost forward_reads = forward@;
    let ghost reverse_reads = reverse@;
    let forward_count: usize = forward.len();
    let reverse_count: usize = reverse.len();
    let mut join = DiskJoin::open()?;
    assert(rev.take(0) =~= Seq::empty());
    for read in it: reverse
        invariant
            it.seq() == reverse_reads,
            reverse_reads.len() == reverse_count,
            rev == views(reverse_reads),
            join.wf(),
            join.index() == index_after(rev.take(it.index() as int)),
            join.counts() == (Stats { reverse_reads: it.index() as u64, ..Stats::zero() }),
    {
        proof {
            let next = rev.take(it.index() + 1);
            assert(next.drop_last() =~= rev.take(it.index() as int));
            assert(next.last() == read@);
        }
        join.add_reverse(read)?;
    }
    assert(rev.take(reverse_count as int) =~= rev);
    join.seal()?;
    let ghost index = index_after(rev);
    let mut forward_paired: Vec<Record> = Vec::new();
    let mut reverse_paired: Vec<Record> = Vec::new();
    let mut forward_single: Vec<Record> = Vec::new();
    assert(fwd.take(0) =~= Seq::empty());
    assert(views(forward_paired@) =~= Seq::empty());
    assert(views(reverse_paired@) =~= Seq::empty());
    assert(views(forward_single@) =~= Seq::empty());
    for read in it: forward
        invariant
            it.seq() == forward_reads,
            forward_reads.len() == forward_count,
            fwd == views(forward_reads),
            join.wf(),
            join.index() == join_after(index, fwd.take(it.index() as int)).index,
            views(forward_paired@) == join_after(index, fwd.take(it.index() as int)).forward_paired,
            views(reverse_paired@) == join_after(index, fwd.take(it.index() as int)).reverse_paired,
            views(forward_single@) == join_after(index, fwd.take(it.index() as int)).forward_single,
            forward_paired.len() == reverse_paired.len(),
            forward_paired.len() + forward_single.len() == it.index(),
            join.counts() == (Stats {
                forward_reads: it.index() as u64,
                reverse_reads: reverse_count as u64,
                forward_paired: forward_paired.len() as u64,
                reverse_paired: reverse_paired.len() as u64,
                forward_unpaired: forward_single.len() as u64,
                reverse_unpaired: 0,
            }),
    {
        proof {
            let next = fwd.take(it.index() + 1);
            assert(next.drop_last() =~= fwd.take(it.index() as int));
            assert(next.last() == read@);
        }
        match join.match_forward(read)? {
            Matched::Paired { forward, reverse } => {
                assert(views(forward_paired@.push(forward)) =~= views(forward_paired@).push(forward@));
                assert(views(reverse_paired@.push(reverse)) =~= views(reverse_paired@).push(reverse@));
                forward_paired.push(forward);
                reverse_paired.push(reverse);
            },
            Matched::Single { forward } => {
                assert(views(forward_single@.push(forward)) =~= views(forward_single@).push(forward@));
                forward_single.push(forward);
            },
        }
    }
    assert(fwd.take(forward_count as int) =~= fwd);
    let (reverse_single, stats) = join.finish()?;
    let out = JoinOutput { forward_paired, reverse_paired, forward_single, reverse_single, stats };
    proof {
        lemma_counters_balance(out@, fwd, rev);
    }
    Ok(out)
}

/// The index that a store stands for: under each key, what the value
/// stored there reads back as.
pub open spec fn index_of_store(entries: Map<Seq<u8>, Seq<u8>>) -> Map<
    Seq<u8>,
    (Seq<u8>, Option<Seq<u8>>),
> {
    entries.map_values(|value: Seq<u8>| decoded(value))
}

/// Makes the join of a store that was just opened in `dir`, given the
/// store's answer to whether it is empty: a store that did not say so is
/// refused.
pub fn assemble(dir: tempfile::TempDir, db: sled::Db, empty: bool) -> (made: Result<
    DiskJoin,
    IndexError,
>)
    ensures
        empty ==> (made matches Ok(join) && join.index() == index_of_store(store_entries(db))
            && join.counts() == Stats::zero()),
        !empty ==> made matches Err(IndexError::Occupied),
{
    if empty {
        Ok(DiskJoin { db, dir, stats: Stats::new() })
    } else {
        Err(IndexError::Occupied)
    }
}

/// The words for the user where a store was refused because it did not say
/// that it was empty.
pub fn occupied_message() -> (text: String)
    ensures
        text@ == "The index on disk was not empty when it was opened"@,
{
    String::from_str("The index on disk was not empty when it was opened")
}

/// Takes the store's answer to the writing of a reverse read: a read that
/// was written is counted, a failure is handed on and nothing is counted.
pub fn after_insert(stats: &mut Stats, written: Result<(), sled::Error>) -> (done: Result<
    (),
    IndexError,
>)
    requires
        written is Ok ==> old(stats).reverse_reads < u64::MAX,
    ensures
        match written {
            Ok(_) => done is Ok && *final(stats) == (Stats {
                reverse_reads: (old(stats).reverse_reads + 1) as u64,
                ..*old(stats)
            }),
            Err(cause) => done matches Err(IndexError::Store(told)) && told == cause && *final(stats) == *old(stats),
        },
{
    match written {
        Ok(()) => {
            stats.count_indexed();
            Ok(())
        },
        Err(cause) => Err(IndexError::Store(cause)),
    }
}

/// Takes the store's answer to flushing: a failure is handed on.
pub fn after_flush(flushed: Result<(), sled::Error>) -> (done: Result<(), IndexError>)
    ensures
        match flushed {
            Ok(_) => done is Ok,
            Err(cause) => done matches Err(IndexError::Store(told)) && told == cause,
        },
{
    match flushed {
        Ok(()) => Ok(()),
        Err(cause) => Err(IndexError::Store(cause)),
    }
}

/// Takes the store's answer to the lookup of a forward read. A value that
/// was taken out pairs the read and is counted as a pair; nothing taken out
/// makes the read a singleton and is counted as one; a failure is handed on
/// and nothing is counted.
pub fn after_remove(
    stats: &mut Stats,
    read: Record,
    taken: Result<Option<Vec<u8>>, sled::Error>,
) -> (looked: Result<Matched, IndexError>)
    requires
        taken is Ok ==> old(stats).forward_reads < u64::MAX,
        taken matches Ok(Some(_)) ==> old(stats).forward_paired < u64::MAX && old(stats).reverse_paired < u64::MAX,
        taken matches Ok(None) ==> old(stats).forward_unpaired < u64::MAX,
    ensures
        match taken {
            Ok(Some(value)) => looked matches Ok(matched) && matched@ == classified(
                read@,
                Some(value@),
            ) && *final(stats) == (Stats {
                forward_reads: (old(stats).forward_reads + 1) as u64,
                forward_paired: (old(stats).forward_paired + 1) as u64,
                reverse_paired: (old(stats).reverse_paired + 1) as u64,
                ..*old(stats)
            }),
            Ok(None) => looked matches Ok(matched) && matched@ == classified(read@, None)
                && *final(stats) == (Stats {
                forward_reads: (old(stats).forward_reads + 1) as u64,
                forward_unpaired: (old(stats).forward_unpaired + 1) as u64,
                ..*old(stats)
            }),
            Err(cause) => looked matches Err(IndexError::Store(told)) && told == cause && *final(stats) == *old(stats),
        },
{
    match taken {
        Ok(found) => {
            if found.is_some() {
                stats.count_match();
            } else {
                stats.count_forward_single();
            }
            Ok(classify(read, found))
        },
        Err(cause) => Err(IndexError::Store(cause)),
    }
}

/// Takes the cursor's answer to the call for the next entry. An entry
/// becomes a reverse singleton and is counted; no entry gives nothing; a
/// failure is handed on and nothing is counted.
pub fn after_scan(
    stats: &mut Stats,
    found: Option<Result<(Vec<u8>, Vec<u8>), sled::Error>>,
) -> (step: Result<Option<Record>, IndexError>)
    requires
        found matches Some(Ok(_)) ==> old(stats).reverse_unpaired < u64::MAX,
    ensures
        match found {
            None => step matches Ok(None) && *final(stats) == *old(stats),
            Some(Ok(item)) => step matches Ok(Some(single)) && single@ == orphan_of(
                item.0@,
                decoded(item.1@),
            ) && *final(stats) == (Stats {
                reverse_unpaired: (old(stats).reverse_unpaired + 1) as u64,
                ..*old(stats)
            }),
            Some(Err(cause)) => step matches Err(IndexError::Store(told)) && told == cause
                && *final(stats) == *old(stats),
        },
{
    match found {
        None => Ok(None),
        Some(Ok(item)) => {
            stats.count_reverse_single();
            Ok(Some(orphan_from(item.0, item.1.as_slice())))
        },
        Some(Err(cause)) => Err(IndexError::Store(cause)),
    }
}

} // verus!
