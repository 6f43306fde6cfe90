//! The join of one interleaved stream.
//!
//! The reads are taken two by two. The first of each two is a forward read,
//! the second its reverse mate; no identifier is looked at. A read left over
//! at the end is a forward singleton. Nothing is looked up, and one read at
//! most is held back at any time.

use vstd::prelude::*;
use crate::model::JoinView;
use crate::output::JoinOutput;
use crate::record::views;
use crate::record::Record;
use crate::record::RecordView;
use crate::stats::Stats;

verus! {

/// The reads at the even positions of the complete pairs of `reads`.
pub open spec fn firsts(reads: Seq<RecordView>) -> Seq<RecordView> {
    Seq::new(reads.len() / 2, |i: int| reads[2 * i])
}

/// The reads at the odd positions of `reads`.
pub open spec fn seconds(reads: Seq<RecordView>) -> Seq<RecordView> {
    Seq::new(reads.len() / 2, |i: int| reads[2 * i + 1])
}

/// The last read of `reads` where their number is odd, nothing otherwise.
pub open spec fn leftover(reads: Seq<RecordView>) -> Seq<RecordView> {
    if reads.len() % 2 == 1 {
        seq![reads.last()]
    } else {
        Seq::empty()
    }
}

/// The counters after `reads` reads of an interleaved stream.
pub open spec fn interleaved_counts(reads: nat) -> Stats {
    Stats {
        forward_reads: (reads / 2 + reads % 2) as u64,
        reverse_reads: (reads / 2) as u64,
        forward_paired: (reads / 2) as u64,
        reverse_paired: (reads / 2) as u64,
        forward_unpaired: (reads % 2) as u64,
        reverse_unpaired: 0,
    }
}

/// `out` is what the interleaved join gives for `reads`.
pub open spec fn is_interleaved_join(out: JoinView, reads: Seq<RecordView>) -> bool {
    &&& out.forward_paired == firsts(reads)
    &&& out.reverse_paired == seconds(reads)
    &&& out.forward_single == leftover(reads)
    &&& out.reverse_single == Seq::<RecordView>::empty()
    &&& out.stats == interleaved_counts(reads.len())
}

/// The interleaved join as it runs.
pub struct InterleavedJoin {
    held: Option<Record>,
    stats: Stats,
}

impl InterleavedJoin {
    /// The read that waits for its mate, if one does.
    pub closed spec fn held(&self) -> Option<RecordView> {
        match self.held {
            Some(read) => Some(read@),
            None => None,
        }
    }

    /// The counters so far. A read that is held back is not counted yet.
    pub closed spec fn counts(&self) -> Stats {
        self.stats
    }

    /// Only complete pairs are counted while the join runs.
    pub open spec fn wf(&self) -> bool {
        &&& self.counts().forward_reads == self.counts().forward_paired
        &&& self.counts().reverse_reads == self.counts().forward_paired
        &&& self.counts().reverse_paired == self.counts().forward_paired
        &&& self.counts().forward_unpaired == 0
        &&& self.counts().reverse_unpaired == 0
    }

    /// A join that holds no read, with all counters at zero.
    pub fn new() -> (join: InterleavedJoin)
        ensures
            join.held() is None,
            join.counts() == Stats::zero(),
            join.wf(),
    {
        InterleavedJoin { held: None, stats: Stats::new() }
    }

    /// Reads the counters.
    pub fn stats(&self) -> (stats: Stats)
        ensures
            stats == self.counts(),
    {
        self.stats
    }

    /// Takes the next read of the stream. Where no read is held back, this
    /// one is, and nothing comes out. Where one is held back, that one comes
    /// out as the forward read and this one as its reverse mate, and the
    /// pair is counted.
    pub fn push(&mut self, read: Record) -> (pair: Option<(Record, Record)>)
        requires
            old(self).wf(),
            old(self).held() is Some ==> old(self).counts().forward_reads < u64::MAX,
        ensures
            final(self).wf(),
            old(self).held() is None ==> {
                &&& pair is None
                &&& final(self).held() == Some(read@)
                &&& final(self).counts() == old(self).counts()
            },
            old(self).held() matches Some(first) ==> {
                &&& pair matches Some(both)
                &&& both.0@ == first
                &&& both.1@ == read@
                &&& final(self).held() is None
                &&& final(self).counts() == (Stats {
                    forward_reads: (old(self).counts().forward_reads + 1) as u64,
                    reverse_reads: (old(self).counts().reverse_reads + 1) as u64,
                    forward_paired: (old(self).counts().forward_paired + 1) as u64,
                    reverse_paired: (old(self).counts().reverse_paired + 1) as u64,
                    ..old(self).counts()
                })
            },
    {
        match self.held.take() {
            Some(first) => {
                self.stats.count_pair();
                Some((first, read))
            },
            None => {
                self.held = Some(read);
                None
            },
        }
    }

    /// Ends the join. A read that is still held back comes out as a forward
    /// singleton and is counted as one.
    pub fn finish(self) -> (rest: (Option<Record>, Stats))
        requires
            self.wf(),
            self.held() is Some ==> self.counts().forward_reads < u64::MAX,
        ensures
            self.held() is None ==> rest.0 is None && rest.1 == self.counts(),
            self.held() matches Some(last) ==> {
                &&& rest.0 matches Some(single)
                &&& single@ == last
                &&& rest.1 == (Stats {
                    forward_reads: (self.counts().forward_reads + 1) as u64,
                    forward_unpaired: 1,
                    ..self.counts()
                })
            },
    {
        let mut stats = self.stats;
        match self.held {
            Some(last) => {
                stats.count_forward_single();
                (Some(last), stats)
            },
            None => (None, stats),
        }
    }
}

/// Joins the reads of one interleaved stream.
///
/// Of `n` reads, `2 * (n / 2)` come out paired, the forward reads being
/// those at the even positions and the reverse reads those at the odd
/// positions. Where `n` is odd the last read is the one forward singleton.
/// There is never a reverse singleton.
pub fn run_interleaved(reads: Vec<Record>) -> (out: JoinOutput)
    ensures
        is_interleaved_join(out@, views(reads@)),
        out.forward_paired.len() + out.reverse_paired.len() == 2 * (reads.len() / 2),
        reads.len() % 2 == 1 ==> out@.forward_single == seq![views(reads@).last()],
        reads.len() % 2 == 0 ==> out.forward_single.len() == 0,
        out.reverse_single.len() == 0,
        out.stats.forward_balanced(),
        out.stats.reverse_balanced(),
{
    let ghost all = views(reads@);
    let ghost items = reads@;
    let count: usize = reads.len();
    let mut join = InterleavedJoin::new();
    let mut forward_paired: Vec<Record> = Vec::new();
    let mut reverse_paired: Vec<Record> = Vec::new();
    for read in it: reads
        invariant
            it.seq() == items,
            items.len() == count,
            all == views(items),
            join.wf(),
            views(forward_paired@) =~= firsts(all.take(it.index() as int)),
            views(reverse_paired@) =~= seconds(all.take(it.index() as int)),
            join.counts().forward_paired == it.index() / 2,
            it.index() % 2 == 0 ==> join.held() is None,
            it.index() % 2 == 1 ==> join.held() == Some(all[it.index() - 1]),
    {
        let ghost done = it.index() as int;
        match join.push(read) {
            Some(both) => {
                assert(views(forward_paired@.push(both.0)) =~= views(forward_paired@).push(both.0@));
                assert(views(reverse_paired@.push(both.1)) =~= views(reverse_paired@).push(both.1@));
                forward_paired.push(both.0);
                reverse_paired.push(both.1);
                assert(views(forward_paired@) =~= firsts(all.take(done + 1)));
                assert(views(reverse_paired@) =~= seconds(all.take(done + 1)));
            },
            None => {
                assert(firsts(all.take(done + 1)) =~= firsts(all.take(done)));
                assert(seconds(all.take(done + 1)) =~= seconds(all.take(done)));
            },
        }
    }
    assert(all.take(count as int) =~= all);
    let (last, stats) = join.finish();
    let mut forward_single: Vec<Record> = Vec::new();
    match last {
        Some(single) => {
            forward_single.push(single);
            assert(views(forward_single@) =~= leftover(all));
        },
        None => {
            assert(views(forward_single@) =~= leftover(all));
        },
    }
    let reverse_single: Vec<Record> = Vec::new();
    assert(views(reverse_single@) =~= Seq::<RecordView>::empty());
    JoinOutput { forward_paired, reverse_paired, forward_single, reverse_single, stats }
}

} // verus!
