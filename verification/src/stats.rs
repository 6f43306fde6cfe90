//! Counters of one pairing run.

use vstd::prelude::*;
use vstd::string::StringExecFns;
use crate::text::append_decimal;
use crate::text::append_left_aligned;
use crate::text::append_right_aligned;
use crate::text::decimal;
use crate::text::padded_left;
use crate::text::padded_right;

verus! {

/// Six counters, created at zero for each run and advanced by the strategy
/// that is running.
#[derive(Clone, Copy, Debug, PartialEq, Eq, Structural)]
pub struct Stats {
    pub forward_reads: u64,
    pub reverse_reads: u64,
    pub forward_paired: u64,
    pub reverse_paired: u64,
    pub forward_unpaired: u64,
    pub reverse_unpaired: u64,
}

impl Stats {
    /// No classified count exceeds the reads counted on its side.
    pub open spec fn wf(&self) -> bool {
        &&& self.forward_paired + self.forward_unpaired <= self.forward_reads
        &&& self.reverse_paired + self.reverse_unpaired <= self.reverse_reads
    }

    /// Every read counted on the forward side is classified.
    pub open spec fn forward_balanced(&self) -> bool {
        self.forward_reads == self.forward_paired + self.forward_unpaired
    }

    /// Every read counted on the reverse side is classified.
    pub open spec fn reverse_balanced(&self) -> bool {
        self.reverse_reads == self.reverse_paired + self.reverse_unpaired
    }

    /// The number of paired reads of both sides.
    pub open spec fn paired_total(&self) -> nat {
        (self.forward_paired + self.reverse_paired) as nat
    }

    /// The number of unpaired reads of both sides.
    pub open spec fn unpaired_total(&self) -> nat {
        (self.forward_unpaired + self.reverse_unpaired) as nat
    }

    /// All counters at zero.
    pub open spec fn zero() -> Stats {
        Stats {
            forward_reads: 0,
            reverse_reads: 0,
            forward_paired: 0,
            reverse_paired: 0,
            forward_unpaired: 0,
            reverse_unpaired: 0,
        }
    }

    /// Fresh counters for a run.
    pub fn new() -> (stats: Stats)
        ensures
            stats == Stats::zero(),
            stats.wf(),
    {
        Stats {
            forward_reads: 0,
            reverse_reads: 0,
            forward_paired: 0,
            reverse_paired: 0,
            forward_unpaired: 0,
            reverse_unpaired: 0,
        }
    }

    /// Forward paired reads plus reverse paired reads.
    pub fn total_paired(&self) -> (total: u128)
        ensures
            total == self.paired_total(),
    {
        self.forward_paired as u128 + self.reverse_paired as u128
    }

    /// Forward unpaired reads plus reverse unpaired reads.
    pub fn total_unpaired(&self) -> (total: u128)
        ensures
            total == self.unpaired_total(),
    {
        self.forward_unpaired as u128 + self.reverse_unpaired as u128
    }

    /// Counts one reverse read that was taken into the index.
    pub fn count_indexed(&mut self)
        requires
            old(self).reverse_reads < u64::MAX,
        ensures
            *final(self) == (Stats { reverse_reads: (old(self).reverse_reads + 1) as u64, ..*old(self) }),
    {
        self.reverse_reads = self.reverse_reads + 1;
    }

    /// Counts one forward read that found its mate in the index.
    pub fn count_match(&mut self)
        requires
            old(self).forward_reads < u64::MAX,
            old(self).forward_paired < u64::MAX,
            old(self).reverse_paired < u64::MAX,
        ensures
            *final(self) == (Stats {
                forward_reads: (old(self).forward_reads + 1) as u64,
                forward_paired: (old(self).forward_paired + 1) as u64,
                reverse_paired: (old(self).reverse_paired + 1) as u64,
                ..*old(self)
            }),
    {
        self.forward_reads = self.forward_reads + 1;
        self.forward_paired = self.forward_paired + 1;
        self.reverse_paired = self.reverse_paired + 1;
    }

    /// Counts one forward read without a mate.
    pub fn count_forward_single(&mut self)
        requires
            old(self).forward_reads < u64::MAX,
            old(self).forward_unpaired < u64::MAX,
        ensures
            *final(self) == (Stats {
                forward_reads: (old(self).forward_reads + 1) as u64,
                forward_unpaired: (old(self).forward_unpaired + 1) as u64,
                ..*old(self)
            }),
    {
        self.forward_reads = self.forward_reads + 1;
        self.forward_unpaired = self.forward_unpaired + 1;
    }

    /// Counts one reverse read that stayed in the index to the end.
    pub fn count_reverse_single(&mut self)
        requires
            old(self).reverse_unpaired < u64::MAX,
        ensures
            *final(self) == (Stats {
                reverse_unpaired: (old(self).reverse_unpaired + 1) as u64,
                ..*old(self)
            }),
    {
        self.reverse_unpaired = self.reverse_unpaired + 1;
    }

    /// Counts one complete pair of an interleaved stream: a read and a
    /// paired read on each side.
    pub fn count_pair(&mut self)
        requires
            old(self).forward_reads < u64::MAX,
            old(self).reverse_reads < u64::MAX,
            old(self).forward_paired < u64::MAX,
            old(self).reverse_paired < u64::MAX,
        ensures
            *final(self) == (Stats {
                forward_reads: (old(self).forward_reads + 1) as u64,
                reverse_reads: (old(self).reverse_reads + 1) as u64,
                forward_paired: (old(self).forward_paired + 1) as u64,
                reverse_paired: (old(self).reverse_paired + 1) as u64,
                ..*old(self)
            }),
    {
        self.forward_reads = self.forward_reads + 1;
        self.reverse_reads = self.reverse_reads + 1;
        self.forward_paired = self.forward_paired + 1;
        self.reverse_paired = self.reverse_paired + 1;
    }
}

/// The width of the column of labels in the report.
pub const LABEL_WIDTH: usize = 30;

/// The width of the column of numbers in the report.
pub const COUNT_WIDTH: usize = 10;

/// One line of the report: the label, left-aligned in its column, then
/// ` : `, then the number, right-aligned in its column, then a line feed.
pub open spec fn stat_line(label: Seq<char>, count: nat) -> Seq<char> {
    padded_right(label, LABEL_WIDTH as nat) + seq![' ', ':', ' '] + padded_left(
        decimal(count),
        COUNT_WIDTH as nat,
    ) + seq!['\n']
}

/// The report: six lines for the six counters, an empty line, and two lines
/// for the totals.
pub open spec fn report_text(stats: Stats) -> Seq<char> {
    stat_line("Total forward reads"@, stats.forward_reads as nat) + stat_line(
        "Total reverse reads"@,
        stats.reverse_reads as nat,
    ) + stat_line("Total forward paired reads"@, stats.forward_paired as nat) + stat_line(
        "Total reverse paired reads"@,
        stats.reverse_paired as nat,
    ) + stat_line("Total forward unpaired reads"@, stats.forward_unpaired as nat) + stat_line(
        "Total reverse unpaired reads"@,
        stats.reverse_unpaired as nat,
    ) + seq!['\n'] + stat_line("Total paired reads"@, stats.paired_total()) + stat_line(
        "Total unpaired reads"@,
        stats.unpaired_total(),
    )
}

/// Appends one line of the report to `text`.
pub fn append_stat_line(text: &mut String, label: &str, count: u128)
    ensures
        final(text)@ == old(text)@ + stat_line(label@, count as nat),
{
    proof {
        reveal_strlit(" : ");
        reveal_strlit("\n");
    }
    let mut digits = String::new();
    append_decimal(&mut digits, count);
    assert(digits@ =~= decimal(count as nat));
    append_left_aligned(text, label, LABEL_WIDTH);
    text.append(" : ");
    append_right_aligned(text, digits.as_str(), COUNT_WIDTH);
    text.append("\n");
    assert(text@ =~= old(text)@ + stat_line(label@, count as nat));
}

/// Writes the report of a run.
pub fn format_stats(stats: &Stats) -> (text: String)
    ensures
        text@ == report_text(*stats),
{
    proof {
        reveal_strlit("\n");
    }
    let mut text = String::new();
    append_stat_line(&mut text, "Total forward reads", stats.forward_reads as u128);
    append_stat_line(&mut text, "Total reverse reads", stats.reverse_reads as u128);
    append_stat_line(&mut text, "Total forward paired reads", stats.forward_paired as u128);
    append_stat_line(&mut text, "Total reverse paired reads", stats.reverse_paired as u128);
    append_stat_line(&mut text, "Total forward unpaired reads", stats.forward_unpaired as u128);
    append_stat_line(&mut text, "Total reverse unpaired reads", stats.reverse_unpaired as u128);
    text.append("\n");
    append_stat_line(&mut text, "Total paired reads", stats.total_paired());
    append_stat_line(&mut text, "Total unpaired reads", stats.total_unpaired());
    assert(text@ =~= report_text(*stats));
    text
}

} // verus!
