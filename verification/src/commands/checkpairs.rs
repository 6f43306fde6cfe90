//! Checking that two files hold intact reads in equal number.

use vstd::prelude::*;
use vstd::string::StringExecFns;
use crate::text::append_decimal;
use crate::text::decimal;

verus! {

/// What reading one file through came to.
#[derive(Debug, PartialEq, Eq)]
pub struct FileCheckResult {
    /// The name of the file.
    pub path: String,
    /// No read of the file was malformed.
    pub integrity_ok: bool,
    /// The number of intact reads before the first malformed one.
    pub count: usize,
}

/// The number of reads that were intact before the first malformed one,
/// among the first `upto` outcomes.
pub open spec fn intact_before(outcomes: Seq<bool>, upto: int) -> int
    decreases upto,
{
    if upto <= 0 {
        0
    } else if intact_before(outcomes, upto - 1) == upto - 1 && outcomes[upto - 1] {
        upto
    } else {
        intact_before(outcomes, upto - 1)
    }
}

/// Every outcome is a success.
pub open spec fn all_intact(outcomes: Seq<bool>) -> bool {
    forall|i: int| 0 <= i < outcomes.len() ==> outcomes[i]
}

impl FileCheckResult {
    /// The result for the file named `path` before any of its reads was
    /// looked at.
    pub fn begin(path: &str) -> (res: FileCheckResult)
        ensures
            res.path@ == path@,
            res.integrity_ok,
            res.count == 0,
    {
        FileCheckResult { path: String::from_str(path), integrity_ok: true, count: 0 }
    }

    /// Takes the outcome of reading the next read, and tells whether to
    /// read on. An intact read is counted. A malformed read is not counted
    /// and ends the counting: from then on nothing changes.
    pub fn note(&mut self, intact: bool) -> (go_on: bool)
        requires
            old(self).integrity_ok && intact ==> old(self).count < usize::MAX,
        ensures
            go_on == (old(self).integrity_ok && intact),
            final(self).path == old(self).path,
            final(self).integrity_ok == go_on,
            final(self).count == if go_on {
                old(self).count + 1
            } else {
                old(self).count as int
            },
    {
        if self.integrity_ok && intact {
            self.count = self.count + 1;
            true
        } else {
            self.integrity_ok = false;
            false
        }
    }
}

/// Sums up the outcomes of reading the reads of one file, in order, each
/// outcome saying whether the read was intact. Reading counts up to the
/// first malformed read and stops there.
pub fn check_file(path: &str, outcomes: &[bool]) -> (res: FileCheckResult)
    ensures
        res.path@ == path@,
        res.integrity_ok == all_intact(outcomes@),
        res.count == intact_before(outcomes@, outcomes.len() as int),
        res.integrity_ok ==> res.count == outcomes.len(),
        !res.integrity_ok ==> res.count < outcomes.len() && !outcomes[res.count as int],
        forall|i: int| 0 <= i < res.count ==> outcomes[i],
{
    let mut res = FileCheckResult::begin(path);
    let mut i: usize = 0;
    while i < outcomes.len() && res.integrity_ok
        invariant
            i <= outcomes.len(),
            res.path@ == path@,
            forall|k: int| 0 <= k < res.count ==> outcomes[k],
            intact_before(outcomes@, res.count as int) == res.count,
            res.integrity_ok ==> res.count == i,
            !res.integrity_ok ==> res.count + 1 == i && !outcomes[res.count as int],
        decreases outcomes.len() - i,
    {
        res.note(outcomes[i]);
        i += 1;
    }
    proof {
        if !res.integrity_ok {
            lemma_stops_at(outcomes@, res.count as int, outcomes.len() as int);
        }
    }
    res
}

/// Once a malformed read was met, the count stays.
pub proof fn lemma_stops_at(outcomes: Seq<bool>, at: int, upto: int)
    requires
        0 <= at < upto <= outcomes.len(),
        intact_before(outcomes, at) == at,
        !outcomes[at],
    ensures
        intact_before(outcomes, upto) == at,
    decreases upto,
{
    if upto > at + 1 {
        lemma_stops_at(outcomes, at, upto - 1);
    }
}

/// Both files are intact and hold the same number of reads.
pub open spec fn paired_ok(forward: FileCheckResult, reverse: FileCheckResult) -> bool {
    forward.integrity_ok && reverse.integrity_ok && forward.count == reverse.count
}

/// The number of reads of a file that have a mate in the other: all of
/// them where the pairing is in order, else the smaller of the two counts.
pub open spec fn paired_reads(pairing_ok: bool, count: nat, other: nat) -> nat {
    if pairing_ok || count <= other {
        count
    } else {
        other
    }
}

/// The number of reads of a file that have no mate in the other.
pub open spec fn unpaired_reads(count: nat, other: nat) -> nat {
    if count > other {
        (count - other) as nat
    } else {
        0
    }
}

/// The mark for yes or no.
pub open spec fn mark(yes: bool) -> Seq<char> {
    if yes {
        seq!['\u{2705}']
    } else {
        seq!['\u{274C}']
    }
}

/// The line of one file: its name, the mark for its integrity, the mark
/// for the pairing, the number of its paired reads and the number of its
/// unpaired reads, parted by tabs and closed by a line feed.
pub open spec fn row_text(
    path: Seq<char>,
    integrity_ok: bool,
    pairing_ok: bool,
    count: nat,
    other: nat,
) -> Seq<char> {
    path + seq!['\t'] + mark(integrity_ok) + seq!['\t'] + mark(pairing_ok) + seq!['\t'] + decimal(
        paired_reads(pairing_ok, count, other),
    ) + seq!['\t'] + decimal(unpaired_reads(count, other)) + seq!['\n']
}

/// Appends the mark for yes or no to `text`.
fn append_mark(text: &mut String, yes: bool)
    ensures
        final(text)@ == old(text)@ + mark(yes),
{
    proof {
        reveal_strlit("\u{2705}");
        reveal_strlit("\u{274C}");
    }
    if yes {
        text.append("\u{2705}");
    } else {
        text.append("\u{274C}");
    }
}

/// Writes the line of one file. `other` is the result for the other file.
pub fn format_row(res: &FileCheckResult, pairing_ok: bool, other: &FileCheckResult) -> (text: String)
    ensures
        text@ == row_text(
            res.path@,
            res.integrity_ok,
            pairing_ok,
            res.count as nat,
            other.count as nat,
        ),
{
    proof {
        reveal_strlit("\t");
        reveal_strlit("\n");
    }
    let paired: usize = if pairing_ok || res.count <= other.count {
        res.count
    } else {
        other.count
    };
    let unpaired: usize = if res.count > other.count {
        res.count - other.count
    } else {
        0
    };
    let mut text = String::from_str(res.path.as_str());
    text.append("\t");
    append_mark(&mut text, res.integrity_ok);
    text.append("\t");
    append_mark(&mut text, pairing_ok);
    text.append("\t");
    append_decimal(&mut text, paired as u128);
    text.append("\t");
    append_decimal(&mut text, unpaired as u128);
    text.append("\n");
    text
}

/// The table for two files: the line of headings, the line of the forward
/// file and the line of the reverse file.
pub open spec fn table_text(forward: FileCheckResult, reverse: FileCheckResult) -> Seq<char> {
    "file\tintegrity\tpaired\tpaired_reads\tunpaired_reads\n"@ + row_text(
        forward.path@,
        forward.integrity_ok,
        paired_ok(forward, reverse),
        forward.count as nat,
        reverse.count as nat,
    ) + row_text(
        reverse.path@,
        reverse.integrity_ok,
        paired_ok(forward, reverse),
        reverse.count as nat,
        forward.count as nat,
    )
}

/// Writes the table for the results of two files.
pub fn run(forward: &FileCheckResult, reverse: &FileCheckResult) -> (text: String)
    ensures
        text@ == table_text(*forward, *reverse),
{
    let pairing_ok = forward.integrity_ok && reverse.integrity_ok && forward.count
        == reverse.count;
    let mut text = String::from_str("file\tintegrity\tpaired\tpaired_reads\tunpaired_reads\n");
    text.append(format_row(forward, pairing_ok, reverse).as_str());
    text.append(format_row(reverse, pairing_ok, forward).as_str());
    text
}

} // verus!
