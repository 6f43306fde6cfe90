//! Interleaving the reads of a forward and a reverse file.

use vstd::prelude::*;
use vstd::string::StringExecFns;
use crate::ident::ends_with_suffix;
use crate::ident::has_suffix;
use crate::ident::ONE;
use crate::ident::TWO;
use crate::record::Record;
use crate::record::RecordView;
use crate::text::not_text_message;
use crate::text::not_text_words;
use crate::utils::format_record;
use crate::utils::is_text;
use crate::utils::read_text;

verus! {

/// What to do once both streams were asked for their next read.
#[derive(Clone, Copy, Debug, PartialEq, Eq, Structural)]
pub enum Lockstep {
    /// Both gave a read: write the two.
    Pair,
    /// Both are at their end: done.
    Done,
    /// One is at its end and the other is not.
    Mismatch,
}

/// Why the interleaving stopped.
#[derive(Clone, Copy, Debug, PartialEq, Eq, Structural)]
pub enum JoinError {
    /// A read of the pair at this position, counted from zero, holds bytes
    /// that are not well-formed UTF-8.
    Encoding { pair: usize },
    /// The two inputs do not hold the same number of reads.
    Mismatch,
}

/// The words of a `JoinError` for the user.
pub open spec fn join_error_words(wrong: JoinError) -> Seq<char> {
    match wrong {
        JoinError::Encoding { pair } => not_text_words("Pair "@, pair as nat),
        JoinError::Mismatch => "Files have different number of records"@,
    }
}

impl JoinError {
    /// The words for the user.
    pub fn message(&self) -> (text: String)
        ensures
            text@ == join_error_words(*self),
    {
        match self {
            JoinError::Encoding { pair } => not_text_message("Pair ", *pair),
            JoinError::Mismatch => String::from_str("Files have different number of records"),
        }
    }
}

/// Decides how to go on from whether each stream gave a read.
pub fn lockstep(forward: bool, reverse: bool) -> (next: Lockstep)
    ensures
        next == if forward && reverse {
            Lockstep::Pair
        } else if !forward && !reverse {
            Lockstep::Done
        } else {
            Lockstep::Mismatch
        },
{
    if forward && reverse {
        Lockstep::Pair
    } else if !forward && !reverse {
        Lockstep::Done
    } else {
        Lockstep::Mismatch
    }
}

/// `id` without any number of trailing `/` and `digit`.
pub open spec fn trimmed(id: Seq<u8>, digit: u8) -> Seq<u8>
    decreases id.len(),
{
    if ends_with_suffix(id, digit) {
        trimmed(id.subrange(0, id.len() - 2), digit)
    } else {
        id
    }
}

/// Removes every trailing `/` and `digit` from `id`.
pub fn trim_suffixes(id: &[u8], digit: u8) -> (rest: &[u8])
    ensures
        rest@ == trimmed(id@, digit),
{
    let mut rest = id;
    while has_suffix(rest, digit)
        invariant
            trimmed(rest@, digit) == trimmed(id@, digit),
        decreases rest.len(),
    {
        rest = vstd::slice::slice_subrange(rest, 0, rest.len() - 2);
    }
    rest
}

/// Tells whether two byte strings are equal.
pub fn same_bytes(a: &[u8], b: &[u8]) -> (same: bool)
    ensures
        same == (a@ == b@),
{
    if a.len() != b.len() {
        return false;
    }
    let mut i: usize = 0;
    while i < a.len()
        invariant
            i <= a.len(),
            a.len() == b.len(),
            forall|k: int| 0 <= k < i ==> a[k] == b[k],
        decreases a.len() - i,
    {
        if a[i] != b[i] {
            return false;
        }
        i += 1;
    }
    assert(a@ =~= b@);
    true
}

/// Tells whether a forward and a reverse identifier name the same pair:
/// whether they are equal once the forward one has lost its trailing `/1`
/// and the reverse one its trailing `/2`.
pub fn mates_agree(forward_id: &[u8], reverse_id: &[u8]) -> (agree: bool)
    ensures
        agree == (trimmed(forward_id@, ONE) == trimmed(reverse_id@, TWO)),
{
    same_bytes(trim_suffixes(forward_id, ONE), trim_suffixes(reverse_id, TWO))
}

/// The text of the first `pairs` pairs: each forward read followed by the
/// reverse read at the same position.
pub open spec fn pairs_text(
    forward: Seq<RecordView>,
    reverse: Seq<RecordView>,
    pairs: int,
) -> Seq<char>
    decreases pairs,
{
    if pairs <= 0 {
        Seq::empty()
    } else {
        pairs_text(forward, reverse, pairs - 1) + read_text(forward[pairs - 1]) + read_text(
            reverse[pairs - 1],
        )
    }
}

/// Both reads of each of the first `pairs` pairs are text.
pub open spec fn pairs_are_text(
    forward: Seq<RecordView>,
    reverse: Seq<RecordView>,
    pairs: int,
) -> bool {
    forall|i: int| 0 <= i < pairs ==> is_text(#[trigger] forward[i]) && is_text(reverse[i])
}

/// The smaller of two lengths.
pub open spec fn shorter(a: int, b: int) -> int {
    if a <= b {
        a
    } else {
        b
    }
}

/// `done` is what interleaving `forward` and `reverse` comes to. The pairs
/// are taken in order; the first pair with a read that is not text stops
/// the work, and so does the end of one input before the other.
pub open spec fn is_joined(
    done: Result<String, JoinError>,
    forward: Seq<RecordView>,
    reverse: Seq<RecordView>,
) -> bool {
    let pairs = shorter(forward.len() as int, reverse.len() as int);
    match done {
        Ok(text) => {
            &&& forward.len() == reverse.len()
            &&& pairs_are_text(forward, reverse, pairs)
            &&& text@ == pairs_text(forward, reverse, pairs)
        },
        Err(JoinError::Encoding { pair }) => {
            &&& pair < pairs
            &&& pairs_are_text(forward, reverse, pair as int)
            &&& !(is_text(forward[pair as int]) && is_text(reverse[pair as int]))
        },
        Err(JoinError::Mismatch) => {
            &&& forward.len() != reverse.len()
            &&& pairs_are_text(forward, reverse, pairs)
        },
    }
}

/// Writes one pair as text, the forward read first, or nothing where one
/// of the two reads is not text.
pub fn pair_text(forward: &Record, reverse: &Record) -> (text: Option<String>)
    ensures
        text.is_some() == (is_text(forward@) && is_text(reverse@)),
        text matches Some(t) ==> t@ == read_text(forward@) + read_text(reverse@),
{
    let first = match format_record(forward) {
        Some(first) => first,
        None => {
            return None;
        },
    };
    match format_record(reverse) {
        Some(second) => Some(first.concat(second.as_str())),
        None => None,
    }
}

/// Interleaves two lists of reads into one text: forward read, reverse
/// read, forward read, and so on.
pub fn run(forward: &Vec<Record>, reverse: &Vec<Record>) -> (done: Result<String, JoinError>)
    ensures
        is_joined(done, crate::record::views(forward@), crate::record::views(reverse@)),
{
    let ghost fwd = crate::record::views(forward@);
    let ghost rev = crate::record::views(reverse@);
    let mut text = String::new();
    let mut i: usize = 0;
    loop
        invariant
            fwd == crate::record::views(forward@),
            rev == crate::record::views(reverse@),
            i <= forward.len(),
            i <= reverse.len(),
            pairs_are_text(fwd, rev, i as int),
            text@ == pairs_text(fwd, rev, i as int),
        decreases forward.len() - i,
    {
        match lockstep(i < forward.len(), i < reverse.len()) {
            Lockstep::Pair => {
                assert(fwd[i as int] == forward[i as int]@);
                assert(rev[i as int] == reverse[i as int]@);
                match pair_text(&forward[i], &reverse[i]) {
                    Some(both) => {
                        text.append(both.as_str());
                        assert(text@ =~= pairs_text(fwd, rev, i + 1));
                    },
                    None => {
                        return Err(JoinError::Encoding { pair: i });
                    },
                }
            },
            Lockstep::Done => {
                return Ok(text);
            },
            Lockstep::Mismatch => {
                return Err(JoinError::Mismatch);
            },
        }
        i += 1;
    }
}

} // verus!
