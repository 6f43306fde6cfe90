//! Splitting an interleaved file into its forward and its reverse reads.

use vstd::prelude::*;
use vstd::string::StringExecFns;
use crate::ident::has_suffix;
use crate::ident::is_forward_id;
use crate::ident::is_reverse_id;
use crate::ident::ONE;
use crate::ident::TWO;
use crate::record::views;
use crate::record::Record;
use crate::record::RecordView;
use crate::text::not_text_message;
use crate::text::not_text_words;
use crate::utils::format_record;
use crate::utils::is_text;
use crate::utils::read_text;

verus! {

/// The side a read belongs to.
#[derive(Clone, Copy, Debug, PartialEq, Eq, Structural)]
pub enum Role {
    Forward,
    Reverse,
}

/// Why the splitting stopped.
#[derive(Clone, Copy, Debug, PartialEq, Eq, Structural)]
pub enum SplitError {
    /// The read at this position, counted from zero, holds bytes that are
    /// not well-formed UTF-8.
    Encoding { read: usize },
}

/// The words of a `SplitError` for the user.
pub open spec fn split_error_words(wrong: SplitError) -> Seq<char> {
    match wrong {
        SplitError::Encoding { read } => not_text_words("Read "@, read as nat),
    }
}

impl SplitError {
    /// The words for the user.
    pub fn message(&self) -> (text: String)
        ensures
            text@ == split_error_words(*self),
    {
        match self {
            SplitError::Encoding { read } => not_text_message("Read ", *read),
        }
    }
}

/// The side of the read with identifier `id` at place `position` of the
/// stream, counted from zero: the side that its pairing suffix names, and
/// where it has none, forward at the even places and reverse at the odd
/// ones.
pub open spec fn role_of(id: Seq<u8>, position: nat) -> Role {
    if is_forward_id(id) {
        Role::Forward
    } else if is_reverse_id(id) {
        Role::Reverse
    } else if position % 2 == 0 {
        Role::Forward
    } else {
        Role::Reverse
    }
}

/// Decides the side of one read.
pub fn route(id: &[u8], position: u64) -> (role: Role)
    ensures
        role == role_of(id@, position as nat),
{
    if has_suffix(id, ONE) {
        Role::Forward
    } else if has_suffix(id, TWO) {
        Role::Reverse
    } else if position % 2 == 0 {
        Role::Forward
    } else {
        Role::Reverse
    }
}

/// The text of those of the first `count` reads that belong to `role`.
pub open spec fn side_text(reads: Seq<RecordView>, count: int, role: Role) -> Seq<char>
    decreases count,
{
    if count <= 0 {
        Seq::empty()
    } else if role_of(reads[count - 1].id, (count - 1) as nat) == role {
        side_text(reads, count - 1, role) + read_text(reads[count - 1])
    } else {
        side_text(reads, count - 1, role)
    }
}

/// Each of the first `count` reads is text.
pub open spec fn reads_are_text(reads: Seq<RecordView>, count: int) -> bool {
    forall|i: int| 0 <= i < count ==> is_text(#[trigger] reads[i])
}

/// `done` is what splitting `reads` comes to: the text of the forward
/// reads and the text of the reverse reads, each in the order of the
/// stream, or the place of the first read that is not text.
pub open spec fn is_split(done: Result<(String, String), SplitError>, reads: Seq<RecordView>) -> bool {
    match done {
        Ok(texts) => {
            &&& reads_are_text(reads, reads.len() as int)
            &&& texts.0@ == side_text(reads, reads.len() as int, Role::Forward)
            &&& texts.1@ == side_text(reads, reads.len() as int, Role::Reverse)
        },
        Err(SplitError::Encoding { read }) => {
            &&& read < reads.len()
            &&& reads_are_text(reads, read as int)
            &&& !is_text(reads[read as int])
        },
    }
}

/// Splits the reads of an interleaved stream into the text of the forward
/// reads and the text of the reverse reads.
pub fn run(reads: &Vec<Record>) -> (done: Result<(String, String), SplitError>)
    ensures
        is_split(done, views(reads@)),
{
    let ghost all = views(reads@);
    let mut forward = String::new();
    let mut reverse = String::new();
    let mut i: usize = 0;
    while i < reads.len()
        invariant
            all == views(reads@),
            i <= reads.len(),
            reads_are_text(all, i as int),
            forward@ == side_text(all, i as int, Role::Forward),
            reverse@ == side_text(all, i as int, Role::Reverse),
        decreases reads.len() - i,
    {
        assert(all[i as int] == reads[i as int]@);
        let text = match format_record(&reads[i]) {
            Some(text) => text,
            None => {
                return Err(SplitError::Encoding { read: i });
            },
        };
        match route(reads[i].id.as_slice(), i as u64) {
            Role::Forward => {
                forward.append(text.as_str());
            },
            Role::Reverse => {
                reverse.append(text.as_str());
            },
        }
        i += 1;
    }
    Ok((forward, reverse))
}

} // verus!
