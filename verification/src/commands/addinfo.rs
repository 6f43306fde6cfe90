//! Putting the pair number back into the identifiers of a file.

use vstd::prelude::*;
use vstd::string::StringExecFns;
use vstd::utf8::decode_utf8;
use crate::ident::ends_with_suffix;
use crate::ident::has_suffix;
use crate::ident::ONE;
use crate::ident::TWO;
use crate::record::views;
use crate::record::Record;
use crate::record::RecordView;
use crate::text::not_text_message;
use crate::text::not_text_words;
use crate::text::text_of;
use crate::text::to_upper;
use crate::text::uppercased;
use crate::utils::fastq_text;
use crate::utils::format_fastq;
use crate::utils::is_text;

verus! {

/// Why nothing was written.
#[derive(Clone, Copy, Debug, PartialEq, Eq, Structural)]
pub enum AddinfoError {
    /// The pair number is neither 1 nor 2.
    PairNumber,
    /// The read at this position, counted from zero, holds bytes that are
    /// not well-formed UTF-8.
    Encoding { read: usize },
}

/// The words of an `AddinfoError` for the user.
pub open spec fn addinfo_error_words(wrong: AddinfoError) -> Seq<char> {
    match wrong {
        AddinfoError::PairNumber => "pairnum must be 1 or 2"@,
        AddinfoError::Encoding { read } => not_text_words("Read "@, read as nat),
    }
}

impl AddinfoError {
    /// The words for the user.
    pub fn message(&self) -> (text: String)
        ensures
            text@ == addinfo_error_words(*self),
    {
        match self {
            AddinfoError::PairNumber => String::from_str("pairnum must be 1 or 2"),
            AddinfoError::Encoding { read } => not_text_message("Read ", *read),
        }
    }
}

/// The mate that the reads of a file are: the first or the second of
/// their pairs.
#[derive(Clone, Copy, Debug, PartialEq, Eq, Structural)]
pub enum Mate {
    First,
    Second,
}

/// The mate that a pair number names, where it names one.
pub open spec fn mate_of_number(pairnum: u8) -> Option<Mate> {
    if pairnum == 1 {
        Some(Mate::First)
    } else if pairnum == 2 {
        Some(Mate::Second)
    } else {
        None
    }
}

/// Reads a pair number: 1 and 2 name a mate, any other number is refused.
pub fn pair_number(pairnum: u8) -> (read: Result<Mate, AddinfoError>)
    ensures
        match mate_of_number(pairnum) {
            Some(mate) => read == Ok::<Mate, AddinfoError>(mate),
            None => read == Err::<Mate, AddinfoError>(AddinfoError::PairNumber),
        },
{
    if pairnum == 1 {
        Ok(Mate::First)
    } else if pairnum == 2 {
        Ok(Mate::Second)
    } else {
        Err(AddinfoError::PairNumber)
    }
}

/// The byte of the digit of a mate.
pub open spec fn digit_of(mate: Mate) -> u8 {
    match mate {
        Mate::First => ONE,
        Mate::Second => TWO,
    }
}

/// The characters `/1` or `/2`.
pub open spec fn suffix_text(mate: Mate) -> Seq<char> {
    match mate {
        Mate::First => seq!['/', '1'],
        Mate::Second => seq!['/', '2'],
    }
}

/// The text of a read with the pair number in its identifier: the
/// identifier as it is where it ends with the suffix already, followed by
/// the suffix otherwise; the sequence in upper case where that is asked
/// for.
pub open spec fn info_text(read: RecordView, mate: Mate, uppercase: bool) -> Seq<char> {
    let id = decode_utf8(read.id);
    let seq = decode_utf8(read.seq);
    fastq_text(
        if ends_with_suffix(read.id, digit_of(mate)) {
            id
        } else {
            id + suffix_text(mate)
        },
        if uppercase {
            uppercased(seq)
        } else {
            seq
        },
        match read.qual {
            Some(q) => Some(decode_utf8(q)),
            None => None,
        },
    )
}

/// The text of the first `count` reads with the pair number in their
/// identifiers.
pub open spec fn infos_text(
    reads: Seq<RecordView>,
    count: int,
    mate: Mate,
    uppercase: bool,
) -> Seq<char>
    decreases count,
{
    if count <= 0 {
        Seq::empty()
    } else {
        infos_text(reads, count - 1, mate, uppercase) + info_text(
            reads[count - 1],
            mate,
            uppercase,
        )
    }
}

/// `done` is what adding the pair number to `reads` comes to.
pub open spec fn is_addinfo(
    done: Result<String, AddinfoError>,
    reads: Seq<RecordView>,
    pairnum: u8,
    uppercase: bool,
) -> bool {
    match mate_of_number(pairnum) {
        None => done == Err::<String, AddinfoError>(AddinfoError::PairNumber),
        Some(mate) => match done {
            Ok(text) => {
                &&& forall|i: int| 0 <= i < reads.len() ==> is_text(#[trigger] reads[i])
                &&& text@ == infos_text(reads, reads.len() as int, mate, uppercase)
            },
            Err(AddinfoError::Encoding { read }) => {
                &&& read < reads.len()
                &&& forall|i: int| 0 <= i < read ==> is_text(#[trigger] reads[i])
                &&& !is_text(reads[read as int])
            },
            Err(AddinfoError::PairNumber) => false,
        },
    }
}

/// Writes one read with the pair number in its identifier, or nothing
/// where one of its parts is not well-formed UTF-8.
pub fn add_info(read: &Record, mate: Mate, uppercase: bool) -> (text: Option<String>)
    ensures
        text.is_some() == is_text(read@),
        text matches Some(t) ==> t@ == info_text(read@, mate, uppercase),
{
    proof {
        reveal_strlit("/1");
        reveal_strlit("/2");
    }
    let id = match text_of(read.id.as_slice()) {
        Ok(id) => id,
        Err(_) => {
            return None;
        },
    };
    let digit = match mate {
        Mate::First => ONE,
        Mate::Second => TWO,
    };
    let mut new_id = String::from_str(id);
    if !has_suffix(read.id.as_slice(), digit) {
        match mate {
            Mate::First => {
                new_id.append("/1");
            },
            Mate::Second => {
                new_id.append("/2");
            },
        }
        assert(new_id@ =~= id@ + suffix_text(mate));
    }
    let seq = match text_of(read.seq.as_slice()) {
        Ok(seq) => seq,
        Err(_) => {
            return None;
        },
    };
    let new_seq = if uppercase {
        to_upper(seq)
    } else {
        String::from_str(seq)
    };
    match &read.qual {
        Some(q) => match text_of(q.as_slice()) {
            Ok(qual) => Some(format_fastq(new_id.as_str(), new_seq.as_str(), Some(qual))),
            Err(_) => None,
        },
        None => Some(format_fastq(new_id.as_str(), new_seq.as_str(), None)),
    }
}

/// Writes every read with the pair number in its identifier. A pair number
/// other than 1 or 2 is refused before any read is looked at.
pub fn run(reads: &Vec<Record>, pairnum: u8, uppercase: bool) -> (done: Result<
    String,
    AddinfoError,
>)
    ensures
        is_addinfo(done, views(reads@), pairnum, uppercase),
{
    let mate = match pair_number(pairnum) {
        Ok(mate) => mate,
        Err(wrong) => {
            return Err(wrong);
        },
    };
    let ghost all = views(reads@);
    let mut text = String::new();
    let mut i: usize = 0;
    while i < reads.len()
        invariant
            all == views(reads@),
            mate_of_number(pairnum) == Some(mate),
            i <= reads.len(),
            forall|k: int| 0 <= k < i ==> is_text(#[trigger] all[k]),
            text@ == infos_text(all, i as int, mate, uppercase),
        decreases reads.len() - i,
    {
        assert(all[i as int] == reads[i as int]@);
        match add_info(&reads[i], mate, uppercase) {
            Some(one) => {
                text.append(one.as_str());
            },
            None => {
                return Err(AddinfoError::Encoding { read: i });
            },
        }
        i += 1;
    }
    Ok(text)
}

} // verus!
