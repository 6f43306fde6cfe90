//! How a named input or output is to be opened.
//!
//! The name `-` stands for the standard input or output. A name that ends
//! in `.gz` is gzip, one that ends in `.bz2` is bzip2. For an output the
//! compression may also be asked for by word, and the word then decides.

use vstd::prelude::*;
use vstd::string::StrSliceExecFns;

verus! {

/// The compression of a stream.
#[derive(Clone, Copy, Debug, PartialEq, Eq, Structural)]
pub enum Codec {
    Gzip,
    Bzip2,
    Plain,
}

/// Where the reads come from.
#[derive(Clone, Copy, Debug, PartialEq, Eq, Structural)]
pub enum Source {
    /// The standard input, read as it is.
    Stdin,
    /// A file, read through the codec.
    File(Codec),
}

/// Where the records go.
#[derive(Clone, Copy, Debug, PartialEq, Eq, Structural)]
pub enum Sink {
    /// The standard output, written through the codec.
    Stdout(Codec),
    /// A file, written through the codec.
    File(Codec),
}

/// `text` ends with `suffix`.
pub open spec fn ends_with(text: Seq<char>, suffix: Seq<char>) -> bool {
    text.len() >= suffix.len() && text.subrange(text.len() - suffix.len(), text.len() as int)
        == suffix
}

/// The codec that a name asks for by its ending.
pub open spec fn codec_of_name(path: Seq<char>) -> Codec {
    if ends_with(path, ".gz"@) {
        Codec::Gzip
    } else if ends_with(path, ".bz2"@) {
        Codec::Bzip2
    } else {
        Codec::Plain
    }
}

/// The codec that a word asks for: `gzip`, `bzip2`, and none for any other
/// word.
pub open spec fn codec_of_word(word: Seq<char>) -> Codec {
    if word == "gzip"@ {
        Codec::Gzip
    } else if word == "bzip2"@ {
        Codec::Bzip2
    } else {
        Codec::Plain
    }
}

/// How to read the input named `path`.
pub open spec fn source_of(path: Seq<char>) -> Source {
    if path == "-"@ {
        Source::Stdin
    } else {
        Source::File(codec_of_name(path))
    }
}

/// How to write the output named `path`, with the compression asked for by
/// `compress` where there is such a word, else by the ending of the name.
pub open spec fn sink_of(path: Seq<char>, compress: Option<Seq<char>>) -> Sink {
    let codec = match compress {
        Some(word) => codec_of_word(word),
        None => codec_of_name(path),
    };
    if path == "-"@ {
        Sink::Stdout(codec)
    } else {
        Sink::File(codec)
    }
}

/// Tells whether `text` ends with `suffix`.
pub fn text_ends_with(text: &str, suffix: &str) -> (found: bool)
    ensures
        found == ends_with(text@, suffix@),
{
    let n: usize = text.unicode_len();
    let m: usize = suffix.unicode_len();
    if n < m {
        return false;
    }
    let mut i: usize = 0;
    while i < m
        invariant
            i <= m,
            m <= n,
            n == text@.len(),
            m == suffix@.len(),
            forall|k: int| 0 <= k < i ==> text@[n - m + k] == suffix@[k],
        decreases m - i,
    {
        if text.get_char(n - m + i) != suffix.get_char(i) {
            assert(text@.subrange(n - m, n as int)[i as int] != suffix@[i as int]);
            return false;
        }
        i += 1;
    }
    assert(text@.subrange(n - m, n as int) =~= suffix@);
    true
}

/// Tells whether two texts are equal.
pub fn same_text(a: &str, b: &str) -> (same: bool)
    ensures
        same == (a@ == b@),
{
    let n: usize = a.unicode_len();
    if n != b.unicode_len() {
        return false;
    }
    let mut i: usize = 0;
    while i < n
        invariant
            i <= n,
            n == a@.len(),
            n == b@.len(),
            forall|k: int| 0 <= k < i ==> a@[k] == b@[k],
        decreases n - i,
    {
        if a.get_char(i) != b.get_char(i) {
            return false;
        }
        i += 1;
    }
    assert(a@ =~= b@);
    true
}

/// Picks the codec by the ending of a name.
pub fn name_codec(path: &str) -> (codec: Codec)
    ensures
        codec == codec_of_name(path@),
{
    if text_ends_with(path, ".gz") {
        Codec::Gzip
    } else if text_ends_with(path, ".bz2") {
        Codec::Bzip2
    } else {
        Codec::Plain
    }
}

/// Decides how the input named `path` is to be read.
pub fn reader_plan(path: &str) -> (source: Source)
    ensures
        source == source_of(path@),
{
    if same_text(path, "-") {
        Source::Stdin
    } else {
        Source::File(name_codec(path))
    }
}

/// Decides how the output named `path` is to be written.
pub fn writer_plan(path: &str, compress: Option<&str>) -> (sink: Sink)
    ensures
        sink == sink_of(path@, crate::utils::opt_text(compress)),
{
    let codec = match compress {
        Some(word) => {
            if same_text(word, "gzip") {
                Codec::Gzip
            } else if same_text(word, "bzip2") {
                Codec::Bzip2
            } else {
                Codec::Plain
            }
        },
        None => name_codec(path),
    };
    if same_text(path, "-") {
        Sink::Stdout(codec)
    } else {
        Sink::File(codec)
    }
}

} // verus!
