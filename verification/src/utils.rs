//! The serialised form of a read.
//!
//! A read with qualities is written as four lines, `@` and the identifier,
//! the sequence, `+`, the qualities. A read without qualities is written as
//! two lines, `>` and the identifier, the sequence. Every line ends with a
//! line feed.

use vstd::prelude::*;
use vstd::string::StringExecFns;
use vstd::utf8::decode_utf8;
use vstd::utf8::valid_utf8;
use crate::record::Record;
use crate::record::RecordView;
use crate::text::text_of;

verus! {

/// The line feed.
pub const LF: u8 = 10;

/// The byte `@` that opens a read with qualities.
pub const AT: u8 = 64;

/// The byte `>` that opens a read without qualities.
pub const GT: u8 = 62;

/// The byte `+` that stands between sequence and qualities.
pub const PLUS: u8 = 43;

/// The text of a read.
pub open spec fn fastq_text(id: Seq<char>, seq: Seq<char>, qual: Option<Seq<char>>) -> Seq<char> {
    match qual {
        Some(q) => seq!['@'] + id + seq!['\n'] + seq + seq!['\n', '+', '\n'] + q + seq!['\n'],
        None => seq!['>'] + id + seq!['\n'] + seq + seq!['\n'],
    }
}

/// The bytes of a read.
pub open spec fn fastq_bytes(id: Seq<u8>, seq: Seq<u8>, qual: Option<Seq<u8>>) -> Seq<u8> {
    match qual {
        Some(q) => seq![AT] + id + seq![LF] + seq + seq![LF, PLUS, LF] + q + seq![LF],
        None => seq![GT] + id + seq![LF] + seq + seq![LF],
    }
}

/// The characters of an optional text.
pub open spec fn opt_text(text: Option<&str>) -> Option<Seq<char>> {
    match text {
        Some(t) => Some(t@),
        None => None,
    }
}

/// The bytes of an optional slice.
pub open spec fn opt_slice(bytes: Option<&[u8]>) -> Option<Seq<u8>> {
    match bytes {
        Some(b) => Some(b@),
        None => None,
    }
}

/// Writes a read as text: four lines where it has qualities, two lines
/// where it has none.
pub fn format_fastq(id: &str, seq: &str, qual: Option<&str>) -> (text: String)
    ensures
        text@ == fastq_text(id@, seq@, opt_text(qual)),
{
    proof {
        reveal_strlit("@");
        reveal_strlit(">");
        reveal_strlit("\n");
        reveal_strlit("\n+\n");
    }
    let mut text = String::new();
    match qual {
        Some(q) => {
            text.append("@");
            text.append(id);
            text.append("\n");
            text.append(seq);
            text.append("\n+\n");
            text.append(q);
            text.append("\n");
            assert(text@ =~= fastq_text(id@, seq@, opt_text(qual)));
        },
        None => {
            text.append(">");
            text.append(id);
            text.append("\n");
            text.append(seq);
            text.append("\n");
            assert(text@ =~= fastq_text(id@, seq@, opt_text(qual)));
        },
    }
    text
}

/// Identifier, sequence and qualities of `read` are well-formed UTF-8.
pub open spec fn is_text(read: RecordView) -> bool {
    &&& valid_utf8(read.id)
    &&& valid_utf8(read.seq)
    &&& read.qual matches Some(q) ==> valid_utf8(q)
}

/// The text of a read whose parts are well-formed UTF-8.
pub open spec fn read_text(read: RecordView) -> Seq<char> {
    fastq_text(
        decode_utf8(read.id),
        decode_utf8(read.seq),
        match read.qual {
            Some(q) => Some(decode_utf8(q)),
            None => None,
        },
    )
}

/// Writes a read as text, or nothing where one of its parts is not
/// well-formed UTF-8.
pub fn format_record(read: &Record) -> (text: Option<String>)
    ensures
        text.is_some() == is_text(read@),
        text matches Some(t) ==> t@ == read_text(read@),
{
    let id = match text_of(read.id.as_slice()) {
        Ok(id) => id,
        Err(_) => {
            return None;
        },
    };
    let seq = match text_of(read.seq.as_slice()) {
        Ok(seq) => seq,
        Err(_) => {
            return None;
        },
    };
    match &read.qual {
        Some(q) => match text_of(q.as_slice()) {
            Ok(qual) => Some(format_fastq(id, seq, Some(qual))),
            Err(_) => None,
        },
        None => Some(format_fastq(id, seq, None)),
    }
}

/// Appends every byte of `bytes` to `out`.
pub fn append_bytes(out: &mut Vec<u8>, bytes: &[u8])
    ensures
        final(out)@ == old(out)@ + bytes@,
{
    let mut i: usize = 0;
    while i < bytes.len()
        invariant
            i <= bytes.len(),
            out@ == old(out)@ + bytes@.subrange(0, i as int),
        decreases bytes.len() - i,
    {
        out.push(bytes[i]);
        i += 1;
        assert(bytes@.subrange(0, i as int) =~= bytes@.subrange(0, i - 1).push(bytes@[i - 1]));
    }
    assert(bytes@.subrange(0, i as int) =~= bytes@);
}

/// Appends a read to `out` as bytes: four lines where it has qualities, two
/// lines where it has none.
pub fn write_fastq(out: &mut Vec<u8>, id: &[u8], seq: &[u8], qual: Option<&[u8]>)
    ensures
        final(out)@ == old(out)@ + fastq_bytes(id@, seq@, opt_slice(qual)),
{
    match qual {
        Some(q) => {
            out.push(AT);
            append_bytes(out, id);
            out.push(LF);
            append_bytes(out, seq);
            out.push(LF);
            out.push(PLUS);
            out.push(LF);
            append_bytes(out, q);
            out.push(LF);
            assert(out@ =~= old(out)@ + fastq_bytes(id@, seq@, opt_slice(qual)));
        },
        None => {
            out.push(GT);
            append_bytes(out, id);
            out.push(LF);
            append_bytes(out, seq);
            out.push(LF);
            assert(out@ =~= old(out)@ + fastq_bytes(id@, seq@, opt_slice(qual)));
        },
    }
}

/// The bytes of a read.
pub open spec fn record_bytes(read: RecordView) -> Seq<u8> {
    fastq_bytes(read.id, read.seq, read.qual)
}

/// The bytes of a list of reads, one after the other.
pub open spec fn sink_bytes(reads: Seq<RecordView>) -> Seq<u8>
    decreases reads.len(),
{
    if reads.len() == 0 {
        Seq::empty()
    } else {
        sink_bytes(reads.drop_last()) + record_bytes(reads.last())
    }
}

/// Appends one read to `out` as bytes.
pub fn write_record(out: &mut Vec<u8>, read: &Record)
    ensures
        final(out)@ == old(out)@ + record_bytes(read@),
{
    match &read.qual {
        Some(q) => write_fastq(out, read.id.as_slice(), read.seq.as_slice(), Some(q.as_slice())),
        None => write_fastq(out, read.id.as_slice(), read.seq.as_slice(), None),
    }
}

/// Appends every read of `reads` to `out` as bytes, in order.
pub fn write_records(out: &mut Vec<u8>, reads: &Vec<Record>)
    ensures
        final(out)@ == old(out)@ + sink_bytes(crate::record::views(reads@)),
{
    let ghost all = crate::record::views(reads@);
    let mut i: usize = 0;
    assert(all.take(0) =~= Seq::empty());
    while i < reads.len()
        invariant
            all == crate::record::views(reads@),
            i <= reads.len(),
            out@ == old(out)@ + sink_bytes(all.take(i as int)),
        decreases reads.len() - i,
    {
        write_record(out, &reads[i]);
        proof {
            let next = all.take(i + 1);
            assert(next.drop_last() =~= all.take(i as int));
            assert(next.last() == reads[i as int]@);
        }
        i += 1;
    }
    assert(all.take(reads.len() as int) =~= all);
}

} // verus!
