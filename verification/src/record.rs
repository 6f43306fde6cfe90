//! Read records.

use vstd::prelude::*;

verus! {

/// What a read record is in contracts: its identifier, its sequence and,
/// for a record with qualities, its quality string.
pub struct RecordView {
    pub id: Seq<u8>,
    pub seq: Seq<u8>,
    pub qual: Option<Seq<u8>>,
}

/// One read: the header line without its leading marker, the sequence, and
/// the quality string where the read has one.
#[derive(Debug, PartialEq, Eq)]
pub struct Record {
    pub id: Vec<u8>,
    pub seq: Vec<u8>,
    pub qual: Option<Vec<u8>>,
}

impl RecordView {
    /// The quality string, where there is one, is as long as the sequence.
    pub open spec fn qualities_fit(self) -> bool {
        self.qual matches Some(q) ==> q.len() == self.seq.len()
    }
}

/// The bytes of an optional buffer.
pub open spec fn opt_bytes(buf: Option<Vec<u8>>) -> Option<Seq<u8>> {
    match buf {
        Some(bytes) => Some(bytes@),
        None => None,
    }
}

impl View for Record {
    type V = RecordView;

    open spec fn view(&self) -> RecordView {
        RecordView { id: self.id@, seq: self.seq@, qual: opt_bytes(self.qual) }
    }
}

/// The views of a list of records, in order.
pub open spec fn views(records: Seq<Record>) -> Seq<RecordView> {
    records.map_values(|r: Record| r@)
}

/// Copies `bytes` into a fresh buffer.
pub fn copy_bytes(bytes: &[u8]) -> (copy: Vec<u8>)
    ensures
        copy@ == bytes@,
{
    let mut copy: Vec<u8> = Vec::new();
    let mut i: usize = 0;
    while i < bytes.len()
        invariant
            i <= bytes.len(),
            copy@ == bytes@.subrange(0, i as int),
        decreases bytes.len() - i,
    {
        copy.push(bytes[i]);
        i += 1;
    }
    copy
}

impl Record {
    /// Builds a record from its three parts.
    pub fn new(id: Vec<u8>, seq: Vec<u8>, qual: Option<Vec<u8>>) -> (record: Record)
        ensures
            record@ == (RecordView { id: id@, seq: seq@, qual: opt_bytes(qual) }),
    {
        Record { id, seq, qual }
    }

    /// Tells whether the quality string, where there is one, is as long as
    /// the sequence.
    pub fn qualities_fit(&self) -> (fit: bool)
        ensures
            fit == self@.qualities_fit(),
    {
        match &self.qual {
            Some(q) => q.len() == self.seq.len(),
            None => true,
        }
    }

    /// Tells whether the record carries a quality string.
    pub fn has_quality(&self) -> (present: bool)
        ensures
            present == self@.qual.is_some(),
    {
        self.qual.is_some()
    }
}

} // verus!
