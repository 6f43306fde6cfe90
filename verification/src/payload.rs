//! The value stored under a key in the external index.
//!
//! A read without qualities is stored as its sequence. A read with qualities
//! is stored as its sequence, one `|` byte and its quality string. So that
//! a `|` of the sequence is not taken for the divider, a `|` inside the
//! sequence is written with a `\` before it, and so is a `\`. Reading a
//! value back undoes this, and gives exactly the sequence and the quality
//! string that went in, whatever bytes they hold.

use vstd::prelude::*;
use crate::record::copy_bytes;
use crate::record::opt_bytes;
use crate::utils::append_bytes;

verus! {

/// The byte `|` that parts sequence from quality in a stored value.
pub const BAR: u8 = 124;

/// The byte `\` that is written before a `|` or a `\` of the sequence.
pub const ESCAPE: u8 = 92;

/// How one byte of a sequence is written: a `|` or a `\` with a `\` before
/// it, any other byte as it is.
pub open spec fn written(byte: u8) -> Seq<u8> {
    if byte == BAR || byte == ESCAPE {
        seq![ESCAPE, byte]
    } else {
        seq![byte]
    }
}

/// How a sequence is written: each of its bytes as `written` has it, in
/// order.
pub open spec fn escaped(seq: Seq<u8>) -> Seq<u8>
    decreases seq.len(),
{
    if seq.len() == 0 {
        Seq::empty()
    } else {
        escaped(seq.drop_last()) + written(seq.last())
    }
}

/// The stored value of a sequence and its optional quality string.
pub open spec fn encoded(seq: Seq<u8>, qual: Option<Seq<u8>>) -> Seq<u8> {
    match qual {
        Some(q) => escaped(seq).push(BAR) + q,
        None => escaped(seq),
    }
}

/// The sequence and optional quality string that a value stands for. The
/// value is read from the front: a `\` stands for the byte behind it, the
/// first `|` without a `\` before it ends the sequence, and what lies behind
/// that `|` is the quality string. A value without such a `|` is a sequence
/// without qualities.
pub open spec fn decoded(value: Seq<u8>) -> (Seq<u8>, Option<Seq<u8>>)
    decreases value.len(),
{
    if value.len() == 0 {
        (Seq::empty(), None)
    } else if value[0] == BAR {
        (Seq::empty(), Some(value.drop_first()))
    } else if value[0] == ESCAPE && value.len() >= 2 {
        let rest = decoded(value.skip(2));
        (seq![value[1]] + rest.0, rest.1)
    } else {
        let rest = decoded(value.drop_first());
        (seq![value[0]] + rest.0, rest.1)
    }
}

/// A written sequence begins with its first byte as written.
pub proof fn lemma_escaped_front(seq: Seq<u8>)
    requires
        seq.len() > 0,
    ensures
        escaped(seq) == written(seq[0]) + escaped(seq.drop_first()),
    decreases seq.len(),
{
    if seq.len() == 1 {
        assert(seq.drop_last() =~= Seq::empty());
        assert(seq.drop_first() =~= Seq::empty());
        assert(escaped(seq) =~= written(seq[0]) + escaped(seq.drop_first()));
    } else {
        let front = seq.drop_last();
        lemma_escaped_front(front);
        assert(front.drop_first() =~= seq.drop_first().drop_last());
        assert(escaped(seq) =~= written(seq[0]) + escaped(seq.drop_first()));
    }
}

/// Reading a written sequence back gives the sequence, and goes on with
/// what follows it.
pub proof fn lemma_decode_escaped(seq: Seq<u8>, tail: Seq<u8>)
    ensures
        decoded(escaped(seq) + tail) == (seq + decoded(tail).0, decoded(tail).1),
    decreases seq.len(),
{
    let value = escaped(seq) + tail;
    if seq.len() == 0 {
        assert(value =~= tail);
        assert(seq + decoded(tail).0 =~= decoded(tail).0);
    } else {
        let rest = seq.drop_first();
        lemma_escaped_front(seq);
        lemma_decode_escaped(rest, tail);
        let after = escaped(rest) + tail;
        if seq[0] == BAR || seq[0] == ESCAPE {
            assert(value[0] == ESCAPE);
            assert(value[1] == seq[0]);
            assert(value.skip(2) =~= after);
        } else {
            assert(value[0] == seq[0]);
            assert(value.drop_first() =~= after);
        }
        assert(seq![seq[0]] + (rest + decoded(tail).0) =~= seq + decoded(tail).0);
    }
}

/// Reading back what was stored gives the sequence and the quality string
/// that went in.
pub proof fn lemma_decode_encode(seq: Seq<u8>, qual: Option<Seq<u8>>)
    ensures
        decoded(encoded(seq, qual)) == (seq, qual),
{
    match qual {
        Some(q) => {
            let tail = seq![BAR] + q;
            lemma_decode_escaped(seq, tail);
            assert(encoded(seq, qual) =~= escaped(seq) + tail);
            assert(tail.drop_first() =~= q);
            assert(seq + Seq::<u8>::empty() =~= seq);
        },
        None => {
            lemma_decode_escaped(seq, Seq::empty());
            assert(encoded(seq, qual) =~= escaped(seq) + Seq::<u8>::empty());
            assert(seq + Seq::<u8>::empty() =~= seq);
        },
    }
}

/// Builds the value to store for a sequence and its optional quality string.
pub fn encode_payload(seq: &[u8], qual: Option<&[u8]>) -> (value: Vec<u8>)
    ensures
        value@ == encoded(
            seq@,
            match qual {
                Some(q) => Some(q@),
                None => None,
            },
        ),
{
    let mut value: Vec<u8> = Vec::new();
    let mut i: usize = 0;
    assert(seq@.take(0) =~= Seq::empty());
    while i < seq.len()
        invariant
            i <= seq.len(),
            value@ == escaped(seq@.take(i as int)),
        decreases seq.len() - i,
    {
        let byte = seq[i];
        proof {
            let next = seq@.take(i + 1);
            assert(next.drop_last() =~= seq@.take(i as int));
            assert(next.last() == byte);
        }
        if byte == BAR || byte == ESCAPE {
            value.push(ESCAPE);
        }
        value.push(byte);
        i += 1;
        assert(value@ =~= escaped(seq@.take(i as int)));
    }
    assert(seq@.take(seq.len() as int) =~= seq@);
    match qual {
        Some(q) => {
            value.push(BAR);
            append_bytes(&mut value, q);
        },
        None => {},
    }
    value
}

/// Reads a stored value back into its sequence and optional quality string.
pub fn decode_payload(value: &[u8]) -> (parts: (Vec<u8>, Option<Vec<u8>>))
    ensures
        (parts.0@, opt_bytes(parts.1)) == decoded(value@),
{
    let n: usize = value.len();
    let mut seq: Vec<u8> = Vec::new();
    let mut i: usize = 0;
    assert(value@.skip(0) =~= value@);
    assert(seq@ + decoded(value@).0 =~= decoded(value@).0);
    while i < n && value[i] != BAR
        invariant
            i <= n,
            n == value.len(),
            decoded(value@) == (
                seq@ + decoded(value@.skip(i as int)).0,
                decoded(value@.skip(i as int)).1,
            ),
        decreases n - i,
    {
        let ghost here = value@.skip(i as int);
        let ghost before = seq@;
        if value[i] == ESCAPE && i + 1 < n {
            seq.push(value[i + 1]);
            i += 2;
            assert(here.skip(2) =~= value@.skip(i as int));
            assert(before + (seq![here[1]] + decoded(here.skip(2)).0) =~= seq@ + decoded(
                here.skip(2),
            ).0);
        } else {
            seq.push(value[i]);
            i += 1;
            assert(here.drop_first() =~= value@.skip(i as int));
            assert(before + (seq![here[0]] + decoded(here.drop_first()).0) =~= seq@ + decoded(
                here.drop_first(),
            ).0);
        }
    }
    let ghost here = value@.skip(i as int);
    if i < n {
        let qual = copy_bytes(vstd::slice::slice_subrange(value, i + 1, n));
        assert(qual@ =~= here.drop_first());
        assert(seq@ + Seq::<u8>::empty() =~= seq@);
        (seq, Some(qual))
    } else {
        assert(here =~= Seq::empty());
        assert(seq@ + Seq::<u8>::empty() =~= seq@);
        (seq, None)
    }
}

} // verus!
