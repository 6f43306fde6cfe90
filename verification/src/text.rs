//! Bytes as text, and numbers and columns as text.
//!
//! The two functions at the top call into the standard library, one to
//! decode UTF-8 and one to make upper case; their contracts are believed,
//! not proved. The rest is verified.

use vstd::prelude::*;
use vstd::string::StringExecFns;
use vstd::string::StrSliceExecFns;
use vstd::utf8::decode_utf8;
use vstd::utf8::valid_utf8;

verus! {

/// `core::str::Utf8Error`, what decoding malformed bytes returns.
#[verifier::external_type_specification]
#[verifier::external_body]
pub struct ExUtf8Error(core::str::Utf8Error);

/// The upper-case form of a text, as the standard library makes it.
pub uninterp spec fn uppercased(text: Seq<char>) -> Seq<char>;

/// `core::str::from_utf8`: succeeds exactly on well-formed UTF-8, and the
/// text then holds the characters that the bytes encode.
#[verifier::external_body]
pub(crate) fn text_of(bytes: &[u8]) -> (text: Result<&str, core::str::Utf8Error>)
    ensures
        text.is_ok() == valid_utf8(bytes@),
        text matches Ok(t) ==> t@ == decode_utf8(bytes@),
{
    core::str::from_utf8(bytes)
}

/// `str::to_uppercase`: the result is named, not described.
#[verifier::external_body]
pub(crate) fn to_upper(text: &str) -> (upper: String)
    ensures
        upper@ == uppercased(text@),
{
    text.to_uppercase()
}

/// The character of the decimal digit `d`.
pub open spec fn digit_char(d: nat) -> char {
    if d == 0 {
        '0'
    } else if d == 1 {
        '1'
    } else if d == 2 {
        '2'
    } else if d == 3 {
        '3'
    } else if d == 4 {
        '4'
    } else if d == 5 {
        '5'
    } else if d == 6 {
        '6'
    } else if d == 7 {
        '7'
    } else if d == 8 {
        '8'
    } else {
        '9'
    }
}

/// The decimal digits of `n`, most significant first, without leading
/// zeros.
pub open spec fn decimal(n: nat) -> Seq<char>
    decreases n,
{
    if n < 10 {
        seq![digit_char(n)]
    } else {
        decimal(n / 10).push(digit_char(n % 10))
    }
}

/// `n` blanks.
pub open spec fn blanks(n: int) -> Seq<char> {
    Seq::new(if n > 0 { n as nat } else { 0 }, |i: int| ' ')
}

/// `text` followed by the blanks that bring it to `width` characters, and
/// `text` itself where it is that long already.
pub open spec fn padded_right(text: Seq<char>, width: nat) -> Seq<char> {
    text + blanks(width - text.len())
}

/// `text` preceded by the blanks that bring it to `width` characters, and
/// `text` itself where it is that long already.
pub open spec fn padded_left(text: Seq<char>, width: nat) -> Seq<char> {
    blanks(width - text.len()) + text
}

/// The text of one decimal digit.
fn digit_text(d: u8) -> (text: &'static str)
    requires
        d < 10,
    ensures
        text@ == seq![digit_char(d as nat)],
{
    proof {
        reveal_strlit("0");
        reveal_strlit("1");
        reveal_strlit("2");
        reveal_strlit("3");
        reveal_strlit("4");
        reveal_strlit("5");
        reveal_strlit("6");
        reveal_strlit("7");
        reveal_strlit("8");
        reveal_strlit("9");
    }
    let text = if d == 0 {
        "0"
    } else if d == 1 {
        "1"
    } else if d == 2 {
        "2"
    } else if d == 3 {
        "3"
    } else if d == 4 {
        "4"
    } else if d == 5 {
        "5"
    } else if d == 6 {
        "6"
    } else if d == 7 {
        "7"
    } else if d == 8 {
        "8"
    } else {
        "9"
    };
    assert(text@ =~= seq![digit_char(d as nat)]);
    text
}

/// Appends the decimal digits of `n` to `text`.
pub fn append_decimal(text: &mut String, n: u128)
    ensures
        final(text)@ == old(text)@ + decimal(n as nat),
    decreases n,
{
    if n >= 10 {
        append_decimal(text, n / 10);
    }
    text.append(digit_text((n % 10) as u8));
    assert(text@ =~= old(text)@ + decimal(n as nat));
}

/// Appends `n` blanks to `text`.
pub fn append_blanks(text: &mut String, n: usize)
    ensures
        final(text)@ == old(text)@ + blanks(n as int),
{
    proof {
        reveal_strlit(" ");
    }
    let mut i: usize = 0;
    while i < n
        invariant
            i <= n,
            text@ =~= old(text)@ + blanks(i as int),
            " "@ == seq![' '],
        decreases n - i,
    {
        text.append(" ");
        i += 1;
    }
}

/// Appends `part`, then blanks up to `width` characters.
pub fn append_left_aligned(text: &mut String, part: &str, width: usize)
    ensures
        final(text)@ == old(text)@ + padded_right(part@, width as nat),
{
    let len = part.unicode_len();
    text.append(part);
    if len < width {
        append_blanks(text, width - len);
    } else {
        assert(blanks(width - part@.len()) =~= Seq::<char>::empty());
    }
    assert(text@ =~= old(text)@ + padded_right(part@, width as nat));
}

/// Appends blanks up to `width` characters less the length of `part`, then
/// `part`.
pub fn append_right_aligned(text: &mut String, part: &str, width: usize)
    ensures
        final(text)@ == old(text)@ + padded_left(part@, width as nat),
{
    let len = part.unicode_len();
    if len < width {
        append_blanks(text, width - len);
    } else {
        assert(blanks(width - part@.len()) =~= Seq::<char>::empty());
    }
    text.append(part);
    assert(text@ =~= old(text)@ + padded_left(part@, width as nat));
}

/// The words for a read, or a pair of reads, that is no text: `what`, the
/// place counted from zero, and what is wrong.
pub open spec fn not_text_words(what: Seq<char>, at: nat) -> Seq<char> {
    what + decimal(at) + " holds bytes that are not UTF-8"@
}

/// Writes the words for a read, or a pair of reads, that is no text.
pub fn not_text_message(what: &str, at: usize) -> (text: String)
    ensures
        text@ == not_text_words(what@, at as nat),
{
    let mut text = String::from_str(what);
    append_decimal(&mut text, at as u128);
    text.append(" holds bytes that are not UTF-8");
    text
}

} // verus!
