//! Facts about strings: substring containment, byte offsets of character
//! positions, display widths, and the decimal width of a number.

use vstd::prelude::*;
use vstd::string::*;
use vstd::utf8::*;

verus! {

/// `needle` occurs in `hay` starting at character position `at`.
pub open spec fn occurs_at(hay: Seq<char>, needle: Seq<char>, at: int) -> bool {
    &&& 0 <= at
    &&& at + needle.len() <= hay.len()
    &&& hay.subrange(at, at + needle.len()) == needle
}

/// `needle` is a contiguous run of characters of `hay`. The empty text is
/// contained in every text.
pub open spec fn contains_text(hay: Seq<char>, needle: Seq<char>) -> bool {
    exists|at: int| #[trigger] occurs_at(hay, needle, at)
}

/// The empty text occurs in every text, at position 0.
pub proof fn lemma_contains_empty(hay: Seq<char>)
    ensures
        contains_text(hay, Seq::<char>::empty()),
{
    assert(hay.subrange(0, 0) =~= Seq::<char>::empty());
    assert(occurs_at(hay, Seq::<char>::empty(), 0));
}

/// Trusted: `str::contains` with a string slice as the pattern. The standard
/// library documents it as true exactly when the pattern matches a sub-slice
/// of the string; on valid UTF-8 a sub-slice match is a run of whole
/// characters, which is what `contains_text` says.
#[verifier::external_body]
pub(crate) fn str_contains(hay: &str, needle: &str) -> (found: bool)
    ensures
        found == contains_text(hay@, needle@),
{
    hay.contains(needle)
}

/// Number of bytes that the first `chars` characters of `text` take in UTF-8.
pub open spec fn byte_offset(text: Seq<char>, chars: int) -> nat {
    encode_utf8(text.take(chars)).len()
}

/// Trusted: `char::len_utf8`, documented as the number of bytes the character
/// needs when encoded in UTF-8.
#[verifier::external_body]
pub(crate) fn char_len_utf8(c: char) -> (n: usize)
    ensures
        n == encode_scalar(c as u32).len(),
{
    c.len_utf8()
}

/// Trusted: `String::insert`, which puts a character at a byte position that
/// lies on a character boundary. In characters: when the byte position is the
/// offset of character position `k`, the new text is the old one with the
/// character inserted at `k`.
#[verifier::external_body]
pub(crate) fn string_insert(text: &mut String, at: usize, c: char)
    requires
        exists|k: int| 0 <= k <= old(text)@.len() && #[trigger] byte_offset(old(text)@, k) == at,
    ensures
        forall|k: int|
            0 <= k <= old(text)@.len() && #[trigger] byte_offset(old(text)@, k) == at
                ==> final(text)@ == old(text)@.insert(k, c),
{
    text.insert(at, c)
}

proof fn lemma_encode_push(text: Seq<char>, c: char)
    ensures
        encode_utf8(text.push(c)) =~= encode_utf8(text) + encode_scalar(c as u32),
    decreases text.len(),
{
    if text.len() == 0 {
        assert(text.push(c).drop_first() =~= Seq::<char>::empty());
        assert(encode_utf8(text.push(c).drop_first()) =~= Seq::<u8>::empty());
    } else {
        assert(text.push(c).drop_first() =~= text.drop_first().push(c));
        lemma_encode_push(text.drop_first(), c);
    }
}

/// One more character moves the byte offset on by that character's encoding.
pub proof fn lemma_byte_offset_step(text: Seq<char>, chars: int)
    requires
        0 <= chars < text.len(),
    ensures
        byte_offset(text, chars + 1) == byte_offset(text, chars) + encode_scalar(
            text[chars] as u32,
        ).len(),
{
    assert(text.take(chars + 1) =~= text.take(chars).push(text[chars]));
    lemma_encode_push(text.take(chars), text[chars]);
}

/// Byte offsets grow with the character position.
pub proof fn lemma_byte_offset_monotonic(text: Seq<char>, i: int, j: int)
    requires
        0 <= i <= j <= text.len(),
    ensures
        byte_offset(text, i) <= byte_offset(text, j),
    decreases j - i,
{
    if i < j {
        lemma_byte_offset_step(text, j - 1);
        lemma_byte_offset_monotonic(text, i, j - 1);
    }
}

/// The byte offset of character position `chars` in `text`; that of the
/// text's end where `chars` lies behind it.
pub fn byte_offset_of(text: &str, chars: usize) -> (offset: usize)
    ensures
        offset == byte_offset(
            text@,
            if chars <= text@.len() {
                chars as int
            } else {
                text@.len() as int
            },
        ),
{
    let total: usize = text.as_bytes().len();
    let len: usize = text.unicode_len();
    let stop: usize = if chars <= len {
        chars
    } else {
        len
    };
    let mut offset: usize = 0;
    let mut i: usize = 0;
    proof {
        assert(text@.take(text@.len() as int) =~= text@);
        assert(text@.take(0) =~= Seq::<char>::empty());
    }
    while i < stop
        invariant
            i <= stop <= text@.len(),
            offset == byte_offset(text@, i as int),
            total == byte_offset(text@, text@.len() as int),
        decreases stop - i,
    {
        let c = text.get_char(i);
        let width: usize = char_len_utf8(c);
        proof {
            lemma_byte_offset_step(text@, i as int);
            lemma_byte_offset_monotonic(text@, i + 1, text@.len() as int);
        }
        offset = offset + width;
        i = i + 1;
    }
    offset
}

/// Number of terminal columns that `text` takes on display.
pub uninterp spec fn display_width(text: Seq<char>) -> nat;

/// Trusted: `ratatui::text::Span::width` of the unstyled span that
/// `ratatui::text::Span::raw` makes of `text`. It returns the Unicode width of
/// the span's content, which depends on the text alone; the contract gives
/// that number its name.
#[verifier::external_body]
pub(crate) fn span_width(text: &str) -> (width: usize)
    ensures
        width == display_width(text@),
{
    ratatui::text::Span::raw(text).width()
}

/// Number of decimal digits of `n`.
pub open spec fn decimal_width(n: nat) -> nat
    decreases n,
{
    if n < 10 {
        1
    } else {
        1 + decimal_width(n / 10)
    }
}

/// Number of decimal digits of `n`.
pub fn decimal_width_of(n: u32) -> (width: usize)
    ensures
        width == decimal_width(n as nat),
{
    let mut rest: u32 = n;
    let mut width: usize = 1;
    while rest >= 10
        invariant
            width + decimal_width(rest as nat) == decimal_width(n as nat) + 1,
            width + rest <= n + 1,
            width >= 1,
        decreases rest,
    {
        rest = rest / 10;
        width = width + 1;
    }
    width
}

} // verus!
