//! Text helpers: equality of strings, UTF-8 decoding, leading whitespace.

use std::borrow::Cow;
use vstd::prelude::*;
use vstd::string::StringSliceAdditionalSpecFns;
use vstd::utf8::{decode_utf8, encode_utf8, encode_utf8_decode_utf8, valid_utf8};

verus! {

/// The error of a failed UTF-8 check, carried through without being read.
#[verifier::external_type_specification]
#[verifier::external_body]
pub struct ExUtf8Error(core::str::Utf8Error);

/// `core::str::from_utf8` accepts exactly the byte sequences that are valid
/// UTF-8, and the string it returns has the bytes it was given.
pub assume_specification[ core::str::from_utf8 ](v: &[u8]) -> (r: Result<
    &str,
    core::str::Utf8Error,
>)
    ensures
        r is Ok <==> valid_utf8(v@),
        r matches Ok(s) ==> s.spec_bytes() == v@,
;

/// A string is determined by its UTF-8 bytes.
pub proof fn lemma_same_bytes_same_text(a: Seq<char>, b: Seq<char>)
    requires
        encode_utf8(a) == encode_utf8(b),
    ensures
        a == b,
{
    encode_utf8_decode_utf8(a);
    encode_utf8_decode_utf8(b);
}

/// The text of valid UTF-8 bytes has those bytes.
pub proof fn lemma_decoded_text(bytes: Seq<u8>, text: Seq<char>)
    requires
        encode_utf8(text) == bytes,
    ensures
        valid_utf8(bytes),
        decode_utf8(bytes) == text,
{
    vstd::utf8::encode_utf8_valid_utf8(text);
    encode_utf8_decode_utf8(text);
}

/// Whether two byte slices hold the same bytes.
pub fn bytes_eq(a: &[u8], b: &[u8]) -> (same: bool)
    ensures
        same == (a@ == b@),
{
    if a.len() != b.len() {
        return false;
    }
    let mut i: usize = 0;
    while i < a.len()
        invariant
            i <= a.len(),
            a@.len() == b@.len(),
            forall|k: int| 0 <= k < i ==> a@[k] == b@[k],
        decreases a.len() - i,
    {
        if a[i] != b[i] {
            return false;
        }
        i = i + 1;
    }
    assert(a@ =~= b@);
    true
}

/// Whether two strings are equal.
pub fn str_eq(a: &str, b: &str) -> (same: bool)
    ensures
        same == (a@ == b@),
{
    let same = bytes_eq(a.as_bytes(), b.as_bytes());
    proof {
        if same {
            lemma_same_bytes_same_text(a@, b@);
        }
    }
    same
}

/// Copies a text that is borrowed or owned; the copy borrows where it does.
pub fn copy_text<'a>(text: &Cow<'a, str>) -> (copy: Cow<'a, str>)
    ensures
        copy@ == text@,
        copy is Borrowed == text is Borrowed,
{
    match text {
        Cow::Borrowed(s) => Cow::Borrowed(*s),
        Cow::Owned(s) => Cow::Owned(s.clone()),
    }
}

/// Takes a text out, copying it where it is borrowed.
pub fn own_text(text: Cow<'_, str>) -> (owned: String)
    ensures
        owned@ == text@,
{
    match text {
        Cow::Borrowed(s) => s.to_owned(),
        Cow::Owned(s) => s,
    }
}

/// Whether `c` has the Unicode property `White_Space`.
pub open spec fn white_space(c: char) -> bool {
    ||| '\u{9}' <= c <= '\u{d}'
    ||| c == ' '
    ||| c == '\u{85}'
    ||| c == '\u{a0}'
    ||| c == '\u{1680}'
    ||| '\u{2000}' <= c <= '\u{200a}'
    ||| c == '\u{2028}'
    ||| c == '\u{2029}'
    ||| c == '\u{202f}'
    ||| c == '\u{205f}'
    ||| c == '\u{3000}'
}

/// Executable form of [`white_space`].
pub fn is_white_space(c: char) -> (yes: bool)
    ensures
        yes == white_space(c),
{
    ('\u{9}' <= c && c <= '\u{d}') || c == ' ' || c == '\u{85}' || c == '\u{a0}' || c == '\u{1680}'
        || ('\u{2000}' <= c && c <= '\u{200a}') || c == '\u{2028}' || c == '\u{2029}' || c
        == '\u{202f}' || c == '\u{205f}' || c == '\u{3000}'
}

/// The first character of `text` that is not whitespace.
pub open spec fn first_visible(text: Seq<char>) -> Option<char>
    decreases text.len(),
{
    if text.len() == 0 {
        None
    } else if white_space(text[0]) {
        first_visible(text.drop_first())
    } else {
        Some(text[0])
    }
}

/// Returns the first character of `text` that is not whitespace.
pub fn first_visible_char(text: &str) -> (first: Option<char>)
    ensures
        first == first_visible(text@),
{
    assert(text@.skip(0) =~= text@);
    for c in it: text.chars()
        invariant
            it.seq() == text@,
            0 <= it.index() <= text@.len(),
            first_visible(text@) == first_visible(text@.skip(it.index() as int)),
    {
        assert(text@.skip(it.index() as int).drop_first() =~= text@.skip(it.index() + 1));
        if !is_white_space(c) {
            return Some(c);
        }
    }
    assert(text@.skip(text@.len() as int) =~= Seq::<char>::empty());
    None
}

} // verus!
