//! JSON text: what `serde_json` says of it, and pieces of it that messages
//! carry around unparsed.

use crate::text::white_space;
use serde_json::Error as SerdeJsonError;
use std::ops::Range;
use vstd::prelude::*;

verus! {

/// The error of a failed JSON operation, carried through without being read.
#[verifier::external_type_specification]
#[verifier::external_body]
pub struct ExSerdeJsonError(SerdeJsonError);

/// How many bytes `serde_json` reads from the start of `text`, leading
/// whitespace included, to skip over one JSON value; `None` where `text` does
/// not start with one.
pub uninterp spec fn json_value_len(text: Seq<u8>) -> Option<nat>;

/// The string that `serde_json` reads `text` as, where `text` is a JSON string
/// that can be borrowed as it stands (no escape sequence in it); `None`
/// otherwise.
pub uninterp spec fn json_borrowed_str(text: Seq<u8>) -> Option<Seq<char>>;

/// The string that `serde_json` reads `text` as, escape sequences resolved;
/// `None` where `text` is not a JSON string.
pub uninterp spec fn json_string(text: Seq<u8>) -> Option<Seq<char>>;

/// The `u64` that `serde_json` reads `text` as; `None` where it is no such
/// number.
pub uninterp spec fn json_u64(text: Seq<u8>) -> Option<u64>;

/// The `i64` that `serde_json` reads `text` as; `None` where it is no such
/// number.
pub uninterp spec fn json_i64(text: Seq<u8>) -> Option<i64>;

/// Whether `serde_json` reads `text` as a JSON number, and one that is not out
/// of its range.
pub uninterp spec fn json_number(text: Seq<u8>) -> bool;

/// Whether `text` is one JSON value, with whitespace around it allowed.
pub uninterp spec fn json_valid(text: Seq<char>) -> bool;

/// The JSON value that `serde_json` builds from `text`, written again by
/// `serde_json`; `None` where it builds none.
pub uninterp spec fn json_rewritten(text: Seq<char>) -> Option<Seq<char>>;

/// Skips one value with `serde_json::Deserializer` (as an `IgnoredAny`) and
/// returns the deserializer's byte offset behind it. The length is that named
/// by [`json_value_len`]; it is never zero and never beyond the text.
#[verifier::external_body]
pub(crate) fn value_len(text: &[u8]) -> (len: Result<usize, serde_json::Error>)
    ensures
        len is Ok <==> json_value_len(text@) is Some,
        len matches Ok(n) ==> {
            &&& json_value_len(text@) == Some(n as nat)
            &&& 0 < n <= text@.len()
        },
{
    let mut de = serde_json::Deserializer::from_slice(text);
    match <serde::de::IgnoredAny as serde::Deserialize>::deserialize(&mut de) {
        Ok(_) => Ok(de.into_iter::<serde::de::IgnoredAny>().byte_offset()),
        Err(e) => Err(e),
    }
}

/// `serde_json::from_slice::<&str>`: the result is that named by
/// [`json_borrowed_str`]. A string that can be borrowed is the one that is read
/// from the same text as an owned string.
#[verifier::external_body]
pub(crate) fn borrowed_str(text: &[u8]) -> (s: Result<&str, serde_json::Error>)
    ensures
        s is Ok <==> json_borrowed_str(text@) is Some,
        s matches Ok(t) ==> json_borrowed_str(text@) == Some(t@),
        s matches Ok(t) ==> json_string(text@) == Some(t@),
{
    serde_json::from_slice(text)
}

/// `serde_json::from_slice::<String>`: the result is that named by
/// [`json_string`].
#[verifier::external_body]
pub(crate) fn string(text: &[u8]) -> (s: Result<String, serde_json::Error>)
    ensures
        s is Ok <==> json_string(text@) is Some,
        s matches Ok(t) ==> json_string(text@) == Some(t@),
{
    serde_json::from_slice(text)
}

/// `serde_json::from_slice::<u64>`: the result is that named by [`json_u64`].
#[verifier::external_body]
pub(crate) fn unsigned(text: &[u8]) -> (n: Result<u64, serde_json::Error>)
    ensures
        n is Ok <==> json_u64(text@) is Some,
        n matches Ok(v) ==> json_u64(text@) == Some(v),
{
    serde_json::from_slice(text)
}

/// `serde_json::from_slice::<i64>`: the result is that named by [`json_i64`].
#[verifier::external_body]
pub(crate) fn signed(text: &[u8]) -> (n: Result<i64, serde_json::Error>)
    ensures
        n is Ok <==> json_i64(text@) is Some,
        n matches Ok(v) ==> json_i64(text@) == Some(v),
{
    serde_json::from_slice(text)
}

/// `serde_json::from_slice::<serde_json::Number>`, of whose result only the
/// success is kept: it is that named by [`json_number`].
#[verifier::external_body]
pub(crate) fn number(text: &[u8]) -> (ok: Result<(), serde_json::Error>)
    ensures
        ok is Ok <==> json_number(text@),
{
    match serde_json::from_slice::<serde_json::Number>(text) {
        Ok(_) => Ok(()),
        Err(e) => Err(e),
    }
}

/// Whether `c` is one of the four characters that JSON allows between tokens.
pub open spec fn json_space(c: char) -> bool {
    c == ' ' || c == '\n' || c == '\t' || c == '\r'
}

/// `text` without the JSON whitespace at its end.
pub open spec fn json_trim_end(text: Seq<char>) -> Seq<char>
    decreases text.len(),
{
    if text.len() > 0 && json_space(text.last()) {
        json_trim_end(text.drop_last())
    } else {
        text
    }
}

/// `text` without the JSON whitespace around it.
pub open spec fn json_trim(text: Seq<char>) -> Seq<char>
    decreases text.len(),
{
    if text.len() > 0 && json_space(text[0]) {
        json_trim(text.drop_first())
    } else {
        json_trim_end(text)
    }
}

/// `serde_json::from_str::<&RawValue>`: succeeds on the texts named by
/// [`json_valid`], with the text less the whitespace around it. What is left
/// is valid again, and begins with the first character of a value, which is no
/// whitespace of any kind.
#[verifier::external_body]
pub(crate) fn raw_text(text: &str) -> (raw: Result<&str, serde_json::Error>)
    ensures
        raw is Ok <==> json_valid(text@),
        raw matches Ok(t) ==> {
            &&& t@ == json_trim(text@)
            &&& json_valid(t@)
            &&& t@.len() > 0
            &&& !white_space(t@[0])
        },
{
    match serde_json::from_str::<&serde_json::value::RawValue>(text) {
        Ok(raw) => Ok(raw.get()),
        Err(e) => Err(e),
    }
}

/// `serde_json::from_str::<serde_json::Value>`, whose result is handed out as
/// the text that it displays as: that named by [`json_rewritten`].
#[verifier::external_body]
pub(crate) fn rewrite(text: &str) -> (rewritten: Result<String, serde_json::Error>)
    ensures
        rewritten is Ok <==> json_rewritten(text@) is Some,
        rewritten matches Ok(t) ==> json_rewritten(text@) == Some(t@),
{
    match serde_json::from_str::<serde_json::Value>(text) {
        Ok(value) => Ok(value.to_string()),
        Err(e) => Err(e),
    }
}

/// `<serde_json::Error as serde::de::Error>::custom`: an error with a message
/// of the caller's. Nothing is claimed of the value.
#[verifier::external_body]
pub(crate) fn custom_error(message: &str) -> (e: serde_json::Error) {
    <serde_json::Error as serde::de::Error>::custom(message)
}

/// The decimal digit of `d`.
pub open spec fn decimal_digit(d: nat) -> char {
    (48 + d) as char
}

/// `n` in decimal, without leading zeros.
pub open spec fn decimal(n: nat) -> Seq<char>
    decreases n,
{
    if n < 10 {
        seq![decimal_digit(n)]
    } else {
        decimal(n / 10).push(decimal_digit(n % 10))
    }
}

/// `serde_json::to_string` of a `u64`: never fails, and writes the number in
/// decimal.
#[verifier::external_body]
pub(crate) fn number_text(n: u64) -> (text: Result<String, serde_json::Error>)
    ensures
        text is Ok,
        text->Ok_0@ == decimal(n as nat),
{
    serde_json::to_string(&n)
}

/// The lower-case hexadecimal digit of `d`.
pub open spec fn hex_digit(d: nat) -> char {
    if d < 10 {
        (48 + d) as char
    } else {
        (87 + d) as char
    }
}

/// How one character is written inside a JSON string.
pub open spec fn escaped_char(c: char) -> Seq<char> {
    if c == '"' {
        seq!['\\', '"']
    } else if c == '\\' {
        seq!['\\', '\\']
    } else if c == '\u{8}' {
        seq!['\\', 'b']
    } else if c == '\u{c}' {
        seq!['\\', 'f']
    } else if c == '\n' {
        seq!['\\', 'n']
    } else if c == '\r' {
        seq!['\\', 'r']
    } else if c == '\t' {
        seq!['\\', 't']
    } else if c <= '\u{1f}' {
        seq!['\\', 'u', '0', '0', hex_digit(c as nat / 16), hex_digit(c as nat % 16)]
    } else {
        seq![c]
    }
}

/// How the characters of a string are written inside a JSON string.
pub open spec fn escaped(text: Seq<char>) -> Seq<char>
    decreases text.len(),
{
    if text.len() == 0 {
        Seq::empty()
    } else {
        escaped(text.drop_last()) + escaped_char(text.last())
    }
}

/// `text` as a JSON string.
pub open spec fn quoted(text: Seq<char>) -> Seq<char> {
    seq!['"'] + escaped(text) + seq!['"']
}

/// `serde_json::to_string` of a string: never fails, and writes the string in
/// double quotes, with `"`, `\` and the characters below U+0020 escaped.
#[verifier::external_body]
pub(crate) fn string_text(s: &str) -> (text: Result<String, serde_json::Error>)
    ensures
        text is Ok,
        text->Ok_0@ == quoted(s@),
{
    serde_json::to_string(s)
}

/// JSON text and, where it is a piece of a message, where it stands in it.
#[verifier::ext_equal]
pub struct RawView {
    /// The text.
    pub text: Seq<char>,
    /// The index of its first byte in the message.
    pub offset: Option<int>,
}

impl RawView {
    /// The index behind its last byte in the message.
    pub open spec fn end(self) -> int {
        self.offset->Some_0 + vstd::utf8::encode_utf8(self.text).len()
    }

    /// Whether the text stands in `data` where it says it does.
    pub open spec fn lies_in(self, data: Seq<u8>) -> bool {
        &&& self.offset matches Some(offset)
        &&& 0 <= offset <= self.end() <= data.len()
        &&& data.subrange(offset, self.end()) == vstd::utf8::encode_utf8(self.text)
    }

    /// The same text, on its own.
    pub open spec fn owned(self) -> RawView {
        RawView { text: self.text, offset: None }
    }
}

/// A piece of a decoded message, as the JSON text it stands there in.
#[derive(Debug, Clone, Copy)]
pub struct RawSlice<'a> {
    /// The text of the piece.
    pub text: &'a str,
    /// The index of its first byte in the message.
    pub offset: usize,
}

impl<'a> View for RawSlice<'a> {
    type V = RawView;

    open spec fn view(&self) -> RawView {
        RawView { text: self.text@, offset: Some(self.offset as int) }
    }
}

impl<'a> RawSlice<'a> {
    /// The bytes of the message that the piece takes up.
    pub fn range(&self) -> (range: Range<usize>)
        requires
            self@.end() <= usize::MAX,
        ensures
            range.start == self@.offset->Some_0,
            range.end == self@.end(),
    {
        self.offset..self.offset + self.text.len()
    }
}

/// JSON text that a message carries without looking into it: borrowed from the
/// message it was decoded from, or on its own.
#[derive(Debug)]
pub enum RawValue<'a> {
    /// A piece of a decoded message.
    Borrowed(RawSlice<'a>),
    /// A text in a buffer of its own.
    Buffered(&'a str),
    /// A text that the value owns.
    Owned(String),
}

impl<'a> View for RawValue<'a> {
    type V = RawView;

    open spec fn view(&self) -> RawView {
        match self {
            RawValue::Borrowed(slice) => slice@,
            RawValue::Buffered(text) => RawView { text: text@, offset: None },
            RawValue::Owned(text) => RawView { text: text@, offset: None },
        }
    }
}

impl<'a> RawValue<'a> {
    /// The JSON text.
    pub fn get(&self) -> (text: &str)
        ensures
            text@ == self@.text,
    {
        match self {
            RawValue::Borrowed(slice) => slice.text,
            RawValue::Buffered(text) => *text,
            RawValue::Owned(text) => text.as_str(),
        }
    }

    /// Takes the text out, copying it where it is borrowed.
    pub fn into_owned(self) -> (raw: RawValue<'static>)
        ensures
            raw is Owned,
            raw@ == self@.owned(),
    {
        match self {
            RawValue::Borrowed(slice) => RawValue::Owned(slice.text.to_owned()),
            RawValue::Buffered(text) => RawValue::Owned(text.to_owned()),
            RawValue::Owned(text) => RawValue::Owned(text),
        }
    }
}

impl<'a> RawValue<'a> {
    /// Takes the text out as a string, copying it where it is borrowed.
    pub fn into_string(self) -> (text: String)
        ensures
            text@ == self@.text,
    {
        match self {
            RawValue::Borrowed(slice) => slice.text.to_owned(),
            RawValue::Buffered(text) => text.to_owned(),
            RawValue::Owned(text) => text,
        }
    }
}

impl<'a> Clone for RawValue<'a> {
    fn clone(&self) -> (raw: Self)
        ensures
            raw@ == self@,
    {
        match self {
            RawValue::Borrowed(slice) => RawValue::Borrowed(*slice),
            RawValue::Buffered(text) => RawValue::Buffered(*text),
            RawValue::Owned(text) => RawValue::Owned(text.clone()),
        }
    }
}

/// What an optional text is.
pub open spec fn optional_raw(raw: Option<RawValue<'_>>) -> Option<RawView> {
    match raw {
        None => None,
        Some(value) => Some(value@),
    }
}

} // verus!
