//! The `params` of requests and notifications.

use crate::error::Error;
use crate::json::{self, RawValue, RawView};
use crate::text::{first_visible, first_visible_char, lemma_decoded_text};
use smallvec::SmallVec;
use vstd::prelude::*;

verus! {

/// A value that could not be serialized.
#[derive(Debug)]
pub struct Unserialized {
    /// What had been written of it by then.
    pub written: Vec<u8>,
    /// Why it could not be serialized.
    pub error: serde_json::Error,
}

/// What serializing a value to JSON text gave.
pub type Serialized = Result<String, Unserialized>;

/// The bytes that serializing a value wrote, whether it succeeded or not.
pub open spec fn written(json: Serialized) -> Seq<u8> {
    match json {
        Ok(text) => vstd::utf8::encode_utf8(text@),
        Err(failed) => failed.written@,
    }
}

/// An owned, structured JSON-RPC params value: either an Object or an Array,
/// the only two shapes the protocol allows for `params`. Either is held as the
/// JSON text it is sent as.
#[derive(Debug)]
pub enum Params {
    /// A params object, e.g. `{"a": 1}`.
    Object(String),
    /// A params array, e.g. `[1, 2, 3]`.
    Array(String),
}

impl Params {
    /// The JSON text of the value.
    pub open spec fn text(self) -> Seq<char> {
        match self {
            Params::Object(text) => text@,
            Params::Array(text) => text@,
        }
    }

    /// Takes the JSON text out.
    pub fn into_text(self) -> (text: String)
        ensures
            text@ == self.text(),
    {
        match self {
            Params::Object(text) => text,
            Params::Array(text) => text,
        }
    }
}

impl Clone for Params {
    fn clone(&self) -> (params: Self)
        ensures
            params.text() == self.text(),
            params is Object == self is Object,
    {
        match self {
            Params::Object(text) => Params::Object(text.clone()),
            Params::Array(text) => Params::Array(text.clone()),
        }
    }
}

/// Adapts a caller-supplied params argument into the optional value that every
/// call needs internally. `()` means "no params": the common case. `Some` and
/// `None` pass through unchanged for callers that decide whether to send params
/// at runtime.
pub trait IntoOptionParams: Sized + Send + Sync {
    /// The concrete params type once unwrapped.
    type Value: Send + Sync;

    /// The value that the argument stands for.
    spec fn option_params(self) -> Option<Self::Value>;

    /// Performs the conversion.
    fn into_option_params(self) -> (params: Option<Self::Value>)
        ensures
            params == self.option_params(),
    ;
}

impl IntoOptionParams for () {
    type Value = ();

    open spec fn option_params(self) -> Option<()> {
        None
    }

    fn into_option_params(self) -> (params: Option<()>) {
        None
    }
}

impl<T: Send + Sync> IntoOptionParams for Option<T> {
    type Value = T;

    open spec fn option_params(self) -> Option<T> {
        self
    }

    fn into_option_params(self) -> (params: Option<T>) {
        self
    }
}

/// Whether the first visible character of `text` opens an object or an array.
pub open spec fn structured(text: Seq<char>) -> bool {
    first_visible(text) == Some('{') || first_visible(text) == Some('[')
}

/// Whether the first character of `data` that is not whitespace is `{` or `[`:
/// the two Structured value shapes `params` is allowed to take.
pub fn is_object_or_array(data: &str) -> (yes: bool)
    ensures
        yes == structured(data@),
{
    match first_visible_char(data) {
        Some(c) => c == '{' || c == '[',
        None => false,
    }
}

/// Whether `text` can be sent as params as it stands: it is one JSON value
/// without whitespace around it, and begins with the bracket that opens an
/// object or an array.
pub open spec fn sendable(text: Seq<char>) -> bool {
    &&& text.len() > 0 && (text[0] == '{' || text[0] == '[')
    &&& json::json_valid(text)
    &&& json::json_trim(text) == text
}

/// Why params are refused.
#[derive(Debug, Clone, Copy)]
pub enum ParamsFault {
    /// They are not JSON.
    Serde,
    /// They are JSON, but neither an object nor an array.
    Unstructured,
    /// They are not UTF-8.
    NotUtf8,
}

impl ParamsFault {
    /// Whether `error` is the error for this fault.
    pub open spec fn is_told_by(self, error: Error) -> bool {
        match self {
            ParamsFault::Serde => error is SerdeError,
            ParamsFault::Unstructured => error is InvalidParams,
            ParamsFault::NotUtf8 => error is InvalidUTF8Str,
        }
    }

    /// The fault that `error` is the error for, if there is one.
    pub fn behind(error: &Error) -> (fault: Option<ParamsFault>)
        ensures
            match fault {
                Some(f) => f.is_told_by(*error),
                None => forall|f: ParamsFault| !#[trigger] f.is_told_by(*error),
            },
    {
        match error {
            Error::SerdeError(_) => Some(ParamsFault::Serde),
            Error::InvalidParams => Some(ParamsFault::Unstructured),
            Error::InvalidUTF8Str(_) => Some(ParamsFault::NotUtf8),
            _ => None,
        }
    }
}

/// What becomes of params with the JSON text `text`: the text less the
/// whitespace around it, where it is a Structured value.
pub open spec fn params_text(text: Seq<char>) -> Result<RawView, ParamsFault> {
    if !structured(text) {
        Err(ParamsFault::Unstructured)
    } else if !json::json_valid(text) {
        Err(ParamsFault::Serde)
    } else {
        Ok(RawView { text: json::json_trim(text), offset: None })
    }
}

/// What becomes of a serialized value.
pub open spec fn params_value(json: Serialized) -> Result<RawView, ParamsFault> {
    match json {
        Ok(text) => params_text(text@),
        Err(_) => Err(ParamsFault::Serde),
    }
}

/// What becomes of a serialized value that is put behind the bytes `before`.
pub open spec fn params_behind(before: Seq<u8>, json: Serialized) -> Result<RawView, ParamsFault> {
    match json {
        Ok(text) => {
            let all = before + vstd::utf8::encode_utf8(text@);
            if vstd::utf8::valid_utf8(all) {
                params_text(vstd::utf8::decode_utf8(all))
            } else {
                Err(ParamsFault::NotUtf8)
            }
        },
        Err(_) => Err(ParamsFault::Serde),
    }
}

/// What becomes of an optional value, `params` being what becomes of the value.
pub open spec fn optional_params(
    json: Option<Serialized>,
    params: spec_fn(Serialized) -> Result<RawView, ParamsFault>,
) -> Result<Option<RawView>, ParamsFault> {
    match json {
        None => Ok(None),
        Some(j) => match params(j) {
            Ok(raw) => Ok(Some(raw)),
            Err(fault) => Err(fault),
        },
    }
}

/// Whether `outcome` is the result of a call that should come out as
/// `expected`.
pub open spec fn params_come_out(
    outcome: Result<RawValue<'_>, Error>,
    expected: Result<RawView, ParamsFault>,
) -> bool {
    match expected {
        Ok(raw) => outcome matches Ok(r) && r@ == raw,
        Err(fault) => outcome matches Err(e) && fault.is_told_by(e),
    }
}

/// Validates that a serialized value is a Structured value (an Object or
/// Array), producing an owned, heap-allocated text.
pub fn serialize_params(json: Serialized) -> (params: Result<RawValue<'static>, Error>)
    ensures
        params_come_out(params, params_value(json)),
        params matches Ok(raw) ==> raw is Owned && sendable(raw@.text),
        json matches Err(failed) ==> params == Err::<RawValue<'static>, Error>(
            Error::SerdeError(failed.error),
        ),
{
    let text = match json {
        Ok(text) => text,
        Err(failed) => return Err(Error::SerdeError(failed.error)),
    };
    if !is_object_or_array(text.as_str()) {
        return Err(Error::InvalidParams);
    }
    match json::raw_text(text.as_str()) {
        Ok(raw) => {
            proof {
                lemma_trim_visible(text@);
                lemma_trim_twice(text@);
            }
            Ok(RawValue::Owned(raw.to_owned()))
        },
        Err(e) => Err(Error::SerdeError(e)),
    }
}

/// A caller-owned buffer for params: a `smallvec::SmallVec` that stays on the
/// stack up to its inline capacity.
#[verifier::external_body]
pub struct ParamsBuf {
    bytes: SmallVec<[u8; 1024]>,
}

/// The bytes that a buffer holds.
pub uninterp spec fn buffered(buf: ParamsBuf) -> Seq<u8>;

impl ParamsBuf {
    /// An empty buffer.
    pub fn new() -> (buf: Self)
        ensures
            buffered(buf) == Seq::<u8>::empty(),
    {
        empty_buffer()
    }
}

impl Default for ParamsBuf {
    fn default() -> (buf: Self)
        ensures
            buffered(buf) == Seq::<u8>::empty(),
    {
        empty_buffer()
    }
}

/// `SmallVec::new`: holds nothing.
#[verifier::external_body]
fn empty_buffer() -> (buf: ParamsBuf)
    ensures
        buffered(buf) == Seq::<u8>::empty(),
{
    ParamsBuf { bytes: SmallVec::new() }
}

/// How many bytes a buffer can hold: it grows to a power of two, and what is
/// allocated must not exceed `isize::MAX` bytes.
pub open spec fn buffer_limit() -> int {
    isize::MAX / 2 + 1
}

/// `SmallVec::extend_from_slice`: puts the bytes behind those already there.
/// It panics where the next power of two from their number on exceeds what an
/// allocation can hold.
#[verifier::external_body]
fn extend_buffer(buf: &mut ParamsBuf, bytes: &[u8])
    requires
        buffered(*old(buf)).len() + bytes@.len() <= buffer_limit(),
    ensures
        buffered(*final(buf)) == buffered(*old(buf)) + bytes@,
{
    buf.bytes.extend_from_slice(bytes)
}

/// `SmallVec::as_slice`: the bytes that the buffer holds.
#[verifier::external_body]
fn buffer_bytes(buf: &ParamsBuf) -> (bytes: &[u8])
    ensures
        bytes@ == buffered(*buf),
{
    buf.bytes.as_slice()
}

/// Whether a buffer has room for what serializing a value wrote.
pub open spec fn has_room(buf: ParamsBuf, json: Serialized) -> bool {
    buffered(buf).len() + written(json).len() <= buffer_limit()
}

/// Appends a serialized value to the caller-owned `buf`, growing it as needed
/// (staying stack-only up to its inline capacity), and validates that what the
/// buffer then holds is a Structured value: the counterpart of
/// [`serialize_params`] that allocates nothing for small payloads. The returned
/// text borrows from `buf`, so `buf` must outlive it. What was written of a value
/// that could not be serialized stays in `buf`.
pub fn params_to_raw_value<'a>(json: Serialized, buf: &'a mut ParamsBuf) -> (params: Result<
    RawValue<'a>,
    Error,
>)
    requires
        has_room(*old(buf), json),
    ensures
        params_come_out(params, params_behind(buffered(*old(buf)), json)),
        params matches Ok(raw) ==> raw is Buffered && sendable(raw@.text),
        buffered(*final(buf)) == buffered(*old(buf)) + written(json),
        json matches Err(failed) ==> params == Err::<RawValue<'a>, Error>(
            Error::SerdeError(failed.error),
        ),
{
    let text = match json {
        Ok(text) => text,
        Err(failed) => {
            extend_buffer(buf, failed.written.as_slice());
            return Err(Error::SerdeError(failed.error));
        },
    };
    extend_buffer(buf, text.as_str().as_bytes());
    let bytes = buffer_bytes(buf);
    let all = match core::str::from_utf8(bytes) {
        Ok(all) => all,
        Err(e) => return Err(Error::InvalidUTF8Str(e)),
    };
    proof {
        lemma_decoded_text(bytes@, all@);
    }
    if !is_object_or_array(all) {
        return Err(Error::InvalidParams);
    }
    match json::raw_text(all) {
        Ok(raw) => {
            proof {
                lemma_trim_visible(all@);
                lemma_trim_twice(all@);
            }
            Ok(RawValue::Buffered(raw))
        },
        Err(e) => Err(Error::SerdeError(e)),
    }
}

/// What a buffer holds once optional params are put behind the bytes `before`:
/// what was written of the params too, whether they are found fit to be sent or
/// not.
pub open spec fn buffered_behind(before: Seq<u8>, params: Option<Serialized>) -> Seq<u8> {
    match params {
        Some(json) => before + written(json),
        None => before,
    }
}

/// Checks a `params` member that was read: rejects anything that isn't a
/// Structured value (an Object or Array).
pub fn deserialize_params_with<'a>(raw: Option<RawValue<'a>>) -> (params: Result<
    Option<RawValue<'a>>,
    serde_json::Error,
>)
    ensures
        params is Ok <==> (raw matches Some(r) ==> structured(r@.text)),
        params matches Ok(p) ==> p == raw,
{
    match raw {
        Some(r) => if is_object_or_array(r.get()) {
            Ok(Some(r))
        } else {
            Err(json::custom_error("JSON-RPC params must be an object or array"))
        },
        None => Ok(None),
    }
}

/// A fresh buffer makes no difference: params come out of it as they do
/// without one.
pub proof fn law_fresh_buffer_changes_nothing(params: Option<Serialized>)
    ensures
        optional_params(params, |j: Serialized| params_behind(Seq::<u8>::empty(), j))
            == optional_params(params, |j: Serialized| params_value(j)),
        params matches Some(json) ==> params_behind(Seq::<u8>::empty(), json) == params_value(
            json,
        ),
{
    if let Some(Ok(text)) = params {
        let bytes = vstd::utf8::encode_utf8(text@);
        assert(Seq::<u8>::empty() + bytes =~= bytes);
        lemma_decoded_text(bytes, text@);
    }
}

proof fn lemma_trim_end_visible(text: Seq<char>)
    ensures
        first_visible(json::json_trim_end(text)) == first_visible(text),
    decreases text.len(),
{
    if text.len() > 0 && json::json_space(text.last()) {
        lemma_trim_end_visible(text.drop_last());
        lemma_push_space(text.drop_last(), text.last());
        assert(text.drop_last().push(text.last()) =~= text);
    }
}

proof fn lemma_push_space(text: Seq<char>, c: char)
    requires
        json::json_space(c),
    ensures
        first_visible(text.push(c)) == first_visible(text),
    decreases text.len(),
{
    if text.len() == 0 {
        assert(text.push(c).drop_first() =~= Seq::<char>::empty());
    } else {
        assert(text.push(c).drop_first() =~= text.drop_first().push(c));
        lemma_push_space(text.drop_first(), c);
    }
}

/// Dropping the JSON whitespace around a text keeps its first visible character.
proof fn lemma_trim_visible(text: Seq<char>)
    ensures
        first_visible(json::json_trim(text)) == first_visible(text),
    decreases text.len(),
{
    if text.len() > 0 && json::json_space(text[0]) {
        lemma_trim_visible(text.drop_first());
    } else {
        lemma_trim_end_visible(text);
    }
}

proof fn lemma_trim_end_twice(text: Seq<char>)
    ensures
        json::json_trim_end(json::json_trim_end(text)) == json::json_trim_end(text),
        json::json_trim_end(text).len() > 0 ==> json::json_trim_end(text)[0] == text[0],
    decreases text.len(),
{
    if text.len() > 0 && json::json_space(text.last()) {
        lemma_trim_end_twice(text.drop_last());
    }
}

/// Dropping the JSON whitespace around a text a second time drops nothing.
proof fn lemma_trim_twice(text: Seq<char>)
    ensures
        json::json_trim(json::json_trim(text)) == json::json_trim(text),
    decreases text.len(),
{
    if text.len() > 0 && json::json_space(text[0]) {
        lemma_trim_twice(text.drop_first());
    } else {
        lemma_trim_end_twice(text);
    }
}

/// Params that have been found fit to be sent come out unchanged if they are
/// checked again.
pub proof fn law_checking_twice_changes_nothing(text: String)
    requires
        sendable(text@),
    ensures
        params_value(Ok(text)) == Ok::<RawView, ParamsFault>(
            (RawView { text: text@, offset: None }),
        ),
{
}

} // verus!
