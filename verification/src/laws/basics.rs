//! Laws of the small things: error codes and errors, ids, names, versions, texts
//! and the command line.

use crate::builder::{WsClientBuilder, WsClientInner};
use crate::cli::{as_collection, default_level, parse_json_collection, CollectionError};
use crate::decode::{BatchItemView, IncomingView, JsonRpcBatchResponse, JsonRpcIncoming};
use crate::error::{Error, JsonRpcErrorCode};
use crate::json::{json_rewritten, json_space, RawSlice, RawValue, RawView};
use crate::method_id::{MethodId, MethodIdBuf, MethodName};
use crate::params::{IntoOptionParams, Params};
use crate::probe::ProbeError;
use crate::protocol::{
    ErrorResponseView, JsonRpcError, JsonRpcErrorResponse, JsonRpcNotification, JsonRpcOutgoing,
    JsonRpcOutgoingRef, JsonRpcRequest, JsonRpcResponse, Notification, OutgoingView,
};
use crate::request_id::{RequestId, RequestIdManager};
use crate::slots::empty_slots;
use crate::text::{
    bytes_eq, copy_text, first_visible, first_visible_char, is_white_space, own_text, str_eq,
};
use crate::version::{JSONRPC_VERSION, JsonRpcVersion};
use core::time::Duration;
use std::borrow::Cow;
use std::ops::{Range, RangeInclusive};
use vstd::prelude::*;

verus! {

/// The standard numbers have codes of their own, those that are set aside for
/// servers are told apart, and every other number is kept as it is.
pub proof fn law_each_number_has_its_code(n: i64, code: JsonRpcErrorCode)
    requires
        call_ensures(<JsonRpcErrorCode as From<i64>>::from, (n,), code),
    ensures
        code is ParseError <==> n == -32700,
        code is InvalidRequest <==> n == -32600,
        code is MethodNotFound <==> n == -32601,
        code is InvalidParams <==> n == -32602,
        code is InternalError <==> n == -32603,
        code is ServerError <==> -32099 <= n <= -32000,
        code matches JsonRpcErrorCode::ServerError(m) ==> m == n,
        code matches JsonRpcErrorCode::Other(m) ==> m == n,
{
}

/// A code has the number that the protocol gives it.
pub proof fn law_each_code_has_its_number(code: JsonRpcErrorCode, n: i64)
    requires
        call_ensures(<i64 as From<JsonRpcErrorCode>>::from, (code,), n),
    ensures
        code is ParseError ==> n == -32700,
        code is InvalidRequest ==> n == -32600,
        code is MethodNotFound ==> n == -32601,
        code is InvalidParams ==> n == -32602,
        code is InternalError ==> n == -32603,
        code matches JsonRpcErrorCode::ServerError(m) ==> n == m,
        code matches JsonRpcErrorCode::Other(m) ==> n == m,
{
}

/// A number that is read as a code and written again is the same number.
pub proof fn law_numbers_survive_codes(n: i64, code: JsonRpcErrorCode, m: i64)
    requires
        call_ensures(<JsonRpcErrorCode as From<i64>>::from, (n,), code),
        call_ensures(<i64 as From<JsonRpcErrorCode>>::from, (code,), m),
    ensures
        m == n,
{
}

/// Whether `e` is the error of the peer with this id, number, message and data.
pub open spec fn tells(
    e: Error,
    id: Option<RequestId>,
    number: i64,
    message: Seq<char>,
    data: Option<RawView>,
) -> bool {
    e matches Error::RpcError { id: i, code, message: m, data: d } && {
        &&& i == id
        &&& m@ == message
        &&& d is Some <==> data is Some
        &&& d matches Some(raw) ==> raw@.text == data->Some_0.text
        &&& code is ParseError <==> number == -32700
        &&& code is InvalidRequest <==> number == -32600
        &&& code is MethodNotFound <==> number == -32601
        &&& code is InvalidParams <==> number == -32602
        &&& code is InternalError <==> number == -32603
        &&& code is ServerError <==> -32099 <= number <= -32000
        &&& code matches JsonRpcErrorCode::ServerError(n) ==> n == number
        &&& code matches JsonRpcErrorCode::Other(n) ==> n == number
    }
}

/// Nothing of an error response is lost in the error that is made of it: id,
/// number, message, and data whatever it is.
pub proof fn law_error_response_is_kept_whole(response: JsonRpcErrorResponse<'_>, e: Error)
    requires
        call_ensures(<Error as From<JsonRpcErrorResponse<'_>>>::from, (response,), e),
    ensures
        e matches Error::RpcError { id, code, message, data } && {
            &&& id == response.id
            &&& message@ == response.error.message@
            &&& data is Some <==> response.error.data is Some
            &&& data matches Some(d) ==> d@.text == response.error.data->Some_0@.text
            &&& code is ParseError <==> response.error.code == -32700
            &&& code is InvalidRequest <==> response.error.code == -32600
            &&& code is MethodNotFound <==> response.error.code == -32601
            &&& code is InvalidParams <==> response.error.code == -32602
            &&& code is InternalError <==> response.error.code == -32603
            &&& code is ServerError <==> -32099 <= response.error.code <= -32000
            &&& code matches JsonRpcErrorCode::ServerError(m) ==> m == response.error.code
            &&& code matches JsonRpcErrorCode::Other(m) ==> m == response.error.code
        },
{
}

/// An error that stands for an error response has its id, number, message and
/// data, and nothing stands for it that has not.
pub proof fn law_standing_for_an_error_response(e: Error, response: ErrorResponseView)
    ensures
        e.stands_for(response) ==> tells(
            e,
            response.id,
            response.error.code,
            response.error.message,
            response.error.data,
        ),
        tells(
            e,
            response.id,
            response.error.code,
            response.error.message,
            response.error.data,
        ) && (e matches Error::RpcError { data: Some(raw), .. } ==> raw is Owned) ==> e.stands_for(
            response,
        ),
{
}

/// The error for a message of the wrong shape carries the explanation.
pub proof fn law_explanations_are_carried(e: Error, why: Seq<char>)
    ensures
        e.is_invalid_message(why) <==> (e matches Error::InvalidMessage(m) && m@ == why),
{
}

/// Failures of JSON and of UTF-8 are carried as they are.
pub proof fn law_foreign_errors_are_carried(
    json: serde_json::Error,
    utf8: core::str::Utf8Error,
    a: Error,
    b: Error,
)
    requires
        call_ensures(<Error as From<serde_json::Error>>::from, (json,), a),
        call_ensures(<Error as From<core::str::Utf8Error>>::from, (utf8,), b),
    ensures
        a == Error::SerdeError(json),
        b == Error::InvalidUTF8Str(utf8),
{
}

/// An id is the number it was made of.
pub proof fn law_ids_are_numbers(n: u64, a: RequestId, b: RequestId, m: u64, k: u64)
    requires
        call_ensures(RequestId::new, (n,), a),
        call_ensures(<RequestId as From<u64>>::from, (n,), b),
        call_ensures(RequestId::get, (&a,), m),
        call_ensures(<u64 as From<RequestId>>::from, (a,), k),
    ensures
        a.0 == n,
        b.0 == n,
        m == n,
        k == n,
{
}

/// A fresh manager, and one that was reset, begin at zero; the id that is handed
/// out is the one that was announced; and the one after it is announced next,
/// zero following the last number there is.
pub proof fn law_ids_are_announced_and_follow(
    fresh: RequestIdManager,
    default: RequestIdManager,
    zero: RequestId,
    other: RequestId,
    m: &mut RequestIdManager,
    announced: RequestId,
    id: RequestId,
    next: RequestId,
)
    requires
        call_ensures(RequestIdManager::new, (), fresh),
        call_ensures(<RequestIdManager as Default>::default, (), default),
        call_ensures(RequestIdManager::current_id, (&fresh,), zero),
        call_ensures(RequestIdManager::current_id, (&default,), other),
        call_ensures(RequestIdManager::current_id, (&*old(m),), announced),
        call_ensures(RequestIdManager::reserve_id, (m,), id),
        call_ensures(RequestIdManager::current_id, (&*final(m),), next),
    ensures
        zero.0 == 0,
        other.0 == 0,
        id == announced,
        id.0 < u64::MAX ==> next.0 == id.0 + 1,
        id.0 == u64::MAX ==> next.0 == 0,
{
}

/// A range of ids begins with the id that was announced, has as many ids as were
/// asked for, and the id behind it is announced next. Of no ids there is no range,
/// and asking for none changes nothing.
pub proof fn law_ranges_are_announced_and_follow(
    m: &mut RequestIdManager,
    count: u64,
    announced: RequestId,
    range: Option<RangeInclusive<RequestId>>,
    next: RequestId,
)
    requires
        call_ensures(RequestIdManager::current_id, (&*old(m),), announced),
        call_ensures(RequestIdManager::reserve_range, (m, count), range),
        call_ensures(RequestIdManager::current_id, (&*final(m),), next),
        announced.0 + count <= u64::MAX,
    ensures
        next.0 == announced.0 + count,
        range is None <==> count == 0,
        range matches Some(r) ==> {
            &&& r@.start == announced
            &&& r@.end.0 - r@.start.0 + 1 == count
            &&& !r@.exhausted
        },
{
}

/// After a reset, ids begin at zero again.
pub proof fn law_reset_begins_again(m: &mut RequestIdManager, unit: (), next: RequestId)
    requires
        call_ensures(RequestIdManager::reset, (m,), unit),
        call_ensures(RequestIdManager::current_id, (&*final(m),), next),
    ensures
        next.0 == 0,
{
}

/// The version of the protocol is 2.0: it is what is written, and nothing else is
/// read as it.
pub proof fn law_the_version_is_fixed(text: &str, version: Option<JsonRpcVersion>, out: &str)
    requires
        call_ensures(JsonRpcVersion::parse, (text,), version),
        call_ensures(JsonRpcVersion::as_str, (&JsonRpcVersion,), out),
    ensures
        JSONRPC_VERSION@ == "2.0"@,
        version is Some <==> text@ == "2.0"@,
        out@ == "2.0"@,
{
}

/// A method name is the text it was made of, however it was made and wherever it
/// is copied to.
pub proof fn law_method_names_are_texts(
    s: &'static str,
    owned: String,
    cow: Cow<'static, str>,
    a: MethodId<'static>,
    a_text: &'static str,
    a_owned: MethodIdBuf,
    b: MethodIdBuf,
    c: MethodIdBuf,
    d: MethodIdBuf,
    d_text: &str,
    d_ref: MethodId<'_>,
    d_borrow: MethodId<'_>,
    d_copy: MethodIdBuf,
)
    requires
        call_ensures(MethodId::new, (s,), a),
        call_ensures(MethodId::as_str, (&a,), a_text),
        call_ensures(MethodId::to_owned, (&a,), a_owned),
        call_ensures(<MethodIdBuf as From<&'static str>>::from, (s,), b),
        call_ensures(<MethodIdBuf as From<String>>::from, (owned,), c),
        call_ensures(<MethodIdBuf as From<Cow<'static, str>>>::from, (cow,), d),
        call_ensures(MethodIdBuf::as_str, (&d,), d_text),
        call_ensures(MethodIdBuf::as_ref, (&d,), d_ref),
        call_ensures(MethodIdBuf::borrow, (&d,), d_borrow),
        call_ensures(<MethodIdBuf as Clone>::clone, (&d,), d_copy),
    ensures
        a@ == s@,
        a_text@ == s@,
        a_owned@ == s@,
        b@ == s@,
        c@ == owned@,
        d@ == cow@,
        d_text@ == cow@,
        d_ref@ == cow@,
        d_borrow@ == cow@,
        d_copy@ == cow@,
{
}

/// The name of a message's method is the same, borrowed or owned.
pub proof fn law_method_of_a_message(
    name: MethodName<'_>,
    id: MethodId<'_>,
    buf: MethodIdBuf,
    copy: MethodName<'_>,
)
    requires
        call_ensures(MethodName::as_ref, (&name,), id),
        call_ensures(MethodName::into_owned, (name,), buf),
        call_ensures(<MethodName<'_> as Clone>::clone, (&name,), copy),
    ensures
        name@ == match name {
            MethodName::Borrowed(i) => i@,
            MethodName::Owned(b) => b@,
        },
        id@ == name@,
        buf@ == name@,
        copy@ == name@,
{
}

/// A JSON text that a message carries is the same text however it is held, copied
/// or taken out; only a piece of a message says where it stands.
pub proof fn law_raw_texts_stay_the_same(
    raw: RawValue<'_>,
    text: &str,
    owned: RawValue<'static>,
    string: String,
    copy: RawValue<'_>,
)
    requires
        call_ensures(RawValue::get, (&raw,), text),
        call_ensures(RawValue::into_owned, (raw,), owned),
        call_ensures(RawValue::into_string, (raw,), string),
        call_ensures(<RawValue<'_> as Clone>::clone, (&raw,), copy),
    ensures
        text@ == match raw {
            RawValue::Borrowed(slice) => slice.text@,
            RawValue::Buffered(t) => t@,
            RawValue::Owned(t) => t@,
        },
        raw@.text == text@,
        raw@.offset == match raw {
            RawValue::Borrowed(slice) => Some(slice.offset as int),
            _ => None,
        },
        owned matches RawValue::Owned(t) && t@ == text@,
        string@ == text@,
        copy@.text == text@,
        copy@.offset == raw@.offset,
{
}

/// A piece of a message takes up as many bytes as its text has.
pub proof fn law_pieces_have_their_length(slice: RawSlice<'_>, range: Range<usize>)
    requires
        call_ensures(RawSlice::range, (&slice,), range),
    ensures
        range.start == slice.offset,
        range.end - range.start == vstd::utf8::encode_utf8(slice.text@).len(),
{
}

/// What the messages say is what their members hold.
pub proof fn law_messages_say_what_they_hold(
    request: JsonRpcRequest<'_>,
    notification: JsonRpcNotification<'_>,
    response: JsonRpcResponse<'_>,
    error: JsonRpcErrorResponse<'_>,
    pushed: Notification,
)
    ensures
        request@.id == request.id,
        request@.method == request.method@,
        request@.params is Some <==> request.params is Some,
        request.params matches Some(p) ==> request@.params == Some(p@),
        notification@.method == notification.method@,
        notification@.params is Some <==> notification.params is Some,
        notification.params matches Some(p) ==> notification@.params == Some(p@),
        response@.id == response.id,
        response@.result == response.result@,
        error@.id == error.id,
        error@.error.code == error.error.code,
        error@.error.message == error.error.message@,
        error@.error.data is Some <==> error.error.data is Some,
        error.error.data matches Some(d) ==> error@.error.data == Some(d@),
        pushed@.method == pushed.method@,
        pushed@.params is Some <==> pushed.params is Some,
        pushed.params matches Some(p) ==> pushed@.params == Some(p@),
        JsonRpcOutgoing::Request(request)@ == OutgoingView::Request(request@),
        JsonRpcOutgoing::Notification(notification)@ == OutgoingView::Notification(
            notification@,
        ),
        JsonRpcOutgoingRef::Request(&request)@ == OutgoingView::Request(request@),
        JsonRpcOutgoingRef::Notification(&notification)@ == OutgoingView::Notification(
            notification@,
        ),
{
}

/// What incoming messages say is what they hold.
pub proof fn law_incoming_messages_say_what_they_hold(
    response: JsonRpcResponse<'_>,
    error: JsonRpcErrorResponse<'_>,
    notification: JsonRpcNotification<'_>,
    items: Vec<JsonRpcBatchResponse<'_>>,
    slice: RawSlice<'_>,
    object: ProbeError<'_>,
)
    ensures
        JsonRpcIncoming::Response(response)@ == IncomingView::Response(response@),
        JsonRpcIncoming::ErrorResponse(error)@ == IncomingView::ErrorResponse(error@),
        JsonRpcIncoming::Notification(notification)@ == IncomingView::Notification(notification@),
        JsonRpcIncoming::BatchResponse(items)@ matches IncomingView::BatchResponse(list) && {
            &&& list.len() == items@.len()
            &&& forall|i: int| 0 <= i < list.len() ==> #[trigger] list[i] == items@[i]@
        },
        JsonRpcBatchResponse::Response(response)@ == BatchItemView::Response(response@),
        JsonRpcBatchResponse::ErrorResponse(error)@ == BatchItemView::ErrorResponse(error@),
        slice@.text == slice.text@,
        slice@.offset == Some(slice.offset as int),
        object@.code == object.code,
        object@.message == object.message@,
        object@.data is Some <==> object.data is Some,
        object.data matches Some(d) ==> object@.data == Some(d@),
{
}

/// Copies of messages say the same.
pub proof fn law_copies_say_the_same(
    request: JsonRpcRequest<'_>,
    notification: JsonRpcNotification<'_>,
    response: JsonRpcResponse<'_>,
    error: JsonRpcErrorResponse<'_>,
    object: JsonRpcError<'_>,
    pushed: Notification,
    outgoing: JsonRpcOutgoing<'_>,
    a: JsonRpcRequest<'_>,
    b: JsonRpcNotification<'_>,
    c: JsonRpcResponse<'_>,
    d: JsonRpcErrorResponse<'_>,
    e: JsonRpcError<'_>,
    f: Notification,
    g: JsonRpcOutgoing<'_>,
)
    requires
        call_ensures(<JsonRpcRequest<'_> as Clone>::clone, (&request,), a),
        call_ensures(<JsonRpcNotification<'_> as Clone>::clone, (&notification,), b),
        call_ensures(<JsonRpcResponse<'_> as Clone>::clone, (&response,), c),
        call_ensures(<JsonRpcErrorResponse<'_> as Clone>::clone, (&error,), d),
        call_ensures(<JsonRpcError<'_> as Clone>::clone, (&object,), e),
        call_ensures(<Notification as Clone>::clone, (&pushed,), f),
        call_ensures(<JsonRpcOutgoing<'_> as Clone>::clone, (&outgoing,), g),
    ensures
        a@ == request@,
        b@ == notification@,
        c@ == response@,
        d@ == error@,
        e@ == object@,
        f@ == pushed@,
        g@ == outgoing@,
{
}

/// A notification that is handed to subscribers has the method and the params of
/// the one that came in, on their own.
pub proof fn law_pushed_notifications_are_whole(
    notification: JsonRpcNotification<'_>,
    pushed: Notification,
)
    requires
        call_ensures(
            <Notification as From<JsonRpcNotification<'_>>>::from,
            (notification,),
            pushed,
        ),
    ensures
        pushed.method@ == notification.method@,
        pushed.params is Some <==> notification.params is Some,
        pushed.params matches Some(p) ==> p@.text == notification.params->Some_0@.text && p@.offset
            is None,
{
}

/// Two texts are found equal exactly if they are, by their bytes or by their
/// characters.
pub proof fn law_equality_of_texts(a: &str, b: &str, x: &[u8], y: &[u8], same: bool, equal: bool)
    requires
        call_ensures(str_eq, (a, b), same),
        call_ensures(bytes_eq, (x, y), equal),
    ensures
        same <==> a@ == b@,
        equal <==> x@ == y@,
{
}

/// Copying a text keeps it, and taking it out keeps it too.
pub proof fn law_texts_are_copied_whole(text: Cow<'_, str>, copy: Cow<'_, str>, owned: String)
    requires
        call_ensures(copy_text, (&text,), copy),
        call_ensures(own_text, (text,), owned),
    ensures
        copy@ == text@,
        copy is Borrowed == text is Borrowed,
        owned@ == text@,
{
}

/// Whitespace is what Unicode calls so.
pub proof fn law_whitespace_is_that_of_unicode(c: char, yes: bool)
    requires
        call_ensures(is_white_space, (c,), yes),
    ensures
        yes <==> {
            let n = c as u32;
            ||| 0x9 <= n <= 0xd
            ||| n == 0x20
            ||| n == 0x85
            ||| n == 0xa0
            ||| n == 0x1680
            ||| 0x2000 <= n <= 0x200a
            ||| n == 0x2028
            ||| n == 0x2029
            ||| n == 0x202f
            ||| n == 0x205f
            ||| n == 0x3000
        },
        json_space(c) ==> yes,
        json_space(c) <==> c as u32 == 0x20 || c as u32 == 0xa || c as u32 == 0x9 || c as u32
            == 0xd,
{
}

proof fn lemma_first_visible_at(text: Seq<char>, k: int)
    requires
        0 <= k < text.len(),
        forall|i: int| 0 <= i < k ==> crate::text::white_space(#[trigger] text[i]),
        !crate::text::white_space(text[k]),
    ensures
        first_visible(text) == Some(text[k]),
    decreases k,
{
    if k > 0 {
        assert(crate::text::white_space(text[0]));
        let rest = text.drop_first();
        assert forall|i: int| 0 <= i < k - 1 implies crate::text::white_space(
            #[trigger] rest[i],
        ) by {
            assert(rest[i] == text[i + 1]);
        }
        lemma_first_visible_at(rest, k - 1);
    }
}

proof fn lemma_first_visible_none(text: Seq<char>)
    requires
        forall|i: int| 0 <= i < text.len() ==> crate::text::white_space(#[trigger] text[i]),
    ensures
        first_visible(text) is None,
    decreases text.len(),
{
    if text.len() > 0 {
        assert(crate::text::white_space(text[0]));
        let rest = text.drop_first();
        assert forall|i: int| 0 <= i < rest.len() implies crate::text::white_space(
            #[trigger] rest[i],
        ) by {
            assert(rest[i] == text[i + 1]);
        }
        lemma_first_visible_none(rest);
    }
}

/// The first visible character of a text is the one behind nothing but whitespace;
/// a text of nothing but whitespace has none.
pub proof fn law_first_visible_character(text: &str, first: Option<char>, k: int)
    requires
        call_ensures(first_visible_char, (text,), first),
        0 <= k <= text@.len(),
        forall|i: int| 0 <= i < k ==> crate::text::white_space(#[trigger] text@[i]),
        k < text@.len() ==> !crate::text::white_space(text@[k]),
    ensures
        first == if k < text@.len() {
            Some(text@[k])
        } else {
            None
        },
        first_visible(text@) == first,
{
    if k < text@.len() {
        lemma_first_visible_at(text@, k);
    } else {
        lemma_first_visible_none(text@);
    }
}

/// `()` stands for no params; an option stands for itself.
pub proof fn law_optional_params<T: Send + Sync>(
    given: Option<T>,
    nothing: Option<()>,
    same: Option<T>,
)
    requires
        call_ensures(<() as IntoOptionParams>::into_option_params, ((),), nothing),
        call_ensures(<Option<T> as IntoOptionParams>::into_option_params, (given,), same),
    ensures
        nothing is None,
        same == given,
{
}

/// Params given as a collection keep their text.
pub proof fn law_collections_keep_their_text(params: Params, text: String, copy: Params)
    requires
        call_ensures(Params::into_text, (params,), text),
        call_ensures(<Params as Clone>::clone, (&params,), copy),
    ensures
        text@ == match params {
            Params::Object(t) => t@,
            Params::Array(t) => t@,
        },
        match (params, copy) {
            (Params::Object(a), Params::Object(b)) => a@ == b@,
            (Params::Array(a), Params::Array(b)) => a@ == b@,
            _ => false,
        },
{
}

/// On the command line, JSON that opens an object is taken as an object, JSON that
/// opens an array as an array, each in the form in which `serde_json` writes it;
/// other JSON is no collection, and what is not JSON is an error of JSON.
pub proof fn law_the_command_line_takes_collections(
    s: &str,
    params: Result<Params, CollectionError>,
    k: int,
)
    requires
        call_ensures(parse_json_collection, (s,), params),
        json_rewritten(s@) matches Some(text) ==> {
            &&& 0 <= k <= text.len()
            &&& forall|i: int| 0 <= i < k ==> crate::text::white_space(#[trigger] text[i])
            &&& k < text.len() ==> !crate::text::white_space(text[k])
        },
    ensures
        match json_rewritten(s@) {
            None => params matches Err(CollectionError::Json(_)),
            Some(text) => if k < text.len() && text[k] == '{' {
                params matches Ok(Params::Object(t)) && t@ == text
            } else if k < text.len() && text[k] == '[' {
                params matches Ok(Params::Array(t)) && t@ == text
            } else {
                params matches Err(CollectionError::NotACollection(why)) && why@
                    == "JSON must be a top-level Object ({}) or Array ([])"@
            },
        },
{
    if let Some(text) = json_rewritten(s@) {
        if k < text.len() {
            lemma_first_visible_at(text, k);
        } else {
            lemma_first_visible_none(text);
        }
    }
}

/// A JSON text is taken as the collection that its bracket opens, unchanged.
pub proof fn law_brackets_tell_collections(
    text: String,
    params: Result<Params, CollectionError>,
    k: int,
)
    requires
        call_ensures(as_collection, (text,), params),
        0 <= k <= text@.len(),
        forall|i: int| 0 <= i < k ==> crate::text::white_space(#[trigger] text@[i]),
        k < text@.len() ==> !crate::text::white_space(text@[k]),
    ensures
        if k < text@.len() && text@[k] == '{' {
            params matches Ok(Params::Object(t)) && t@ == text@
        } else if k < text@.len() && text@[k] == '[' {
            params matches Ok(Params::Array(t)) && t@ == text@
        } else {
            params matches Err(CollectionError::NotACollection(why)) && why@
                == "JSON must be a top-level Object ({}) or Array ([])"@
        },
{
    if k < text@.len() {
        lemma_first_visible_at(text@, k);
    } else {
        lemma_first_visible_none(text@);
    }
}

/// The more often verbosity is asked for, the more is logged, up to everything.
pub proof fn law_levels_of_verbosity(verbose: u8, level: &'static str)
    requires
        call_ensures(default_level, (verbose,), level),
    ensures
        level@ == match verbose {
            0 => "warn"@,
            1 => "info"@,
            2 => "debug"@,
            _ => "trace"@,
        },
{
}

/// A client is configured with what was set last, on the connection it was given;
/// what was not set stays unset. It begins with no id taken and nothing in flight.
pub proof fn law_clients_are_what_they_are_configured_to_be<C>(
    client: C,
    interval: Duration,
    timeout: Duration,
    plain: WsClientBuilder<C>,
    pinging: WsClientBuilder<C>,
    both: WsClientBuilder<C>,
    limited: WsClientBuilder<C>,
    a: WsClientInner<C>,
    b: WsClientInner<C>,
    c: WsClientInner<C>,
    d: WsClientInner<C>,
    zero: RequestId,
)
    requires
        call_ensures(WsClientBuilder::<C>::from_websocket_client, (client,), plain),
        call_ensures(WsClientBuilder::<C>::ping_interval, (plain, interval), pinging),
        call_ensures(WsClientBuilder::<C>::request_timeout, (pinging, timeout), both),
        call_ensures(WsClientBuilder::<C>::request_timeout, (plain, timeout), limited),
        call_ensures(WsClientBuilder::<C>::build, (plain,), a),
        call_ensures(WsClientBuilder::<C>::build, (pinging,), b),
        call_ensures(WsClientBuilder::<C>::build, (both,), c),
        call_ensures(WsClientBuilder::<C>::build, (limited,), d),
        call_ensures(RequestIdManager::current_id, (&a.request_id_manager,), zero),
    ensures
        a.client == client && b.client == client && c.client == client && d.client == client,
        a.ping_interval is None && a.request_timeout is None,
        b.ping_interval == Some(interval) && b.request_timeout is None,
        c.ping_interval == Some(interval) && c.request_timeout == Some(timeout),
        d.ping_interval is None && d.request_timeout == Some(timeout),
        zero.0 == 0,
        a.pending_requests@.dom() == Set::<(u64, u64)>::empty(),
        a.pending_batch_requests@.dom() == Set::<(u64, u64)>::empty(),
{
}

/// Whatever was set before, what is set last counts, and setting one thing changes no
/// other.
pub proof fn law_what_is_set_last_counts<C>(
    before: WsClientBuilder<C>,
    interval: Duration,
    timeout: Duration,
    pinging: WsClientBuilder<C>,
    limited: WsClientBuilder<C>,
    a: WsClientInner<C>,
    b: WsClientInner<C>,
    c: WsClientInner<C>,
    zero: RequestId,
)
    requires
        call_ensures(WsClientBuilder::<C>::ping_interval, (before, interval), pinging),
        call_ensures(WsClientBuilder::<C>::request_timeout, (before, timeout), limited),
        call_ensures(WsClientBuilder::<C>::build, (before,), a),
        call_ensures(WsClientBuilder::<C>::build, (pinging,), b),
        call_ensures(WsClientBuilder::<C>::build, (limited,), c),
        call_ensures(RequestIdManager::current_id, (&a.request_id_manager,), zero),
    ensures
        b.client == a.client && c.client == a.client,
        b.ping_interval == Some(interval),
        b.request_timeout == a.request_timeout,
        c.request_timeout == Some(timeout),
        c.ping_interval == a.ping_interval,
        zero.0 == 0,
        a.pending_requests@.dom() == Set::<(u64, u64)>::empty(),
        a.pending_batch_requests@.dom() == Set::<(u64, u64)>::empty(),
{
}

/// Slots are as many as asked for, and none is filled.
pub proof fn law_empty_slots<A>(n: usize, slots: Vec<Option<A>>)
    requires
        call_ensures(empty_slots::<A>, (n,), slots),
    ensures
        slots@.len() == n,
        forall|i: int| 0 <= i < slots@.len() ==> #[trigger] slots@[i] is None,
{
}

} // verus!
