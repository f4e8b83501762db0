//! What is sent: params, requests, notifications and batches.

use crate::error::Error;
use crate::json::{
    decimal, escaped, escaped_char, json_space, json_trim, json_trim_end, json_valid, quoted,
    RawValue, RawView,
};
use crate::method_id::{MethodId, MethodIdBuf};
use crate::params::{
    buffered, deserialize_params_with, is_object_or_array, params_to_raw_value, serialize_params,
    ParamsBuf, ParamsFault, Serialized,
};
use crate::protocol::{
    batch_json, batch_to_json, head_json, list_json, notification_json, outgoing_json,
    outgoing_views, request_json, validated_params, JsonRpcNotification, JsonRpcOutgoing,
    JsonRpcOutgoingRef, JsonRpcRequest, NotificationView, OutgoingView, RequestView,
};
use crate::request_id::RequestId;
use crate::text::{first_visible, lemma_decoded_text};
use vstd::prelude::*;

verus! {

/// Whether `t` is `text` less the JSON whitespace around it: the characters from
/// `i` up to `j`.
pub open spec fn trimmed_at(text: Seq<char>, t: Seq<char>, i: int, j: int) -> bool {
    &&& 0 <= i <= j <= text.len()
    &&& t == text.subrange(i, j)
    &&& forall|k: int| 0 <= k < i ==> json_space(#[trigger] text[k])
    &&& forall|k: int| j <= k < text.len() ==> json_space(#[trigger] text[k])
    &&& t.len() > 0 ==> !json_space(t[0]) && !json_space(t.last())
}

/// Whether `t` is `text` less the JSON whitespace around it.
pub open spec fn trimmed(text: Seq<char>, t: Seq<char>) -> bool {
    exists|i: int, j: int| #[trigger] trimmed_at(text, t, i, j)
}

proof fn lemma_trim_end(text: Seq<char>)
    ensures
        exists|j: int|
            0 <= j <= text.len() && json_trim_end(text) == text.subrange(0, j) && (forall|k: int|
                j <= k < text.len() ==> json_space(#[trigger] text[k])) && (j > 0 ==> !json_space(
                text[j - 1],
            )),
    decreases text.len(),
{
    if text.len() > 0 && json_space(text.last()) {
        let head = text.drop_last();
        lemma_trim_end(head);
        let j = choose|j: int|
            0 <= j <= head.len() && json_trim_end(head) == head.subrange(0, j) && (forall|k: int|
                j <= k < head.len() ==> json_space(#[trigger] head[k])) && (j > 0 ==> !json_space(
                head[j - 1],
            ));
        assert(head.subrange(0, j) =~= text.subrange(0, j));
        assert forall|k: int| j <= k < text.len() implies json_space(#[trigger] text[k]) by {
            if k < head.len() {
                assert(head[k] == text[k]);
            }
        }
        assert(j > 0 ==> text[j - 1] == head[j - 1]);
    } else {
        assert(text.subrange(0, text.len() as int) =~= text);
    }
}

proof fn lemma_trim(text: Seq<char>)
    ensures
        trimmed(text, json_trim(text)),
    decreases text.len(),
{
    if text.len() > 0 && json_space(text[0]) {
        let rest = text.drop_first();
        lemma_trim(rest);
        let t = json_trim(text);
        let (i, j) = choose|i: int, j: int| #[trigger] trimmed_at(rest, t, i, j);
        assert(rest.subrange(i, j) =~= text.subrange(i + 1, j + 1));
        assert forall|k: int| 0 <= k < i + 1 implies json_space(#[trigger] text[k]) by {
            if k > 0 {
                assert(rest[k - 1] == text[k]);
            }
        }
        assert forall|k: int| j + 1 <= k < text.len() implies json_space(#[trigger] text[k]) by {
            assert(rest[k - 1] == text[k]);
        }
        assert(trimmed_at(text, t, i + 1, j + 1));
    } else {
        lemma_trim_end(text);
        let t = json_trim(text);
        let j = choose|j: int|
            0 <= j <= text.len() && json_trim_end(text) == text.subrange(0, j) && (forall|k: int|
                j <= k < text.len() ==> json_space(#[trigger] text[k])) && (j > 0 ==> !json_space(
                text[j - 1],
            ));
        if j > 0 {
            assert(t[0] == text[0] && t.last() == text[j - 1]);
        }
        assert(trimmed_at(text, t, 0, j));
    }
}

/// Whether a JSON text is fit to be sent as params: it is valid, and the first
/// visible character opens an object or an array.
pub open spec fn fit(text: Seq<char>) -> bool {
    opens(text) && json_valid(text)
}

/// Whether the first visible character of a text opens an object or an array.
pub open spec fn opens(text: Seq<char>) -> bool {
    first_visible(text) == Some('{') || first_visible(text) == Some('[')
}

/// Params are accepted exactly if they were serialized to an object or an array,
/// and then they are its text, without whitespace around it.
pub proof fn law_params_are_structured(json: Serialized, params: Result<RawValue<'static>, Error>)
    requires
        call_ensures(serialize_params, (json,), params),
    ensures
        match json {
            Err(failed) => params matches Err(Error::SerdeError(e)) && e == failed.error,
            Ok(text) => {
                &&& params is Ok <==> fit(text@)
                &&& params matches Ok(raw) ==> trimmed(text@, raw@.text) && raw@.offset is None
                &&& (params matches Err(Error::InvalidParams)) <==> !opens(text@)
                &&& (params matches Err(Error::SerdeError(_))) <==> opens(text@) && !json_valid(
                    text@,
                )
            },
        },
{
    if let Ok(text) = json {
        lemma_trim(text@);
    }
}

/// The same of params in a buffer: what is judged is all that the buffer holds
/// then, which is what it held before and what was written of the params.
pub proof fn law_buffered_params_are_structured<'a>(
    json: Serialized,
    buf: &'a mut ParamsBuf,
    params: Result<RawValue<'a>, Error>,
    all: Seq<char>,
)
    requires
        call_ensures(params_to_raw_value, (json, buf), params),
        json matches Ok(text) ==> buffered(*old(buf)) + vstd::utf8::encode_utf8(text@)
            == vstd::utf8::encode_utf8(all),
    ensures
        match json {
            Err(failed) => {
                &&& params matches Err(Error::SerdeError(e)) && e == failed.error
                &&& buffered(*final(buf)) == buffered(*old(buf)) + failed.written@
            },
            Ok(text) => {
                &&& buffered(*final(buf)) == vstd::utf8::encode_utf8(all)
                &&& params is Ok <==> fit(all)
                &&& params matches Ok(raw) ==> raw is Buffered && trimmed(all, raw@.text)
                &&& (params matches Err(Error::InvalidParams)) <==> !opens(all)
            },
        },
{
    if let Ok(text) = json {
        lemma_trim(all);
        lemma_decoded_text(vstd::utf8::encode_utf8(all), all);
    }
}

/// Params that were read pass unchanged if they are an object or an array or
/// absent, and are refused otherwise.
pub proof fn law_read_params_are_checked<'a>(
    raw: Option<RawValue<'a>>,
    params: Result<Option<RawValue<'a>>, serde_json::Error>,
    data: &str,
    yes: bool,
)
    requires
        call_ensures(deserialize_params_with, (raw,), params),
        call_ensures(is_object_or_array, (data,), yes),
    ensures
        params is Ok <==> (raw matches Some(r) ==> opens(r@.text)),
        params matches Ok(p) ==> p == raw,
        yes <==> opens(data@),
{
}

/// Whether optional params come out as `got`: none as none, and others as their
/// text without whitespace around it.
pub open spec fn params_kept(params: Option<Serialized>, got: Option<RawView>) -> bool {
    match params {
        None => got is None,
        Some(Ok(text)) => got matches Some(raw) && trimmed(text@, raw.text),
        Some(Err(_)) => false,
    }
}

/// Whether optional params are fit to be sent.
pub open spec fn params_fit(params: Option<Serialized>) -> bool {
    params matches Some(json) ==> (json matches Ok(text) && fit(text@))
}

/// Whether `e` is the error for optional params that are not fit to be sent.
pub open spec fn params_refused(params: Option<Serialized>, e: Error) -> bool {
    match params {
        Some(Ok(text)) => if opens(text@) {
            e is SerdeError
        } else {
            e is InvalidParams
        },
        _ => e is SerdeError,
    }
}

/// What becomes of optional params.
pub proof fn lemma_params(params: Option<Serialized>)
    ensures
        match crate::params::optional_params(
            params,
            |j: Serialized| crate::params::params_value(j),
        ) {
            Ok(p) => params_fit(params) && params_kept(params, p),
            Err(fault) => !params_fit(params) && forall|e: Error|
                #![trigger params_refused(params, e)]
                fault.is_told_by(e) == params_refused(params, e),
        },
{
    if let Some(Ok(text)) = params {
        lemma_trim(text@);
    }
}

/// A request has the id and the method that it is built with, and its params are
/// those that it is built with; it is refused exactly if they are not fit to be
/// sent.
pub proof fn law_requests_are_built_as_asked(
    id: RequestId,
    method: MethodIdBuf,
    params: Option<Serialized>,
    request: Result<JsonRpcRequest<'_>, Error>,
)
    requires
        call_ensures(JsonRpcRequest::try_new_owned, (id, method, params), request),
    ensures
        request is Ok <==> params_fit(params),
        request matches Ok(r) ==> r.id == id && r.method@ == method@ && params_kept(
            params,
            r@.params,
        ),
        request matches Err(e) ==> params_refused(params, e),
{
    lemma_params(params);
    if let Err(e) = request {
        assert(params_refused(params, e));
    }
}

/// The same of a notification.
pub proof fn law_notifications_are_built_as_asked(
    method: MethodIdBuf,
    params: Option<Serialized>,
    notification: Result<JsonRpcNotification<'_>, Error>,
)
    requires
        call_ensures(JsonRpcNotification::try_new_owned, (method, params), notification),
    ensures
        notification is Ok <==> params_fit(params),
        notification matches Ok(n) ==> n.method@ == method@ && params_kept(params, n@.params),
        notification matches Err(e) ==> params_refused(params, e),
{
    lemma_params(params);
    if let Err(e) = notification {
        assert(params_refused(params, e));
    }
}

/// In a fresh buffer, requests and notifications are built as they are without one.
pub proof fn law_fresh_buffers_build_the_same<'a>(
    id: RequestId,
    method: MethodId<'a>,
    params: Option<Serialized>,
    a: &'a mut ParamsBuf,
    b: &'a mut ParamsBuf,
    request: Result<JsonRpcRequest<'a>, Error>,
    notification: Result<JsonRpcNotification<'a>, Error>,
)
    requires
        buffered(*old(a)).len() == 0,
        buffered(*old(b)).len() == 0,
        call_ensures(JsonRpcRequest::try_new, (id, method, params, a), request),
        call_ensures(JsonRpcNotification::try_new, (method, params, b), notification),
    ensures
        request is Ok <==> params_fit(params),
        notification is Ok <==> params_fit(params),
        request matches Ok(r) ==> r.id == id && r.method@ == method@ && params_kept(
            params,
            r@.params,
        ) && r.method is Borrowed && (r.params matches Some(raw) ==> raw is Buffered),
        notification matches Ok(n) ==> n.method@ == method@ && params_kept(params, n@.params)
            && n.method is Borrowed && (n.params matches Some(raw) ==> raw is Buffered),
        request matches Err(e) ==> params_refused(params, e),
        notification matches Err(e) ==> params_refused(params, e),
        params is None ==> buffered(*final(a)).len() == 0 && buffered(*final(b)).len() == 0,
        params matches Some(Ok(text)) ==> buffered(*final(a)) == vstd::utf8::encode_utf8(text@)
            && buffered(*final(b)) == vstd::utf8::encode_utf8(text@),
{
    lemma_params(params);
    assert(buffered(*old(a)) =~= Seq::<u8>::empty());
    assert(buffered(*old(b)) =~= Seq::<u8>::empty());
    crate::params::law_fresh_buffer_changes_nothing(params);
    if let Err(e) = request {
        assert(params_refused(params, e));
    }
    if let Err(e) = notification {
        assert(params_refused(params, e));
    }
    if let Some(Ok(text)) = params {
        let bytes = vstd::utf8::encode_utf8(text@);
        assert(Seq::<u8>::empty() + bytes =~= bytes);
    }
}

/// What a buffer holds is judged as text: where it is none, that is the error.
pub proof fn law_buffers_hold_text<'a>(
    text: String,
    buf: &'a mut ParamsBuf,
    params: Result<RawValue<'a>, Error>,
    fresh: ParamsBuf,
    default: ParamsBuf,
)
    requires
        call_ensures(params_to_raw_value, (Ok(text), buf), params),
        call_ensures(ParamsBuf::new, (), fresh),
        call_ensures(<ParamsBuf as Default>::default, (), default),
    ensures
        (params matches Err(Error::InvalidUTF8Str(_))) <==> !vstd::utf8::valid_utf8(
            buffered(*old(buf)) + vstd::utf8::encode_utf8(text@),
        ),
        buffered(fresh).len() == 0,
        buffered(default).len() == 0,
{
}

proof fn lemma_head()
    ensures
        head_json() == "{\"jsonrpc\":\"2.0\""@,
{
    reveal_strlit("2.0");
    reveal_strlit("{\"jsonrpc\":");
    reveal_strlit("{\"jsonrpc\":\"2.0\"");
    let v = "2.0"@;
    reveal_with_fuel(escaped, 4);
    assert(v.drop_last().drop_last().drop_last() =~= Seq::empty());
    assert(v.drop_last().drop_last().last() == '2');
    assert(v.drop_last().last() == '.');
    assert(v.last() == '0');
    assert(escaped(v) =~= seq!['2', '.', '0']);
    assert(quoted(v) =~= seq!['"', '2', '.', '0', '"']);
    assert(head_json() =~= "{\"jsonrpc\":\"2.0\""@);
}

/// The end of a message on the wire: its method, its params if it has any, and the
/// closing brace.
pub open spec fn wire_tail(method: Seq<char>, params: Option<RawView>) -> Seq<char> {
    match params {
        None => ",\"method\":"@ + quoted(method) + "}"@,
        Some(raw) => ",\"method\":"@ + quoted(method) + ",\"params\":"@ + raw.text + "}"@,
    }
}

/// A request on the wire.
pub open spec fn wire_request(id: u64, method: Seq<char>, params: Option<RawView>) -> Seq<char> {
    "{\"jsonrpc\":\"2.0\""@ + ",\"id\":"@ + decimal(id as nat) + wire_tail(method, params)
}

/// A notification on the wire: a request without its id.
pub open spec fn wire_notification(method: Seq<char>, params: Option<RawView>) -> Seq<char> {
    "{\"jsonrpc\":\"2.0\""@ + wire_tail(method, params)
}

/// A message on the wire.
pub open spec fn wire_message(message: OutgoingView) -> Seq<char> {
    match message {
        OutgoingView::Request(r) => wire_request(r.id.0, r.method, r.params),
        OutgoingView::Notification(n) => wire_notification(n.method, n.params),
    }
}

proof fn lemma_tail(method: Seq<char>, params: Option<RawView>)
    ensures
        crate::protocol::tail_json(method, params) == wire_tail(method, params),
{
    if let Some(raw) = params {
        assert(crate::protocol::tail_json(method, params) =~= wire_tail(method, params));
    } else {
        assert(crate::protocol::tail_json(method, params) =~= wire_tail(method, params));
    }
}

proof fn lemma_message(message: OutgoingView)
    ensures
        outgoing_json(message) == wire_message(message),
{
    lemma_head();
    match message {
        OutgoingView::Request(r) => lemma_tail(r.method, r.params),
        OutgoingView::Notification(n) => lemma_tail(n.method, n.params),
    }
}

/// A request is written with its version, id, method and params, and a notification
/// likewise but without an id; params are left out where there are none.
pub proof fn law_messages_are_written_whole(
    request: JsonRpcRequest<'_>,
    notification: JsonRpcNotification<'_>,
    a: Result<String, serde_json::Error>,
    b: Result<String, serde_json::Error>,
    c: Result<String, serde_json::Error>,
    d: Result<Vec<u8>, serde_json::Error>,
)
    requires
        call_ensures(JsonRpcRequest::to_json, (&request,), a),
        call_ensures(JsonRpcNotification::to_json, (&notification,), b),
        call_ensures(<String as TryFrom<JsonRpcRequest<'_>>>::try_from, (request,), c),
        call_ensures(<Vec<u8> as TryFrom<JsonRpcRequest<'_>>>::try_from, (request,), d),
    ensures
        a matches Ok(text) && text@ == wire_request(
            request.id.0,
            request.method@,
            request@.params,
        ),
        b matches Ok(text) && text@ == wire_notification(notification.method@, notification@.params),
        c matches Ok(text) && text@ == a->Ok_0@,
        d matches Ok(bytes) && bytes@ == vstd::utf8::encode_utf8(a->Ok_0@),
{
    lemma_message(OutgoingView::Request(request@));
    lemma_message(OutgoingView::Notification(notification@));
}

/// What goes out is written as what it is.
pub proof fn law_outgoing_messages_are_written_as_they_are(
    message: JsonRpcOutgoing<'_>,
    borrowed: JsonRpcOutgoingRef<'_>,
    a: Result<String, serde_json::Error>,
    b: Result<String, serde_json::Error>,
)
    requires
        call_ensures(JsonRpcOutgoing::to_json, (&message,), a),
        call_ensures(JsonRpcOutgoingRef::to_json, (&borrowed,), b),
    ensures
        a matches Ok(text) && text@ == match message {
            JsonRpcOutgoing::Request(r) => wire_request(r.id.0, r.method@, r@.params),
            JsonRpcOutgoing::Notification(n) => wire_notification(n.method@, n@.params),
        },
        b matches Ok(text) && text@ == match borrowed {
            JsonRpcOutgoingRef::Request(r) => wire_request(r.id.0, r.method@, r@.params),
            JsonRpcOutgoingRef::Notification(n) => wire_notification(n.method@, n@.params),
        },
{
    lemma_message(message@);
    lemma_message(borrowed@);
}

/// A notification is written as a request is, less its id.
pub proof fn law_notifications_are_requests_without_id(
    id: u64,
    method: Seq<char>,
    params: Option<RawView>,
)
    ensures
        request_json((RequestView { id: RequestId(id), method, params })) == wire_request(
            id,
            method,
            params,
        ),
        notification_json((NotificationView { method, params })) == wire_notification(
            method,
            params,
        ),
{
    lemma_message(OutgoingView::Request(RequestView { id: RequestId(id), method, params }));
    lemma_message(OutgoingView::Notification(NotificationView { method, params }));
}

/// A batch is written as an array of its messages, in their order and with commas
/// between them: nothing for no messages, and one more for each that is added.
pub proof fn law_batches_are_written_in_order(messages: Seq<OutgoingView>, next: OutgoingView)
    ensures
        list_json(Seq::<OutgoingView>::empty()) == Seq::<char>::empty(),
        list_json(seq![next]) == wire_message(next),
        messages.len() > 0 ==> list_json(messages.push(next)) == list_json(messages) + ","@
            + wire_message(next),
        batch_json(messages) == "["@ + list_json(messages) + "]"@,
{
    lemma_message(next);
    assert(messages.push(next).drop_last() =~= messages);
    assert(messages.push(next).last() == next);
    assert(seq![next][0] == next);
}

/// The text of a batch is that of its items.
pub proof fn law_batches_are_written_whole(
    items: Vec<JsonRpcOutgoing<'_>>,
    text: Result<String, serde_json::Error>,
)
    requires
        call_ensures(batch_to_json, (&items,), text),
    ensures
        text matches Ok(t) && t@ == "["@ + list_json(
            Seq::new(items@.len(), |i: int| items@[i]@),
        ) + "]"@,
{
    assert(outgoing_views(items@) =~= Seq::new(items@.len(), |i: int| items@[i]@));
}

/// What decimal digits are worth.
pub open spec fn number_value(text: Seq<char>) -> int
    decreases text.len(),
{
    if text.len() == 0 {
        0
    } else {
        10 * number_value(text.drop_last()) + (text.last() as int - 48)
    }
}

/// A number is written in decimal digits that are worth the number, without a
/// leading zero.
pub proof fn law_numbers_are_written_in_decimal(n: nat)
    ensures
        decimal(n).len() > 0,
        forall|i: int| 0 <= i < decimal(n).len() ==> '0' <= #[trigger] decimal(n)[i] <= '9',
        n > 0 ==> decimal(n)[0] != '0',
        n == 0 ==> decimal(n).len() == 1,
        number_value(decimal(n)) == n,
    decreases n,
{
    reveal_with_fuel(number_value, 2);
    if n >= 10 {
        law_numbers_are_written_in_decimal(n / 10);
        let head = decimal(n / 10);
        assert(decimal(n).drop_last() =~= head);
        assert(decimal(n)[0] == head[0]);
        assert forall|i: int| 0 <= i < decimal(n).len() implies '0' <= #[trigger] decimal(n)[i]
            <= '9' by {
            if i < head.len() {
                assert(decimal(n)[i] == head[i]);
            }
        }
    } else {
        assert(decimal(n).drop_last() =~= Seq::empty());
    }
}

/// Whether a control character has a short escape sequence of its own.
pub open spec fn in_short(c: char) -> bool {
    c == '\u{8}' || c == '\t' || c == '\n' || c == '\u{c}' || c == '\r'
}

/// Inside a JSON string, the quote, the backslash and the characters below the
/// space are escaped, and every other character stands for itself.
pub proof fn law_strings_are_escaped(text: Seq<char>, c: char)
    ensures
        c != '"' && c != '\\' && c as u32 >= 0x20 ==> escaped_char(c) == seq![c],
        escaped_char('"') == seq!['\\', '"'],
        escaped_char('\\') == seq!['\\', '\\'],
        escaped_char('\n') == seq!['\\', 'n'],
        escaped_char('\r') == seq!['\\', 'r'],
        escaped_char('\t') == seq!['\\', 't'],
        escaped_char('\u{8}') == seq!['\\', 'b'],
        escaped_char('\u{c}') == seq!['\\', 'f'],
        (c as u32) < 0x20 && !in_short(c) ==> {
            let e = escaped_char(c);
            &&& e.len() == 6
            &&& e.take(4) == seq!['\\', 'u', '0', '0']
            &&& e[4] == if (c as u32) < 0x10 { '0' } else { '1' }
            &&& c as u32 % 16 < 10 ==> e[5] as u32 == '0' as u32 + c as u32 % 16
            &&& c as u32 % 16 >= 10 ==> e[5] as u32 == 'a' as u32 + c as u32 % 16 - 10
        },
        escaped(Seq::<char>::empty()) == Seq::<char>::empty(),
        escaped(text.push(c)) == escaped(text) + escaped_char(c),
        quoted(text) == seq!['"'] + escaped(text) + seq!['"'],
{
    assert(text.push(c).drop_last() =~= text);
    assert((c as u32) < 0x20 && !in_short(c) ==> escaped_char(c).take(4) =~= seq![
        '\\',
        'u',
        '0',
        '0',
    ]);
}

/// Optional params are kept or refused as those of requests are, and every fault
/// has an error of its own.
pub proof fn law_params_are_optional(
    params: Option<Serialized>,
    raw: Result<Option<RawValue<'static>>, Error>,
    error: Error,
)
    requires
        call_ensures(validated_params, (params,), raw),
    ensures
        raw is Ok <==> params_fit(params),
        raw matches Ok(None) ==> params is None,
        raw matches Ok(Some(r)) ==> r is Owned && params_kept(params, Some(r@)),
        raw matches Err(e) ==> params_refused(params, e),
        ParamsFault::Serde.is_told_by(error) <==> error is SerdeError,
        ParamsFault::Unstructured.is_told_by(error) <==> error is InvalidParams,
        ParamsFault::NotUtf8.is_told_by(error) <==> error is InvalidUTF8Str,
{
    lemma_params(params);
    if let Err(e) = raw {
        assert(params_refused(params, e));
    }
}

} // verus!
