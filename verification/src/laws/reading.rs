//! What incoming messages are read as, told from the members that they have.

use crate::decode::{
    batch_of, law_batch_keeps_every_item, law_text_and_bytes_decode_alike, lemma_first_refusal,
    lemma_opens_at_token, opens_batch, probe_as_response, probe_views, probes_at, process_batch,
    process_probe, read_batch, response_of, responses_of, BatchItemView, JsonRpcBatchResponse,
    JsonRpcIncoming, NO_SHAPE_IN_BATCH,
};
use crate::error::Error;
use crate::json::{json_borrowed_str, json_i64, json_string, json_u64, RawView};
use crate::laws::layout::{
    array_laid, blank, lemma_array_read, lemma_first_token, lemma_read_array, space,
};
use crate::probe::{
    probe_of, read_probe, ERROR_FIELDS, NOTIFICATION_FIELDS, PROBE_FIELDS, Probe, ProbeId,
    ProbeView, RESPONSE_FIELDS,
};
use crate::protocol::{ErrorView, JsonRpcNotification, JsonRpcResponse};
use crate::request_id::RequestId;
use crate::text::first_visible;
use crate::wire::{elements_from, fields_of, storable, SpanView};
use vstd::prelude::*;

verus! {

/// The members that messages are looked through for.
pub proof fn law_the_members_of_messages()
    ensures
        PROBE_FIELDS@.len() == 6,
        PROBE_FIELDS@[0]@ == "jsonrpc"@,
        PROBE_FIELDS@[1]@ == "id"@,
        PROBE_FIELDS@[2]@ == "method"@,
        PROBE_FIELDS@[3]@ == "params"@,
        PROBE_FIELDS@[4]@ == "result"@,
        PROBE_FIELDS@[5]@ == "error"@,
        ERROR_FIELDS@.len() == 3,
        ERROR_FIELDS@[0]@ == "code"@,
        ERROR_FIELDS@[1]@ == "message"@,
        ERROR_FIELDS@[2]@ == "data"@,
        NOTIFICATION_FIELDS@.len() == 3,
        NOTIFICATION_FIELDS@[0]@ == "jsonrpc"@,
        NOTIFICATION_FIELDS@[1]@ == "method"@,
        NOTIFICATION_FIELDS@[2]@ == "params"@,
        RESPONSE_FIELDS@.len() == 3,
        RESPONSE_FIELDS@[0]@ == "jsonrpc"@,
        RESPONSE_FIELDS@[1]@ == "id"@,
        RESPONSE_FIELDS@[2]@ == "result"@,
{
}

/// The bytes of a span.
pub open spec fn piece(text: Seq<u8>, span: SpanView) -> Seq<u8> {
    text.subrange(span.start, span.end)
}

/// Whether a member is there and is not `null`.
pub open spec fn given(text: Seq<u8>, field: Option<SpanView>) -> bool {
    field matches Some(span) && text[span.start] != 0x6e
}

/// The JSON text of a span, and where it stands, `at` being where `text` begins.
pub open spec fn raw_at(text: Seq<u8>, at: int, span: SpanView) -> RawView {
    RawView {
        text: vstd::utf8::decode_utf8(piece(text, span)),
        offset: Some(at + span.start),
    }
}

/// Whether an error object can be read.
pub open spec fn error_reads(text: Seq<u8>) -> bool {
    fields_of(text, ERROR_FIELDS@) matches Some(g) && {
        &&& g[0] is Some && json_i64(piece(text, g[0]->Some_0)) is Some
        &&& g[1] is Some && json_string(piece(text, g[1]->Some_0)) is Some
        &&& given(text, g[2]) ==> vstd::utf8::valid_utf8(piece(text, g[2]->Some_0))
    }
}

/// Whether the members of a message can be read, `depth` levels deep.
pub open spec fn members_read(text: Seq<u8>, f: Seq<Option<SpanView>>, depth: nat) -> bool {
    &&& f[0] is Some && json_borrowed_str(piece(text, f[0]->Some_0)) == Some("2.0"@)
    &&& given(text, f[1]) ==> storable(piece(text, f[1]->Some_0), (128 - depth) as nat)
    &&& given(text, f[2]) ==> json_string(piece(text, f[2]->Some_0)) is Some
    &&& given(text, f[3]) ==> vstd::utf8::valid_utf8(piece(text, f[3]->Some_0))
    &&& f[4] is Some ==> vstd::utf8::valid_utf8(piece(text, f[4]->Some_0))
    &&& given(text, f[5]) ==> error_reads(piece(text, f[5]->Some_0))
}

/// Whether `error` is what the error object `text` says, which begins at `at`.
pub open spec fn says_error(text: Seq<u8>, at: int, error: ErrorView) -> bool {
    fields_of(text, ERROR_FIELDS@) matches Some(g) && {
        &&& json_i64(piece(text, g[0]->Some_0)) == Some(error.code)
        &&& json_string(piece(text, g[1]->Some_0)) == Some(error.message)
        &&& error.data is Some <==> given(text, g[2])
        &&& error.data matches Some(d) ==> d == raw_at(text, at, g[2]->Some_0)
    }
}

/// A message is taken apart into its members: one is absent only if it does not
/// occur, or if it is `null` and may be; every other is there with exactly the text
/// that it has. `null` is as good a result as any.
pub proof fn law_members_are_read_as_they_are(text: Seq<u8>, at: int, depth: nat)
    ensures
        probe_of(text, at, depth) is Some <==> (fields_of(text, PROBE_FIELDS@) matches Some(f)
            && members_read(text, f, depth)),
        probe_of(text, at, depth) matches Some(probe) ==> {
            let f = fields_of(text, PROBE_FIELDS@)->Some_0;
            &&& probe.id is Absent <==> f[1] is None
            &&& probe.id is Null <==> f[1] is Some && !given(text, f[1])
            &&& given(text, f[1]) ==> match json_u64(piece(text, f[1]->Some_0)) {
                Some(n) => probe.id == ProbeId::Value(RequestId(n)),
                None => probe.id is Other,
            }
            &&& probe.method is Some <==> given(text, f[2])
            &&& probe.method is Some ==> probe.method == json_string(piece(text, f[2]->Some_0))
            &&& probe.params is Some <==> given(text, f[3])
            &&& probe.params matches Some(raw) ==> raw == raw_at(text, at, f[3]->Some_0)
            &&& probe.result is Some <==> f[4] is Some
            &&& f[4] matches Some(span) ==> probe.result == Some(raw_at(text, at, span))
            &&& probe.error is Some <==> given(text, f[5])
            &&& probe.error matches Some(e) ==> says_error(
                piece(text, f[5]->Some_0),
                at + f[5]->Some_0.start,
                e,
            )
        },
{
}

/// The same of the members that are read.
pub proof fn law_probes_hold_the_members(
    text: &[u8],
    at: usize,
    depth: usize,
    probe: Result<Probe<'_>, serde_json::Error>,
)
    requires
        call_ensures(read_probe, (text, at, depth), probe),
    ensures
        probe is Ok <==> (fields_of(text@, PROBE_FIELDS@) matches Some(f) && members_read(
            text@,
            f,
            depth as nat,
        )),
        probe matches Ok(p) ==> {
            let f = fields_of(text@, PROBE_FIELDS@)->Some_0;
            &&& p.id is Absent <==> f[1] is None
            &&& p.id is Null <==> f[1] is Some && !given(text@, f[1])
            &&& given(text@, f[1]) ==> match json_u64(piece(text@, f[1]->Some_0)) {
                Some(n) => p.id == ProbeId::Value(RequestId(n)),
                None => p.id is Other,
            }
            &&& p.method is Some <==> given(text@, f[2])
            &&& p.method matches Some(m) ==> Some(m@) == json_string(piece(text@, f[2]->Some_0))
            &&& p.params is Some <==> given(text@, f[3])
            &&& p.params matches Some(raw) ==> raw.text@ == vstd::utf8::decode_utf8(
                piece(text@, f[3]->Some_0),
            ) && raw.offset == at + f[3]->Some_0.start
            &&& p.result is Some <==> f[4] is Some
            &&& p.result matches Some(raw) ==> raw.text@ == vstd::utf8::decode_utf8(
                piece(text@, f[4]->Some_0),
            ) && raw.offset == at + f[4]->Some_0.start
            &&& p.error is Some <==> given(text@, f[5])
            &&& p.error matches Some(e) ==> says_error(
                piece(text@, f[5]->Some_0),
                at + f[5]->Some_0.start,
                e@,
            ) && (e.data matches Some(d) ==> e@.data == Some(d@)) && e@.code == e.code
                && e@.message == e.message@ && (e.data is None ==> e@.data is None)
        },
{
    law_members_are_read_as_they_are(text@, at as int, depth as nat);
}

/// What a message is, told from its members: with an error it is an error response
/// with the id that it names, else with a result it is a response, which has to name
/// an id that this client could have issued, else it is nothing of the kind.
pub proof fn law_responses_are_told_by_their_members(
    probe: Probe<'_>,
    response: Option<Result<JsonRpcBatchResponse<'_>, Error>>,
)
    requires
        call_ensures(probe_as_response, (&probe,), response),
    ensures
        response is None <==> probe.error is None && probe.result is None,
        probe.error matches Some(error) ==> {
            &&& response matches Some(Ok(JsonRpcBatchResponse::ErrorResponse(e)))
            &&& e.id == (if let ProbeId::Value(id) = probe.id {
                Some(id)
            } else {
                None
            })
            &&& e.error.code == error.code
            &&& e.error.message@ == error.message@
            &&& e.error.data is Some <==> error.data is Some
            &&& error.data matches Some(d) ==> e@.error.data == Some(d@)
        },
        probe.error is None ==> (probe.result matches Some(result) ==> match probe.id {
            ProbeId::Value(id) => response matches Some(Ok(JsonRpcBatchResponse::Response(r)))
                && r.id == id && r.result@ == result@,
            ProbeId::Absent => response matches Some(Err(Error::InvalidMessage(why))) && why@
                == "a response is missing its `id`"@,
            _ => response matches Some(Err(Error::InvalidMessage(why))) && why@
                == "a response `id` is not a value this client could have issued"@,
        }),
{
}

/// What a message on its own is, told from its members: a response if it is one,
/// else with a method and no id a notification, whose params are an object or an
/// array if it has any.
pub proof fn law_messages_are_told_by_their_members(
    probe: Probe<'_>,
    incoming: Result<JsonRpcIncoming<'_>, Error>,
)
    requires
        call_ensures(process_probe, (probe,), incoming),
    ensures
        probe.error matches Some(error) ==> {
            &&& incoming matches Ok(JsonRpcIncoming::ErrorResponse(e))
            &&& e.id == (if let ProbeId::Value(id) = probe.id {
                Some(id)
            } else {
                None
            })
            &&& e.error.code == error.code
            &&& e.error.message@ == error.message@
            &&& e.error.data is Some <==> error.data is Some
            &&& error.data matches Some(d) ==> e@.error.data == Some(d@)
        },
        probe.error is None ==> (probe.result matches Some(result) ==> match probe.id {
            ProbeId::Value(id) => incoming matches Ok(JsonRpcIncoming::Response(r)) && r.id == id
                && r.result@ == result@,
            ProbeId::Absent => incoming matches Err(Error::InvalidMessage(why)) && why@
                == "a response is missing its `id`"@,
            _ => incoming matches Err(Error::InvalidMessage(why)) && why@
                == "a response `id` is not a value this client could have issued"@,
        }),
        probe.error is None && probe.result is None && probe.method is None ==> (
        incoming matches Err(Error::InvalidMessage(why)) && why@
            == "message has no `result`, `error`, or `method` field"@),
        probe.error is None && probe.result is None ==> (probe.method matches Some(method) ==> {
            if probe.id != ProbeId::Absent {
                incoming matches Err(Error::InvalidMessage(why)) && why@
                    == "received a method call with an id; this client does not handle inbound requests"@
            } else if probe.params matches Some(raw) && first_visible(raw.text@) != Some('{')
                && first_visible(raw.text@) != Some('[') {
                incoming matches Err(Error::InvalidMessage(why)) && why@
                    == "the `params` of a notification are neither an object nor an array"@
            } else {
                incoming matches Ok(JsonRpcIncoming::Notification(n)) && n.method@ == method@ && (
                n.params is Some <==> probe.params is Some) && (probe.params matches Some(raw)
                    ==> n@.params == Some(raw@))
            }
        }),
{
}

/// Whether `item` is what the element `text` of a batch says, which begins at `at`,
/// `f` being its members.
pub open spec fn says_item(
    text: Seq<u8>,
    at: int,
    f: Seq<Option<SpanView>>,
    item: BatchItemView,
) -> bool {
    match item {
        BatchItemView::ErrorResponse(e) => {
            &&& given(text, f[5])
            &&& says_error(piece(text, f[5]->Some_0), at + f[5]->Some_0.start, e.error)
            &&& e.id is Some <==> given(text, f[1]) && json_u64(piece(text, f[1]->Some_0)) is Some
            &&& e.id matches Some(id) ==> json_u64(piece(text, f[1]->Some_0)) == Some(id.0)
        },
        BatchItemView::Response(r) => {
            &&& !given(text, f[5])
            &&& f[4] is Some && r.result == raw_at(text, at, f[4]->Some_0)
            &&& given(text, f[1]) && json_u64(piece(text, f[1]->Some_0)) == Some(r.id.0)
        },
    }
}

/// Whether the element `text` of a batch is shaped as a response, `f` being its
/// members: it has an error, or a result and an id that this client could have
/// issued.
pub open spec fn responds(text: Seq<u8>, f: Seq<Option<SpanView>>) -> bool {
    given(text, f[5]) || (f[4] is Some && given(text, f[1]) && json_u64(
        piece(text, f[1]->Some_0),
    ) is Some)
}

/// Why an element of a batch is refused that is shaped as none.
pub open spec fn item_refusal(f: Seq<Option<SpanView>>) -> Seq<char> {
    if f[4] is None {
        "batch item has no `result` or `error`"@
    } else if f[1] is None {
        "a response is missing its `id`"@
    } else {
        "a response `id` is not a value this client could have issued"@
    }
}

proof fn lemma_single(bytes: Seq<u8>, p: int)
    requires
        blank(bytes, 0, p),
        p < bytes.len(),
        !space(bytes[p]),
        bytes[p] != 0x5b,
    ensures
        bytes[p] != 0x7b ==> fields_of(bytes, PROBE_FIELDS@) is None,
        bytes[p] != 0x7b ==> batch_of(bytes) is None,
        bytes[p] == 0x7b ==> !opens_batch(bytes, 0),
{
    lemma_first_token(bytes, p);
    if bytes[p] == 0x7b {
        lemma_opens_at_token(bytes, 0);
    }
}

/// A message that does not open with a square bracket is read on its own. It is
/// malformed unless it is an object whose members can be read. With an error it is
/// an error response, else with a result it is a response to the request that it
/// names, else with a method and no id a notification; it is refused otherwise.
pub proof fn law_single_messages<'a>(
    bytes: &'a [u8],
    incoming: Result<JsonRpcIncoming<'a>, Error>,
    p: int,
)
    requires
        call_ensures(<JsonRpcIncoming<'a> as TryFrom<&'a [u8]>>::try_from, (bytes,), incoming),
        blank(bytes@, 0, p),
        p < bytes@.len() ==> !space(bytes@[p]) && bytes@[p] != 0x5b,
    ensures
        ({
            let text = bytes@;
            let members = fields_of(text, PROBE_FIELDS@);
            let f = members->Some_0;
            let readable = p < text.len() && members is Some && members_read(text, f, 1);
            let raw = raw_at(text, 0, f[3]->Some_0);
            &&& (incoming matches Err(Error::SerdeError(_))) <==> !readable
            &&& readable && (given(text, f[5]) || f[4] is Some && given(text, f[1]) && json_u64(
                piece(text, f[1]->Some_0),
            ) is Some) ==> {
                ||| incoming matches Ok(JsonRpcIncoming::ErrorResponse(e)) && says_item(
                    text,
                    0,
                    f,
                    BatchItemView::ErrorResponse(e@),
                )
                ||| incoming matches Ok(JsonRpcIncoming::Response(r)) && says_item(
                    text,
                    0,
                    f,
                    BatchItemView::Response(r@),
                )
            }
            &&& readable && !given(text, f[5]) && f[4] is Some && !(given(text, f[1])
                && json_u64(piece(text, f[1]->Some_0)) is Some) ==> (incoming matches Err(
                Error::InvalidMessage(why),
            ) && why@ == item_refusal(f))
            &&& readable && !given(text, f[5]) && f[4] is None && !given(text, f[2]) ==> (
            incoming matches Err(Error::InvalidMessage(why)) && why@
                == "message has no `result`, `error`, or `method` field"@)
            &&& readable && !given(text, f[5]) && f[4] is None && given(text, f[2]) && f[1] is Some
                ==> (incoming matches Err(Error::InvalidMessage(why)) && why@
                == "received a method call with an id; this client does not handle inbound requests"@)
            &&& readable && !given(text, f[5]) && f[4] is None && given(text, f[2]) && f[1] is None
                && given(text, f[3]) && first_visible(raw.text) != Some('{') && first_visible(
                raw.text,
            ) != Some('[') ==> (incoming matches Err(Error::InvalidMessage(why)) && why@
                == "the `params` of a notification are neither an object nor an array"@)
            &&& readable && !given(text, f[5]) && f[4] is None && given(text, f[2]) && f[1] is None
                && (given(text, f[3]) ==> first_visible(raw.text) == Some('{') || first_visible(
                raw.text,
            ) == Some('[')) ==> (incoming matches Ok(JsonRpcIncoming::Notification(n)) && Some(
                n.method@,
            ) == json_string(piece(text, f[2]->Some_0)) && (n.params is Some <==> given(
                text,
                f[3],
            )) && (n.params is Some ==> n@.params == Some(raw)))
        }),
{
    let text = bytes@;
    if p < text.len() {
        lemma_single(text, p);
    } else {
        lemma_first_token(text, p);
    }
    law_members_are_read_as_they_are(text, 0, 1);
}

proof fn lemma_probes(text: Seq<u8>, spans: Seq<SpanView>)
    ensures
        probes_at(text, spans) is Some <==> forall|i: int|
            0 <= i < spans.len() ==> probe_of(
                piece(text, #[trigger] spans[i]),
                spans[i].start,
                2,
            ) is Some,
        probes_at(text, spans) matches Some(probes) ==> {
            &&& probes.len() == spans.len()
            &&& forall|i: int|
                0 <= i < spans.len() ==> #[trigger] probes[i] == probe_of(
                    piece(text, spans[i]),
                    spans[i].start,
                    2,
                )->Some_0
        },
    decreases spans.len(),
{
    if spans.len() > 0 {
        let head = spans.drop_last();
        let n = spans.len() - 1;
        lemma_probes(text, head);
        assert(spans[n] == spans.last());
        if probes_at(text, spans) is Some {
            let probes = probes_at(text, spans)->Some_0;
            let before = probes_at(text, head)->Some_0;
            assert forall|i: int| 0 <= i < spans.len() implies probe_of(
                piece(text, #[trigger] spans[i]),
                spans[i].start,
                2,
            ) is Some && probes[i] == probe_of(
                piece(text, spans[i]),
                spans[i].start,
                2,
            )->Some_0 by {
                if i < n {
                    assert(head[i] == spans[i]);
                    assert(before[i] == probes[i]);
                }
            }
        } else if probes_at(text, head) is None {
            let i = choose|i: int|
                0 <= i < head.len() && probe_of(
                    piece(text, #[trigger] head[i]),
                    head[i].start,
                    2,
                ) is None;
            assert(spans[i] == head[i]);
        }
    }
}

/// Whether the element `i` of a batch can be read.
pub open spec fn element_reads(text: Seq<u8>, span: SpanView) -> bool {
    fields_of(piece(text, span), PROBE_FIELDS@) matches Some(f) && members_read(
        piece(text, span),
        f,
        2,
    )
}

/// Whether an element of a batch is shaped as a response.
pub open spec fn element_responds(text: Seq<u8>, span: SpanView) -> bool {
    responds(piece(text, span), fields_of(piece(text, span), PROBE_FIELDS@)->Some_0)
}

/// Whether `item` is what an element of a batch says.
pub open spec fn element_says(text: Seq<u8>, span: SpanView, item: BatchItemView) -> bool {
    says_item(
        piece(text, span),
        span.start,
        fields_of(piece(text, span), PROBE_FIELDS@)->Some_0,
        item,
    )
}

spec fn element_probe(text: Seq<u8>, span: SpanView) -> Option<ProbeView> {
    probe_of(piece(text, span), span.start, 2)
}

proof fn lemma_element(text: Seq<u8>, span: SpanView)
    ensures
        element_reads(text, span) <==> element_probe(text, span) is Some,
        element_probe(text, span) matches Some(probe) ==> match response_of(probe) {
            Some(Ok(item)) => element_responds(text, span) && element_says(text, span, item),
            Some(Err(why)) => !element_responds(text, span) && why == item_refusal(
                fields_of(piece(text, span), PROBE_FIELDS@)->Some_0,
            ),
            None => !element_responds(text, span) && NO_SHAPE_IN_BATCH@ == item_refusal(
                fields_of(piece(text, span), PROBE_FIELDS@)->Some_0,
            ),
        },
{
    law_members_are_read_as_they_are(piece(text, span), span.start, 2);
}

proof fn lemma_batch_reads(text: Seq<u8>, spans: Seq<SpanView>)
    ensures
        probes_at(text, spans) is Some <==> forall|k: int|
            0 <= k < spans.len() ==> element_reads(text, #[trigger] spans[k]),
{
    lemma_probes(text, spans);
    assert forall|k: int| 0 <= k < spans.len() implies element_reads(text, #[trigger] spans[k])
        == element_probe(text, spans[k]) is Some by {
        lemma_element(text, spans[k]);
    }
    if probes_at(text, spans) is None {
        let k = choose|k: int|
            0 <= k < spans.len() && probe_of(
                piece(text, #[trigger] spans[k]),
                spans[k].start,
                2,
            ) is None;
        assert(!element_reads(text, spans[k]));
    } else {
        assert forall|k: int| 0 <= k < spans.len() implies element_reads(
            text,
            #[trigger] spans[k],
        ) by {
            assert(probe_of(piece(text, spans[k]), spans[k].start, 2) is Some);
        }
    }
}

proof fn lemma_batch_answers(text: Seq<u8>, spans: Seq<SpanView>, probes: Seq<ProbeView>)
    requires
        probes_at(text, spans) == Some(probes),
    ensures
        responses_of(probes) is Ok <==> forall|k: int|
            0 <= k < spans.len() ==> element_responds(text, #[trigger] spans[k]),
        responses_of(probes) matches Ok(items) ==> {
            &&& items.len() == spans.len()
            &&& forall|k: int|
                0 <= k < spans.len() ==> element_says(text, spans[k], #[trigger] items[k])
        },
{
    lemma_probes(text, spans);
    law_batch_keeps_every_item(probes);
    assert forall|k: int| 0 <= k < spans.len() implies element_probe(text, spans[k]) == Some(
        #[trigger] probes[k],
    ) by {
        assert(probe_of(piece(text, spans[k]), spans[k].start, 2) is Some);
    }
    if let Ok(items) = responses_of(probes) {
        assert forall|k: int| 0 <= k < spans.len() implies element_says(
            text,
            spans[k],
            #[trigger] items[k],
        ) && element_responds(text, spans[k]) by {
            assert(element_probe(text, spans[k]) == Some(probes[k]));
            lemma_element(text, spans[k]);
        }
        assert forall|k: int| 0 <= k < spans.len() implies element_responds(
            text,
            #[trigger] spans[k],
        ) by {
            assert(element_says(text, spans[k], items[k]));
        }
    } else {
        let b = choose|b: int|
            0 <= b < probes.len() && !(response_of(#[trigger] probes[b]) matches Some(Ok(_)));
        assert(element_probe(text, spans[b]) == Some(probes[b]));
        lemma_element(text, spans[b]);
        assert(!element_responds(text, spans[b]));
    }
}

proof fn lemma_batch_refused(text: Seq<u8>, spans: Seq<SpanView>, probes: Seq<ProbeView>, i: int)
    requires
        probes_at(text, spans) == Some(probes),
    ensures
        0 <= i < spans.len() && !element_responds(text, spans[i]) && (forall|k: int|
            0 <= k < i ==> element_responds(text, #[trigger] spans[k])) ==> responses_of(probes)
            == Err::<Seq<BatchItemView>, Seq<char>>(
            item_refusal(fields_of(piece(text, spans[i]), PROBE_FIELDS@)->Some_0),
        ),
{
    lemma_probes(text, spans);
    if 0 <= i < spans.len() && !element_responds(text, spans[i]) && (forall|k: int|
        0 <= k < i ==> element_responds(text, #[trigger] spans[k])) {
        assert forall|k: int| 0 <= k < spans.len() implies element_probe(text, spans[k]) == Some(
            #[trigger] probes[k],
        ) by {
            assert(probe_of(piece(text, spans[k]), spans[k].start, 2) is Some);
        }
        let head = probes.take(i);
        law_batch_keeps_every_item(head);
        if responses_of(head) is Err {
            let c = choose|c: int|
                0 <= c < head.len() && !(response_of(#[trigger] head[c]) matches Some(Ok(_)));
            assert(head[c] == probes[c]);
            assert(element_probe(text, spans[c]) == Some(probes[c]));
            lemma_element(text, spans[c]);
            assert(element_responds(text, spans[c]));
        }
        let upto = probes.take(i + 1);
        assert(upto.drop_last() =~= head);
        assert(upto.last() == probes[i]);
        assert(element_probe(text, spans[i]) == Some(probes[i]));
        lemma_element(text, spans[i]);
        lemma_first_refusal(probes, i + 1);
    }
}

/// A message that is laid out as an array is read as a batch. It is malformed
/// exactly if one of its elements is; else it is refused for the first element that
/// is not shaped as a response; else it is the batch of what its elements say, one
/// item for each and in their order.
pub proof fn law_batches<'a>(
    bytes: &'a [u8],
    incoming: Result<JsonRpcIncoming<'a>, Error>,
    open: int,
    spans: Seq<SpanView>,
    i: int,
)
    requires
        call_ensures(<JsonRpcIncoming<'a> as TryFrom<&'a [u8]>>::try_from, (bytes,), incoming),
        array_laid(bytes@, open, spans),
    ensures
        ({
            let text = bytes@;
            let readable = forall|k: int|
                0 <= k < spans.len() ==> element_reads(text, #[trigger] spans[k]);
            let answered = forall|k: int|
                0 <= k < spans.len() ==> element_responds(text, #[trigger] spans[k]);
            &&& (incoming matches Err(Error::SerdeError(_))) <==> !readable
            &&& readable && answered ==> {
                &&& incoming matches Ok(JsonRpcIncoming::BatchResponse(items))
                &&& items@.len() == spans.len()
                &&& forall|k: int|
                    0 <= k < spans.len() ==> element_says(text, spans[k], (#[trigger] items@[k])@)
            }
            &&& readable && 0 <= i < spans.len() && !element_responds(text, spans[i]) && (forall|
                k: int,
            |
                0 <= k < i ==> element_responds(text, #[trigger] spans[k])) ==> (
            incoming matches Err(Error::InvalidMessage(why)) && why@ == item_refusal(
                fields_of(piece(text, spans[i]), PROBE_FIELDS@)->Some_0,
            ))
        }),
{
    let text = bytes@;
    lemma_array_read(text, open, spans);
    lemma_opens_at_token(text, 0);
    lemma_batch_reads(text, spans);
    if let Some(probes) = probes_at(text, spans) {
        lemma_batch_answers(text, spans, probes);
        lemma_batch_refused(text, spans, probes, i);
        if let Ok(items) = responses_of(probes) {
            let got = incoming->Ok_0->BatchResponse_0;
            assert(crate::decode::item_views(got@) == items);
            assert forall|k: int| 0 <= k < spans.len() implies element_says(
                text,
                spans[k],
                (#[trigger] got@[k])@,
            ) by {
                assert(items[k] == got@[k]@);
            }
        }
    }
}

/// A message that opens with a square bracket but is not laid out as an array is
/// malformed.
pub proof fn law_broken_batches<'a>(
    bytes: &'a [u8],
    incoming: Result<JsonRpcIncoming<'a>, Error>,
    open: int,
)
    requires
        call_ensures(<JsonRpcIncoming<'a> as TryFrom<&'a [u8]>>::try_from, (bytes,), incoming),
        blank(bytes@, 0, open),
        open < bytes@.len() && bytes@[open] == 0x5b,
        forall|spans: Seq<SpanView>| !#[trigger] array_laid(bytes@, open, spans),
    ensures
        incoming matches Err(Error::SerdeError(_)),
{
    lemma_first_token(bytes@, open);
    lemma_opens_at_token(bytes@, 0);
    if elements_from(bytes@, open + 1, true) is Some {
        lemma_read_array(bytes@, open);
    }
}

/// A text is read as its bytes are.
pub proof fn law_texts_are_read_as_their_bytes<'a>(
    text: &'a str,
    bytes: &'a [u8],
    a: Result<JsonRpcIncoming<'a>, Error>,
    b: Result<JsonRpcIncoming<'a>, Error>,
)
    requires
        bytes@ == vstd::utf8::encode_utf8(text@),
        call_ensures(<JsonRpcIncoming<'a> as TryFrom<&'a str>>::try_from, (text,), a),
        call_ensures(<JsonRpcIncoming<'a> as TryFrom<&'a [u8]>>::try_from, (bytes,), b),
    ensures
        match b {
            Ok(m) => a matches Ok(n) && n@ == m@,
            Err(Error::SerdeError(_)) => a matches Err(Error::SerdeError(_)),
            Err(Error::InvalidMessage(why)) => a matches Err(Error::InvalidMessage(other)) && other@
                == why@,
            _ => false,
        },
{
    law_text_and_bytes_decode_alike(text@);
}

/// A batch reply is the batch of what its probes are; it is refused for the first of
/// them that is no response.
pub proof fn law_batches_of_probes(
    probes: Vec<Probe<'_>>,
    incoming: Result<JsonRpcIncoming<'_>, Error>,
)
    requires
        call_ensures(process_batch, (probes,), incoming),
    ensures
        incoming matches Ok(m) ==> {
            &&& m matches JsonRpcIncoming::BatchResponse(items)
            &&& items@.len() == probes@.len()
            &&& forall|k: int| 0 <= k < probes@.len() ==> match (#[trigger] items@[k])@ {
                BatchItemView::ErrorResponse(e) => probes@[k].error matches Some(error) && e.error
                    == error@ && e.id == (if let ProbeId::Value(id) = probes@[k].id {
                    Some(id)
                } else {
                    None
                }),
                BatchItemView::Response(r) => probes@[k].error is None && probes@[k].id
                    == ProbeId::Value(r.id) && probes@[k].result is Some && r.result
                    == probes@[k].result->Some_0@,
            }
        },
        incoming is Err <==> exists|k: int|
            0 <= k < probes@.len() && (#[trigger] probes@[k]).error is None && (probes@[k].result
                is None || !(probes@[k].id is Value)),
        incoming matches Err(e) ==> e is InvalidMessage,
{
    let views = probe_views(probes@);
    law_batch_keeps_every_item(views);
    if let Ok(m) = incoming {
        let items = m->BatchResponse_0;
        assert forall|k: int| 0 <= k < probes@.len() implies match (#[trigger] items@[k])@ {
            BatchItemView::ErrorResponse(e) => probes@[k].error matches Some(error) && e.error
                == error@ && e.id == (if let ProbeId::Value(id) = probes@[k].id {
                Some(id)
            } else {
                None
            }),
            BatchItemView::Response(r) => probes@[k].error is None && probes@[k].id
                == ProbeId::Value(r.id) && probes@[k].result is Some && r.result
                == probes@[k].result->Some_0@,
        } by {
            assert(crate::decode::item_views(items@)[k] == items@[k]@);
            assert(views[k] == probes@[k]@);
            assert(crate::decode::response_of(views[k]) == Some(
                Ok::<BatchItemView, Seq<char>>(crate::decode::item_views(items@)[k]),
            ));
        }
        assert forall|k: int| 0 <= k < probes@.len() implies !((#[trigger] probes@[k]).error is None
            && (probes@[k].result is None || !(probes@[k].id is Value))) by {
            let item = items@[k]@;
        }
    } else {
        let k = choose|k: int|
            0 <= k < views.len() && !(crate::decode::response_of(#[trigger] views[k]) matches Some(
                Ok(_),
            ));
        assert(views[k] == probes@[k]@);
        assert(probes@[k].error is None);
    }
}

/// The probes of a batch are those of its elements.
pub proof fn law_batches_are_read_by_element(
    text: &[u8],
    probes: Result<Vec<Probe<'_>>, serde_json::Error>,
    open: int,
    spans: Seq<SpanView>,
)
    requires
        call_ensures(read_batch, (text,), probes),
        array_laid(text@, open, spans),
    ensures
        probes is Ok <==> forall|k: int|
            0 <= k < spans.len() ==> element_reads(text@, #[trigger] spans[k]),
        probes matches Ok(list) ==> {
            &&& list@.len() == spans.len()
            &&& forall|k: int|
                0 <= k < spans.len() ==> probe_of(
                    piece(text@, spans[k]),
                    spans[k].start,
                    2,
                ) == Some((#[trigger] list@[k])@)
        },
{
    lemma_array_read(text@, open, spans);
    lemma_probes(text@, spans);
    assert forall|k: int| 0 <= k < spans.len() implies (element_reads(text@, #[trigger] spans[k])
        <==> probe_of(piece(text@, spans[k]), spans[k].start, 2) is Some) by {
        law_members_are_read_as_they_are(piece(text@, spans[k]), spans[k].start, 2);
    }
    if let Ok(list) = probes {
        let views = probe_views(list@);
        assert forall|k: int| 0 <= k < spans.len() implies probe_of(
            piece(text@, spans[k]),
            spans[k].start,
            2,
        ) == Some((#[trigger] list@[k])@) by {
            assert(views[k] == list@[k]@);
            assert(element_reads(text@, spans[k]));
        }
    }
}

/// A notification on its own is read if it names the version and a method, and its
/// params, if they are given, are an object or an array.
pub proof fn law_notifications_on_their_own<'a>(
    text: &'a [u8],
    notification: Result<JsonRpcNotification<'a>, serde_json::Error>,
)
    requires
        call_ensures(JsonRpcNotification::<'a>::from_json, (text,), notification),
    ensures
        ({
            let members = fields_of(text@, NOTIFICATION_FIELDS@);
            let f = members->Some_0;
            let raw = raw_at(text@, 0, f[2]->Some_0);
            &&& notification is Ok <==> {
                &&& members is Some
                &&& f[0] is Some && json_borrowed_str(piece(text@, f[0]->Some_0)) == Some("2.0"@)
                &&& f[1] is Some && json_string(piece(text@, f[1]->Some_0)) is Some
                &&& given(text@, f[2]) ==> vstd::utf8::valid_utf8(piece(text@, f[2]->Some_0)) && (
                first_visible(raw.text) == Some('{') || first_visible(raw.text) == Some('['))
            }
            &&& notification matches Ok(n) ==> {
                &&& Some(n.method@) == json_string(piece(text@, f[1]->Some_0))
                &&& n.params is Some <==> given(text@, f[2])
                &&& n.params matches Some(p) ==> p@ == raw
            }
        }),
{
}

/// A response on its own is read if it names the version, an id and a result, and
/// is that result.
pub proof fn law_responses_on_their_own<'a>(
    text: &[u8],
    response: Result<JsonRpcResponse<'a>, serde_json::Error>,
)
    requires
        call_ensures(JsonRpcResponse::<'a>::from_json, (text,), response),
    ensures
        ({
            let members = fields_of(text@, RESPONSE_FIELDS@);
            let f = members->Some_0;
            &&& response is Ok <==> {
                &&& members is Some
                &&& f[0] is Some && json_borrowed_str(piece(text@, f[0]->Some_0)) == Some("2.0"@)
                &&& f[1] is Some && json_u64(piece(text@, f[1]->Some_0)) is Some
                &&& f[2] is Some && vstd::utf8::valid_utf8(piece(text@, f[2]->Some_0))
            }
            &&& response matches Ok(r) ==> {
                &&& Some(r.id.0) == json_u64(piece(text@, f[1]->Some_0))
                &&& r.result@.text == vstd::utf8::decode_utf8(piece(text@, f[2]->Some_0))
            }
        }),
{
}

/// An id is there unless it is absent, and is a value only if it is one that this
/// client could have issued.
pub proof fn law_ids_of_probes(
    id: ProbeId,
    present: bool,
    value: Option<RequestId>,
    default: ProbeId,
    item: JsonRpcBatchResponse<'_>,
    named: Option<RequestId>,
)
    requires
        call_ensures(ProbeId::is_present, (id,), present),
        call_ensures(ProbeId::value, (id,), value),
        call_ensures(<ProbeId as Default>::default, (), default),
        call_ensures(JsonRpcBatchResponse::id, (&item,), named),
    ensures
        present <==> !(id is Absent),
        value is Some <==> id is Value,
        id matches ProbeId::Value(i) ==> value == Some(i),
        default is Absent,
        item matches JsonRpcBatchResponse::Response(r) ==> named == Some(r.id),
        item matches JsonRpcBatchResponse::ErrorResponse(e) ==> named == e.id,
        item@.id() == named,
{
}

/// Whether a member is a string without an escape sequence.
pub open spec fn unescaped(text: Seq<u8>, field: Option<SpanView>) -> bool {
    field matches Some(span) && json_borrowed_str(piece(text, span)) is Some
}

/// The method of a notification and the message of an error are borrowed exactly if
/// they stand in the message without an escape sequence.
pub proof fn law_strings_are_borrowed<'a>(
    bytes: &'a [u8],
    incoming: Result<JsonRpcIncoming<'a>, Error>,
    probe: Result<Probe<'a>, serde_json::Error>,
    f: Seq<Option<SpanView>>,
    g: Seq<Option<SpanView>>,
)
    requires
        call_ensures(<JsonRpcIncoming<'a> as TryFrom<&'a [u8]>>::try_from, (bytes,), incoming),
        call_ensures(read_probe, (bytes, 0, 1), probe),
        fields_of(bytes@, PROBE_FIELDS@) == Some(f),
        f[5] matches Some(span) ==> (fields_of(piece(bytes@, span), ERROR_FIELDS@) matches Some(h)
            ==> h == g),
    ensures
        incoming matches Ok(JsonRpcIncoming::Notification(n)) ==> (n.method is Borrowed
            <==> unescaped(bytes@, f[2])),
        incoming matches Ok(JsonRpcIncoming::ErrorResponse(e)) ==> (e.error.message is Borrowed
            <==> unescaped(piece(bytes@, f[5]->Some_0), g[1])),
        probe matches Ok(p) ==> {
            &&& p.method matches Some(method) ==> (method is Borrowed <==> unescaped(bytes@, f[2]))
            &&& p.error matches Some(error) ==> (error.message is Borrowed <==> unescaped(
                piece(bytes@, f[5]->Some_0),
                g[1],
            ))
        },
{
    lemma_error_is_given(bytes@, 0);
}

proof fn lemma_error_is_given(text: Seq<u8>, at: int)
    ensures
        probe_of(text, at, 1) matches Some(p) ==> (p.error is Some ==> {
            &&& fields_of(text, PROBE_FIELDS@) matches Some(f)
            &&& f[5] matches Some(span)
            &&& fields_of(piece(text, span), ERROR_FIELDS@) is Some
        }),
{
}

/// The same of the items of a batch.
pub proof fn law_strings_of_batches_are_borrowed<'a>(
    bytes: &'a [u8],
    incoming: Result<JsonRpcIncoming<'a>, Error>,
    open: int,
    spans: Seq<SpanView>,
    i: int,
    f: Seq<Option<SpanView>>,
    g: Seq<Option<SpanView>>,
)
    requires
        call_ensures(<JsonRpcIncoming<'a> as TryFrom<&'a [u8]>>::try_from, (bytes,), incoming),
        array_laid(bytes@, open, spans),
        0 <= i < spans.len(),
        fields_of(piece(bytes@, spans[i]), PROBE_FIELDS@) == Some(f),
        f[5] is Some,
        fields_of(piece(piece(bytes@, spans[i]), f[5]->Some_0), ERROR_FIELDS@) == Some(g),
    ensures
        incoming matches Ok(JsonRpcIncoming::BatchResponse(items)) ==> (
        items@[i] matches JsonRpcBatchResponse::ErrorResponse(e) ==> (e.error.message is Borrowed
            <==> unescaped(piece(piece(bytes@, spans[i]), f[5]->Some_0), g[1]))),
{
    lemma_array_read(bytes@, open, spans);
    lemma_opens_at_token(bytes@, 0);
    if let Ok(JsonRpcIncoming::BatchResponse(items)) = incoming {
        lemma_batch_answers(bytes@, spans, probes_at(bytes@, spans)->Some_0);
        assert(crate::decode::item_views(items@) == responses_of(
            probes_at(bytes@, spans)->Some_0,
        )->Ok_0);
        assert(crate::decode::item_strings_borrowed(
            items@[i],
            crate::decode::element(bytes@, i),
        ));
    }
}

} // verus!
