//! Whitespace in front of a message, which changes nothing of what it says.

use crate::decode::{
    batch_of, decoded, law_text_and_bytes_decode_alike, lemma_opens_at_token, message_of,
    opens_batch, probes_at, response_of, responses_of, BatchItemView, IncomingView, Refusal,
};
use crate::json::{json_space, RawView};
use crate::probe::{
    error_field, error_object, probe_of, raw_of, raw_unless_null, ProbeView, PROBE_FIELDS,
};
use crate::protocol::{ErrorResponseView, ErrorView, NotificationView, ResponseView};
use crate::text::first_visible;
use crate::wire::{
    at_most_once, elements_from, fields_of, item_start, json_space_byte, key_at,
    lemma_elements_within, lemma_fields_within, lemma_member_advances, lemma_skip_space, member_at,
    member_value, members_from, no_repeats, skip_space, value_end, value_of, MemberView, SpanView,
};
use vstd::prelude::*;

verus! {

/// A piece of a text, `by` bytes being put in front of the text.
pub open spec fn moved_span(span: SpanView, by: int) -> SpanView {
    SpanView { start: span.start + by, end: span.end + by }
}

spec fn moved_member(member: MemberView, by: int) -> MemberView {
    MemberView { key: member.key, value: moved_span(member.value, by) }
}

spec fn moved_field(field: Option<SpanView>, by: int) -> Option<SpanView> {
    match field {
        None => None,
        Some(span) => Some(moved_span(span, by)),
    }
}

spec fn moved_spans(spans: Option<Seq<SpanView>>, by: int) -> Option<Seq<SpanView>> {
    match spans {
        None => None,
        Some(s) => Some(Seq::new(s.len(), |k: int| moved_span(s[k], by))),
    }
}

spec fn moved_members(members: Option<Seq<MemberView>>, by: int) -> Option<Seq<MemberView>> {
    match members {
        None => None,
        Some(s) => Some(Seq::new(s.len(), |k: int| moved_member(s[k], by))),
    }
}

spec fn moved_fields(fields: Option<Seq<Option<SpanView>>>, by: int) -> Option<
    Seq<Option<SpanView>>,
> {
    match fields {
        None => None,
        Some(s) => Some(Seq::new(s.len(), |k: int| moved_field(s[k], by))),
    }
}

proof fn lemma_skip_space_moves(front: Seq<u8>, text: Seq<u8>, pos: int)
    requires
        0 <= pos,
    ensures
        skip_space(front + text, front.len() + pos) == front.len() + skip_space(text, pos),
    decreases text.len() - pos,
{
    if pos < text.len() {
        assert((front + text)[front.len() + pos] == text[pos]);
        if json_space_byte(text[pos]) {
            lemma_skip_space_moves(front, text, pos + 1);
        }
    }
}

proof fn lemma_front_is_skipped(front: Seq<u8>, text: Seq<u8>, pos: int)
    requires
        0 <= pos <= front.len(),
        forall|i: int| 0 <= i < front.len() ==> json_space_byte(#[trigger] front[i]),
    ensures
        skip_space(front + text, pos) == front.len() + skip_space(text, 0),
    decreases front.len() - pos,
{
    if pos == front.len() {
        lemma_skip_space_moves(front, text, 0);
    } else {
        assert((front + text)[pos] == front[pos]);
        lemma_front_is_skipped(front, text, pos + 1);
    }
}

proof fn lemma_value_end_moves(front: Seq<u8>, text: Seq<u8>, pos: int)
    requires
        0 <= pos <= text.len(),
    ensures
        value_end(front + text, front.len() + pos) == match value_end(text, pos) {
            Some(end) => Some(front.len() + end),
            None => None,
        },
{
    let all = front + text;
    assert(all.subrange(front.len() + pos, all.len() as int) =~= text.subrange(
        pos,
        text.len() as int,
    ));
}

proof fn lemma_item_start_moves(front: Seq<u8>, text: Seq<u8>, pos: int, first: bool)
    requires
        0 <= pos <= text.len(),
    ensures
        item_start(front + text, front.len() + pos, first) == match item_start(text, pos, first) {
            Some(start) => Some(front.len() + start),
            None => None,
        },
        item_start(text, pos, first) matches Some(start) ==> pos <= start <= text.len(),
{
    let p = skip_space(text, pos);
    lemma_skip_space(text, pos);
    lemma_skip_space_moves(front, text, pos);
    if p < text.len() {
        assert((front + text)[front.len() + p] == text[p]);
        lemma_skip_space(text, p + 1);
        lemma_skip_space_moves(front, text, p + 1);
    }
}

proof fn lemma_elements_move(front: Seq<u8>, text: Seq<u8>, pos: int, first: bool)
    requires
        0 <= pos <= text.len(),
    ensures
        elements_from(front + text, front.len() + pos, first) == moved_spans(
            elements_from(text, pos, first),
            front.len() as int,
        ),
    decreases text.len() - pos,
{
    let all = front + text;
    let n = front.len() as int;
    let p = skip_space(text, pos);
    lemma_skip_space(text, pos);
    lemma_skip_space_moves(front, text, pos);
    if p < text.len() {
        assert(all[n + p] == text[p]);
        if text[p] == 0x5d {
            lemma_skip_space_moves(front, text, p + 1);
            assert(moved_spans(Some(Seq::<SpanView>::empty()), n)->Some_0 =~= Seq::empty());
        } else {
            lemma_item_start_moves(front, text, pos, first);
            if let Some(start) = item_start(text, pos, first) {
                if start < text.len() {
                    assert(all[n + start] == text[start]);
                    lemma_value_end_moves(front, text, start);
                    if let Some(end) = value_end(text, start) {
                        lemma_elements_move(front, text, end, false);
                        if let Some(rest) = elements_from(text, end, false) {
                            let here = SpanView { start, end };
                            let moved = moved_spans(Some(rest), n)->Some_0;
                            assert(moved_spans(Some(seq![here] + rest), n)->Some_0
                                =~= seq![moved_span(here, n)] + moved);
                        }
                    }
                }
            }
        }
    }
}

proof fn lemma_member_moves(front: Seq<u8>, text: Seq<u8>, start: int)
    requires
        0 <= start <= text.len(),
    ensures
        member_at(front + text, front.len() + start) == match member_at(text, start) {
            Some(member) => Some(moved_member(member, front.len() as int)),
            None => None,
        },
{
    let all = front + text;
    let n = front.len() as int;
    if start < text.len() {
        assert(all[n + start] == text[start]);
        lemma_value_end_moves(front, text, start);
        if let Some(end) = value_end(text, start) {
            assert(all.subrange(n + start, n + end) =~= text.subrange(start, end));
            assert(key_at(all, n + start) == match key_at(text, start) {
                Some((key, key_end)) => Some((key, n + key_end)),
                None => None,
            });
            let colon = skip_space(text, end);
            lemma_skip_space(text, end);
            lemma_skip_space_moves(front, text, end);
            if colon < text.len() {
                assert(all[n + colon] == text[colon]);
                lemma_skip_space(text, colon + 1);
                lemma_skip_space_moves(front, text, colon + 1);
                lemma_value_end_moves(front, text, skip_space(text, colon + 1));
            }
            assert(member_value(all, n + end) == moved_field(member_value(text, end), n));
        }
    }
}

proof fn lemma_members_move(front: Seq<u8>, text: Seq<u8>, pos: int, first: bool)
    requires
        0 <= pos <= text.len(),
    ensures
        members_from(front + text, front.len() + pos, first) == moved_members(
            members_from(text, pos, first),
            front.len() as int,
        ),
    decreases text.len() - pos,
{
    let all = front + text;
    let n = front.len() as int;
    let p = skip_space(text, pos);
    lemma_skip_space(text, pos);
    lemma_skip_space_moves(front, text, pos);
    if p < text.len() {
        assert(all[n + p] == text[p]);
        if text[p] == 0x7d {
            lemma_skip_space_moves(front, text, p + 1);
            assert(moved_members(Some(Seq::<MemberView>::empty()), n)->Some_0 =~= Seq::empty());
        } else {
            lemma_item_start_moves(front, text, pos, first);
            if let Some(start) = item_start(text, pos, first) {
                lemma_member_moves(front, text, start);
                if let Some(here) = member_at(text, start) {
                    lemma_member_advances(text, start);
                    let end = here.value.end;
                    lemma_members_move(front, text, end, false);
                    if let Some(rest) = members_from(text, end, false) {
                        let moved = moved_members(Some(rest), n)->Some_0;
                        assert(moved_members(Some(seq![here] + rest), n)->Some_0
                            =~= seq![moved_member(here, n)] + moved);
                    }
                }
            }
        }
    }
}

proof fn lemma_value_of_moves(members: Seq<MemberView>, name: Seq<char>, by: int)
    ensures
        value_of(moved_members(Some(members), by)->Some_0, name) == moved_field(
            value_of(members, name),
            by,
        ),
    decreases members.len(),
{
    let moved = moved_members(Some(members), by)->Some_0;
    if members.len() > 0 {
        assert(moved.last() == moved_member(members.last(), by));
        assert(moved.drop_last() =~= moved_members(Some(members.drop_last()), by)->Some_0);
        lemma_value_of_moves(members.drop_last(), name, by);
    }
}

proof fn lemma_repeats_stay(members: Seq<MemberView>, names: Seq<&'static str>, by: int)
    ensures
        no_repeats(moved_members(Some(members), by)->Some_0, names) == no_repeats(members, names),
{
    let moved = moved_members(Some(members), by)->Some_0;
    assert(moved.len() == members.len());
    assert forall|name: Seq<char>| #[trigger]
        at_most_once(moved, name) == at_most_once(members, name) by {
        if at_most_once(moved, name) {
            assert forall|i: int, j: int|
                0 <= i < j < members.len() && #[trigger] members[i].key == name implies (
            #[trigger] members[j]).key != name by {
                assert(moved[i].key == name);
                assert(moved[j].key == members[j].key);
            }
        }
        if at_most_once(members, name) {
            assert forall|i: int, j: int|
                0 <= i < j < moved.len() && #[trigger] moved[i].key == name implies (
            #[trigger] moved[j]).key != name by {
                assert(members[i].key == name);
                assert(members[j].key == moved[j].key);
            }
        }
    }
}

proof fn lemma_fields_move(front: Seq<u8>, text: Seq<u8>, names: Seq<&'static str>)
    requires
        forall|i: int| 0 <= i < front.len() ==> json_space_byte(#[trigger] front[i]),
    ensures
        fields_of(front + text, names) == moved_fields(
            fields_of(text, names),
            front.len() as int,
        ),
{
    let all = front + text;
    let n = front.len() as int;
    let p = skip_space(text, 0);
    lemma_skip_space(text, 0);
    lemma_front_is_skipped(front, text, 0);
    if p < text.len() {
        assert(all[n + p] == text[p]);
        if text[p] == 0x7b {
            lemma_members_move(front, text, p + 1, true);
            if let Some(members) = members_from(text, p + 1, true) {
                let moved = moved_members(Some(members), n)->Some_0;
                lemma_repeats_stay(members, names, n);
                if no_repeats(members, names) {
                    assert forall|k: int| 0 <= k < names.len() implies value_of(
                        moved,
                        #[trigger] names[k]@,
                    ) == moved_field(value_of(members, names[k]@), n) by {
                        lemma_value_of_moves(members, names[k]@, n);
                    }
                    assert(fields_of(all, names)->Some_0 =~= moved_fields(
                        fields_of(text, names),
                        n,
                    )->Some_0);
                }
            }
        } else if text[p] == 0x5b {
            lemma_elements_move(front, text, p + 1, true);
            if let Some(spans) = elements_from(text, p + 1, true) {
                if spans.len() <= names.len() {
                    assert(fields_of(all, names)->Some_0 =~= moved_fields(
                        fields_of(text, names),
                        n,
                    )->Some_0);
                }
            }
        }
    }
}

proof fn lemma_span_moves(front: Seq<u8>, text: Seq<u8>, span: SpanView)
    requires
        span.within(text),
    ensures
        moved_span(span, front.len() as int).of(front + text) == span.of(text),
        (front + text)[span.start + front.len()] == text[span.start],
{
    assert(moved_span(span, front.len() as int).of(front + text) =~= span.of(text));
}

/// A text of a message, `by` bytes being put in front of the message.
pub open spec fn moved_raw(raw: RawView, by: int) -> RawView {
    RawView {
        text: raw.text,
        offset: match raw.offset {
            None => None,
            Some(offset) => Some(offset + by),
        },
    }
}

/// An optional text of a message, `by` bytes being put in front of the message.
pub open spec fn moved_optional(raw: Option<RawView>, by: int) -> Option<RawView> {
    match raw {
        None => None,
        Some(r) => Some(moved_raw(r, by)),
    }
}

/// An error object, `by` bytes being put in front of the message.
pub open spec fn moved_error(error: ErrorView, by: int) -> ErrorView {
    ErrorView {
        code: error.code,
        message: error.message,
        data: moved_optional(error.data, by),
    }
}

spec fn moved_probe(probe: ProbeView, by: int) -> ProbeView {
    ProbeView {
        id: probe.id,
        method: probe.method,
        params: moved_optional(probe.params, by),
        result: moved_optional(probe.result, by),
        error: match probe.error {
            None => None,
            Some(error) => Some(moved_error(error, by)),
        },
    }
}

/// An item of a batch, `by` bytes being put in front of the message.
pub open spec fn moved_item(item: BatchItemView, by: int) -> BatchItemView {
    match item {
        BatchItemView::Response(r) => BatchItemView::Response(
            ResponseView { id: r.id, result: moved_raw(r.result, by) },
        ),
        BatchItemView::ErrorResponse(e) => BatchItemView::ErrorResponse(
            ErrorResponseView { id: e.id, error: moved_error(e.error, by) },
        ),
    }
}

/// A message, `by` bytes being put in front of it: it says the same, and its
/// texts stand that much further on.
pub open spec fn moved_message(message: IncomingView, by: int) -> IncomingView {
    match message {
        IncomingView::Response(r) => IncomingView::Response(
            ResponseView { id: r.id, result: moved_raw(r.result, by) },
        ),
        IncomingView::ErrorResponse(e) => IncomingView::ErrorResponse(
            ErrorResponseView { id: e.id, error: moved_error(e.error, by) },
        ),
        IncomingView::Notification(n) => IncomingView::Notification(
            NotificationView { method: n.method, params: moved_optional(n.params, by) },
        ),
        IncomingView::BatchResponse(items) => IncomingView::BatchResponse(
            Seq::new(items.len(), |i: int| moved_item(items[i], by)),
        ),
    }
}

/// What becomes of a message, `by` bytes of whitespace being put in front of it.
pub open spec fn moved_outcome(outcome: Result<IncomingView, Refusal>, by: int) -> Result<
    IncomingView,
    Refusal,
> {
    match outcome {
        Ok(message) => Ok(moved_message(message, by)),
        Err(refusal) => Err(refusal),
    }
}

proof fn lemma_error_object_moves(text: Seq<u8>, at: int, by: int)
    ensures
        error_object(text, at + by) == match error_object(text, at) {
            None => None,
            Some(error) => Some(moved_error(error, by)),
        },
{
}

/// Where in the message a probe begins matters to nothing but where its texts
/// stand.
proof fn lemma_probe_moves(text: Seq<u8>, at: int, depth: nat, by: int)
    ensures
        probe_of(text, at + by, depth) == match probe_of(text, at, depth) {
            None => None,
            Some(probe) => Some(moved_probe(probe, by)),
        },
{
    if let Some(f) = fields_of(text, PROBE_FIELDS@) {
        assert(error_field(text, at + by, f[5]) == match error_field(text, at, f[5]) {
            None => None,
            Some(None) => Some(None),
            Some(Some(error)) => Some(Some(moved_error(error, by))),
        }) by {
            if let Some(span) = f[5] {
                lemma_error_object_moves(span.of(text), at + span.start, by);
                assert(at + by + span.start == at + span.start + by);
            }
        }
    }
}

/// A probe behind whitespace is the probe that begins that much further on.
proof fn lemma_probe_behind_space(front: Seq<u8>, text: Seq<u8>, at: int, depth: nat)
    requires
        forall|i: int| 0 <= i < front.len() ==> json_space_byte(#[trigger] front[i]),
    ensures
        probe_of(front + text, at, depth) == probe_of(text, at + front.len(), depth),
{
    let n = front.len() as int;
    lemma_fields_move(front, text, PROBE_FIELDS@);
    lemma_fields_within(text, PROBE_FIELDS@);
    if let Some(f) = fields_of(text, PROBE_FIELDS@) {
        let g = fields_of(front + text, PROBE_FIELDS@)->Some_0;
        assert forall|k: int| 0 <= k < f.len() implies (#[trigger] f[k] matches Some(span) ==> {
            &&& g[k] == Some(moved_span(span, n))
            &&& moved_span(span, n).of(front + text) == span.of(text)
            &&& (front + text)[span.start + n] == text[span.start]
        }) by {
            if let Some(span) = f[k] {
                lemma_span_moves(front, text, span);
            }
        }
        assert(f.len() == 6);
        assert(raw_unless_null(front + text, at, g[3]) == raw_unless_null(text, at + n, f[3]));
        assert(raw_of(front + text, at, g[4]) == raw_of(text, at + n, f[4]));
        assert(error_field(front + text, at, g[5]) == error_field(text, at + n, f[5])) by {
            if let Some(span) = f[5] {
                assert(at + (span.start + n) == at + n + span.start);
            }
        }
    }
}

proof fn lemma_probes_move(front: Seq<u8>, text: Seq<u8>, spans: Seq<SpanView>)
    requires
        forall|k: int| 0 <= k < spans.len() ==> (#[trigger] spans[k]).within(text),
    ensures
        probes_at(front + text, moved_spans(Some(spans), front.len() as int)->Some_0)
            == match probes_at(text, spans) {
            None => None,
            Some(probes) => Some(
                Seq::new(probes.len(), |k: int| moved_probe(probes[k], front.len() as int)),
            ),
        },
    decreases spans.len(),
{
    let n = front.len() as int;
    let moved = moved_spans(Some(spans), n)->Some_0;
    if spans.len() == 0 {
        assert(Seq::new(0, |k: int| moved_probe(Seq::<ProbeView>::empty()[k], n)) =~= Seq::empty());
    } else {
        let last = spans.last();
        assert(spans[spans.len() - 1] == last);
        assert(moved.last() == moved_span(last, n));
        assert(moved.drop_last() =~= moved_spans(Some(spans.drop_last()), n)->Some_0);
        lemma_probes_move(front, text, spans.drop_last());
        lemma_span_moves(front, text, last);
        lemma_probe_moves(last.of(text), last.start, 2, n);
        if let Some(probes) = probes_at(text, spans.drop_last()) {
            if let Some(probe) = probe_of(last.of(text), last.start, 2) {
                let before = Seq::new(probes.len(), |k: int| moved_probe(probes[k], n));
                let all = probes.push(probe);
                assert(before.push(moved_probe(probe, n)) =~= Seq::new(
                    all.len(),
                    |k: int| moved_probe(all[k], n),
                ));
            }
        }
    }
}

proof fn lemma_response_moves(probe: ProbeView, by: int)
    ensures
        response_of(moved_probe(probe, by)) == match response_of(probe) {
            Some(Ok(item)) => Some(Ok::<BatchItemView, Seq<char>>(moved_item(item, by))),
            other => other,
        },
{
}

proof fn lemma_responses_move(probes: Seq<ProbeView>, by: int)
    ensures
        responses_of(Seq::new(probes.len(), |k: int| moved_probe(probes[k], by)))
            == match responses_of(probes) {
            Ok(items) => Ok::<Seq<BatchItemView>, Seq<char>>(
                Seq::new(items.len(), |k: int| moved_item(items[k], by)),
            ),
            Err(why) => Err::<Seq<BatchItemView>, Seq<char>>(why),
        },
    decreases probes.len(),
{
    let moved = Seq::new(probes.len(), |k: int| moved_probe(probes[k], by));
    if probes.len() == 0 {
        assert(Seq::new(0, |k: int| moved_item(Seq::<BatchItemView>::empty()[k], by))
            =~= Seq::empty());
    } else {
        let head = probes.drop_last();
        assert(moved.drop_last() =~= Seq::new(head.len(), |k: int| moved_probe(head[k], by)));
        assert(moved.last() == moved_probe(probes.last(), by));
        lemma_responses_move(head, by);
        lemma_response_moves(probes.last(), by);
        if let Ok(items) = responses_of(head) {
            if let Some(Ok(item)) = response_of(probes.last()) {
                let before = Seq::new(items.len(), |k: int| moved_item(items[k], by));
                let all = items.push(item);
                assert(before.push(moved_item(item, by)) =~= Seq::new(
                    all.len(),
                    |k: int| moved_item(all[k], by),
                ));
            }
        }
    }
}

proof fn lemma_message_moves(probe: ProbeView, by: int)
    ensures
        message_of(moved_probe(probe, by)) == match message_of(probe) {
            Ok(message) => Ok::<IncomingView, Seq<char>>(moved_message(message, by)),
            Err(why) => Err::<IncomingView, Seq<char>>(why),
        },
{
    lemma_response_moves(probe, by);
}

proof fn lemma_opens_batch_behind(front: Seq<u8>, text: Seq<u8>, pos: int)
    requires
        0 <= pos,
    ensures
        opens_batch(front + text, front.len() + pos) == opens_batch(text, pos),
    decreases text.len() - pos,
{
    if pos < text.len() {
        assert((front + text)[front.len() + pos] == text[pos]);
        lemma_opens_batch_behind(front, text, pos + 1);
    }
}

proof fn lemma_front_opens_nothing(front: Seq<u8>, text: Seq<u8>, pos: int)
    requires
        0 <= pos <= front.len(),
        forall|i: int| 0 <= i < front.len() ==> json_space_byte(#[trigger] front[i]),
    ensures
        opens_batch(front + text, pos) == opens_batch(text, 0),
    decreases front.len() - pos,
{
    if pos == front.len() {
        lemma_opens_batch_behind(front, text, 0);
    } else {
        assert((front + text)[pos] == front[pos]);
        lemma_front_opens_nothing(front, text, pos + 1);
    }
}

/// JSON whitespace in front of a message changes nothing of what it says: it is
/// accepted or refused as before, for the same reason, and its texts are the
/// same and stand that much further on.
pub proof fn law_leading_space_changes_nothing(front: Seq<u8>, text: Seq<u8>)
    requires
        forall|i: int| 0 <= i < front.len() ==> json_space_byte(#[trigger] front[i]),
    ensures
        opens_batch(front + text, 0) == opens_batch(text, 0),
        decoded(front + text, opens_batch(front + text, 0)) == moved_outcome(
            decoded(text, opens_batch(text, 0)),
            front.len() as int,
        ),
{
    let n = front.len() as int;
    lemma_front_opens_nothing(front, text, 0);
    if opens_batch(text, 0) {
        let p = skip_space(text, 0);
        lemma_skip_space(text, 0);
        lemma_front_is_skipped(front, text, 0);
        if p < text.len() {
            assert((front + text)[n + p] == text[p]);
            lemma_elements_move(front, text, p + 1, true);
            lemma_elements_within(text, p + 1, true);
            if let Some(spans) = elements_from(text, p + 1, true) {
                lemma_probes_move(front, text, spans);
            }
        }
        if let Some(probes) = batch_of(text) {
            lemma_responses_move(probes, n);
        }
    } else {
        lemma_probe_behind_space(front, text, 0, 1);
        lemma_probe_moves(text, 0, 1, n);
        if let Some(probe) = probe_of(text, 0, 1) {
            lemma_message_moves(probe, n);
        }
    }
}

proof fn lemma_encoded_space(front: Seq<char>, text: Seq<char>)
    requires
        forall|i: int| 0 <= i < front.len() ==> json_space(#[trigger] front[i]),
    ensures
        vstd::utf8::encode_utf8(front + text) == vstd::utf8::encode_utf8(front)
            + vstd::utf8::encode_utf8(text),
        vstd::utf8::encode_utf8(front).len() == front.len(),
        forall|i: int|
            0 <= i < front.len() ==> json_space_byte(#[trigger] vstd::utf8::encode_utf8(front)[i]),
        first_visible(front + text) == first_visible(text),
    decreases front.len(),
{
    if front.len() == 0 {
        assert(front + text =~= text);
        assert(vstd::utf8::encode_utf8(front) + vstd::utf8::encode_utf8(text)
            =~= vstd::utf8::encode_utf8(text));
    } else {
        let rest = front.drop_first();
        lemma_encoded_space(rest, text);
        assert((front + text).drop_first() =~= rest + text);
        assert((front + text)[0] == front[0]);
        let scalar = front[0] as u32;
        assert(scalar == 0x20 || scalar == 0x0a || scalar == 0x09 || scalar == 0x0d);
        let byte = vstd::utf8::leading_byte_width_1(scalar);
        assert(byte == scalar) by {
            assert((scalar & 0x7f) == scalar) by (bit_vector)
                requires
                    scalar <= 0x7f,
            ;
        }
        assert(vstd::utf8::encode_scalar(scalar) =~= seq![byte]);
        let tail = vstd::utf8::encode_utf8(rest);
        assert(vstd::utf8::encode_utf8(front) =~= seq![byte] + tail);
        assert(seq![byte] + (tail + vstd::utf8::encode_utf8(text)) =~= (seq![byte] + tail)
            + vstd::utf8::encode_utf8(text));
        assert forall|i: int| 0 <= i < front.len() implies json_space_byte(
            #[trigger] vstd::utf8::encode_utf8(front)[i],
        ) by {
            if i > 0 {
                assert(vstd::utf8::encode_utf8(front)[i] == tail[i - 1]);
            }
        }
    }
}

/// JSON whitespace in front of a message that is given as text changes nothing
/// of what it says: its texts are the same and stand that much further on.
pub proof fn law_leading_space_in_text_changes_nothing(front: Seq<char>, text: Seq<char>)
    requires
        forall|i: int| 0 <= i < front.len() ==> json_space(#[trigger] front[i]),
    ensures
        first_visible(front + text) == first_visible(text),
        decoded(
            vstd::utf8::encode_utf8(front + text),
            first_visible(front + text) == Some('['),
        ) == moved_outcome(
            decoded(vstd::utf8::encode_utf8(text), first_visible(text) == Some('[')),
            front.len() as int,
        ),
{
    lemma_encoded_space(front, text);
    law_text_and_bytes_decode_alike(text);
    law_text_and_bytes_decode_alike(front + text);
    law_leading_space_changes_nothing(
        vstd::utf8::encode_utf8(front),
        vstd::utf8::encode_utf8(text),
    );
}

/// An accepted message is a batch exactly if an opening square bracket is the
/// first thing in it behind whitespace.
pub proof fn law_bracket_makes_a_batch(bytes: Seq<u8>)
    ensures
        decoded(bytes, opens_batch(bytes, 0)) matches Ok(message) ==> {
            let p = skip_space(bytes, 0);
            &&& p < bytes.len()
            &&& message is BatchResponse <==> bytes[p] == 0x5b
            &&& message is BatchResponse <==> opens_batch(bytes, 0)
        },
{
    let p = skip_space(bytes, 0);
    if p < bytes.len() && (bytes[p] == 0x5b || bytes[p] == 0x7b) {
        lemma_opens_at_token(bytes, 0);
    }
}

} // verus!
