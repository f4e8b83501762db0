//! How JSON objects and arrays are laid out, and that they are read so.

use crate::json::{json_number, json_string, json_value_len};
use crate::wire::{
    at_most_once, blank_from, elements_from, fields, fields_of, item_start, key_at,
    lemma_member_advances, lemma_skip_space, member_at, member_value, members_from, next_token,
    no_repeats, optional_spans, skip_space, span_views, storable, value_end, value_of, MemberView,
    Span, SpanView,
};
use vstd::prelude::*;

verus! {

/// Whether a byte may stand between the tokens of a JSON text.
pub open spec fn space(b: u8) -> bool {
    b == 0x20 || b == 0x09 || b == 0x0a || b == 0x0d
}

/// Whether nothing but whitespace stands in `text` from `a` up to `b`.
pub open spec fn blank(text: Seq<u8>, a: int, b: int) -> bool {
    &&& 0 <= a <= b <= text.len()
    &&& forall|i: int| a <= i < b ==> space(#[trigger] text[i])
}

/// Whether the byte `c` stands in `text` at `m`, with nothing but whitespace
/// around it from `a` up to `b`.
pub open spec fn token_at(text: Seq<u8>, a: int, m: int, b: int, c: u8) -> bool {
    &&& blank(text, a, m)
    &&& m < text.len() && text[m] == c
    &&& blank(text, m + 1, b)
}

/// Whether the byte `c` stands alone in `text` from `a` up to `b`.
pub open spec fn token(text: Seq<u8>, a: int, b: int, c: u8) -> bool {
    exists|m: int| #[trigger] token_at(text, a, m, b, c)
}

/// Whether a JSON value takes up `text` from `a` up to `b`.
pub open spec fn value_at(text: Seq<u8>, a: int, b: int) -> bool {
    &&& 0 <= a < b <= text.len()
    &&& !space(text[a])
    &&& json_value_len(text.subrange(a, text.len() as int)) == Some((b - a) as nat)
}

/// Whether an item of a list begins at `b`, the list being read up to `a`: a comma
/// stands before every item but the first.
pub open spec fn gap(text: Seq<u8>, a: int, b: int, first: bool) -> bool {
    if first {
        blank(text, a, b)
    } else {
        token(text, a, b, 0x2c)
    }
}

/// Whether `member` is laid out in `text` with its key at `key`: a string, a colon
/// and a value.
pub open spec fn member_laid(text: Seq<u8>, key: SpanView, member: MemberView) -> bool {
    &&& value_at(text, key.start, key.end)
    &&& text[key.start] == 0x22
    &&& json_string(text.subrange(key.start, key.end)) == Some(member.key)
    &&& token(text, key.end, member.value.start, 0x3a)
    &&& value_at(text, member.value.start, member.value.end)
}

/// Whether the rest of an object that is read up to `pos` is laid out in `text`
/// with these keys and members, and ends the text.
pub open spec fn members_laid(
    text: Seq<u8>,
    pos: int,
    first: bool,
    keys: Seq<SpanView>,
    members: Seq<MemberView>,
) -> bool {
    &&& keys.len() == members.len()
    &&& members.len() == 0 ==> token(text, pos, text.len() as int, 0x7d)
    &&& members.len() > 0 ==> gap(text, pos, keys[0].start, first) && token(
        text,
        members.last().value.end,
        text.len() as int,
        0x7d,
    )
    &&& forall|i: int|
        0 <= i < members.len() ==> member_laid(text, #[trigger] keys[i], members[i])
    &&& forall|i: int, j: int|
        0 <= i < members.len() && j == i + 1 && j < members.len() ==> token(
            text,
            (#[trigger] members[i]).value.end,
            (#[trigger] keys[j]).start,
            0x2c,
        )
}

/// Whether the rest of an array that is read up to `pos` is laid out in `text` with
/// these elements, and ends the text.
pub open spec fn elements_laid(text: Seq<u8>, pos: int, first: bool, spans: Seq<SpanView>) -> bool {
    &&& spans.len() == 0 ==> token(text, pos, text.len() as int, 0x5d)
    &&& spans.len() > 0 ==> gap(text, pos, spans[0].start, first) && token(
        text,
        spans.last().end,
        text.len() as int,
        0x5d,
    )
    &&& forall|i: int|
        0 <= i < spans.len() ==> value_at(text, (#[trigger] spans[i]).start, spans[i].end)
            && text[spans[i].start] != 0x5d
    &&& forall|i: int, j: int|
        0 <= i < spans.len() && j == i + 1 && j < spans.len() ==> token(
            text,
            (#[trigger] spans[i]).end,
            (#[trigger] spans[j]).start,
            0x2c,
        )
}

/// Whether `text` is laid out as an object that opens at `open`.
pub open spec fn object_laid(
    text: Seq<u8>,
    open: int,
    keys: Seq<SpanView>,
    members: Seq<MemberView>,
) -> bool {
    &&& blank(text, 0, open)
    &&& open < text.len() && text[open] == 0x7b
    &&& members_laid(text, open + 1, true, keys, members)
}

/// Whether `text` is laid out as an array that opens at `open`.
pub open spec fn array_laid(text: Seq<u8>, open: int, spans: Seq<SpanView>) -> bool {
    &&& blank(text, 0, open)
    &&& open < text.len() && text[open] == 0x5b
    &&& elements_laid(text, open + 1, true, spans)
}

proof fn lemma_skip_to(text: Seq<u8>, a: int, b: int)
    requires
        blank(text, a, b),
        b < text.len() ==> !space(text[b]),
    ensures
        skip_space(text, a) == b,
    decreases b - a,
{
    if a < b {
        assert(space(text[a]));
        lemma_skip_to(text, a + 1, b);
    }
}

proof fn lemma_skipped(text: Seq<u8>, a: int)
    requires
        0 <= a <= text.len(),
    ensures
        blank(text, a, skip_space(text, a)),
        skip_space(text, a) < text.len() ==> !space(text[skip_space(text, a)]),
    decreases text.len() - a,
{
    if a < text.len() && space(text[a]) {
        lemma_skipped(text, a + 1);
    }
}

proof fn lemma_value(text: Seq<u8>, a: int, b: int)
    requires
        0 <= a <= text.len(),
        a < text.len() ==> !space(text[a]),
    ensures
        value_end(text, a) == Some(b) <==> value_at(text, a, b),
{
    if a == text.len() {
        assert(text.subrange(a, text.len() as int).len() == 0);
    }
}

proof fn lemma_token_reads(text: Seq<u8>, a: int, b: int, c: u8)
    requires
        token(text, a, b, c),
        !space(c),
        b < text.len() ==> !space(text[b]),
    ensures
        0 <= a <= text.len(),
        skip_space(text, a) < text.len(),
        text[skip_space(text, a)] == c,
        skip_space(text, skip_space(text, a) + 1) == b,
{
    let m = choose|m: int| #[trigger] token_at(text, a, m, b, c);
    lemma_skip_to(text, a, m);
    lemma_skip_to(text, m + 1, b);
}

proof fn lemma_token_read(text: Seq<u8>, a: int, c: u8)
    requires
        0 <= a <= text.len(),
        skip_space(text, a) < text.len(),
        text[skip_space(text, a)] == c,
    ensures
        token(text, a, skip_space(text, skip_space(text, a) + 1), c),
        skip_space(text, skip_space(text, a) + 1) < text.len() ==> !space(
            text[skip_space(text, skip_space(text, a) + 1)],
        ),
{
    let m = skip_space(text, a);
    lemma_skip_space(text, a);
    lemma_skipped(text, a);
    lemma_skipped(text, m + 1);
    assert(token_at(text, a, m, skip_space(text, m + 1), c));
}

proof fn lemma_gap_reads(text: Seq<u8>, a: int, b: int, first: bool)
    requires
        gap(text, a, b, first),
        b < text.len() ==> !space(text[b]),
    ensures
        item_start(text, a, first) == Some(b),
        0 <= a,
        first ==> skip_space(text, a) == b,
        !first ==> skip_space(text, a) < text.len() && text[skip_space(text, a)] == 0x2c,
{
    if first {
        lemma_skip_to(text, a, b);
    } else {
        lemma_token_reads(text, a, b, 0x2c);
    }
}

proof fn lemma_gap_read(text: Seq<u8>, a: int, first: bool)
    requires
        0 <= a <= text.len(),
        item_start(text, a, first) is Some,
    ensures
        gap(text, a, item_start(text, a, first)->Some_0, first),
        item_start(text, a, first)->Some_0 < text.len() ==> !space(
            text[item_start(text, a, first)->Some_0],
        ),
        a <= item_start(text, a, first)->Some_0 <= text.len(),
{
    lemma_skip_space(text, a);
    lemma_skipped(text, a);
    if !first {
        lemma_token_read(text, a, 0x2c);
        lemma_skip_space(text, skip_space(text, a) + 1);
    }
}

proof fn lemma_elements_tail(text: Seq<u8>, pos: int, first: bool, spans: Seq<SpanView>)
    requires
        spans.len() > 0,
    ensures
        elements_laid(text, pos, first, spans) <==> {
            &&& gap(text, pos, spans[0].start, first)
            &&& value_at(text, spans[0].start, spans[0].end)
            &&& text[spans[0].start] != 0x5d
            &&& elements_laid(text, spans[0].end, false, spans.drop_first())
        },
{
    let rest = spans.drop_first();
    if elements_laid(text, pos, first, spans) {
        if rest.len() > 0 {
            assert(rest[0] == spans[1]);
            assert(token(text, spans[0].end, spans[1].start, 0x2c));
            assert(rest.last() == spans.last());
        } else {
            assert(spans.last() == spans[0]);
        }
        assert forall|i: int, j: int|
            0 <= i < rest.len() && j == i + 1 && j < rest.len() implies token(
            text,
            (#[trigger] rest[i]).end,
            (#[trigger] rest[j]).start,
            0x2c,
        ) by {
            assert(rest[i] == spans[i + 1] && rest[j] == spans[j + 1]);
        }
        assert forall|i: int| 0 <= i < rest.len() implies value_at(
            text,
            (#[trigger] rest[i]).start,
            rest[i].end,
        ) && text[rest[i].start] != 0x5d by {
            assert(rest[i] == spans[i + 1]);
        }
    }
    if gap(text, pos, spans[0].start, first) && value_at(text, spans[0].start, spans[0].end)
        && text[spans[0].start] != 0x5d && elements_laid(text, spans[0].end, false, rest) {
        if rest.len() > 0 {
            assert(rest[0] == spans[1]);
            assert(rest.last() == spans.last());
        } else {
            assert(spans.last() == spans[0]);
        }
        assert forall|i: int, j: int|
            0 <= i < spans.len() && j == i + 1 && j < spans.len() implies token(
            text,
            (#[trigger] spans[i]).end,
            (#[trigger] spans[j]).start,
            0x2c,
        ) by {
            if i > 0 {
                assert(rest[i - 1] == spans[i] && rest[j - 1] == spans[j]);
            }
        }
        assert forall|i: int| 0 <= i < spans.len() implies value_at(
            text,
            (#[trigger] spans[i]).start,
            spans[i].end,
        ) && text[spans[i].start] != 0x5d by {
            if i > 0 {
                assert(rest[i - 1] == spans[i]);
            }
        }
    }
}

proof fn lemma_elements_read(text: Seq<u8>, pos: int, first: bool, spans: Seq<SpanView>)
    requires
        elements_laid(text, pos, first, spans),
    ensures
        elements_from(text, pos, first) == Some(spans),
        0 <= pos <= text.len(),
    decreases spans.len(),
{
    if spans.len() == 0 {
        lemma_token_reads(text, pos, text.len() as int, 0x5d);
        assert(spans =~= Seq::empty());
    } else {
        lemma_elements_tail(text, pos, first, spans);
        let start = spans[0].start;
        let end = spans[0].end;
        lemma_gap_reads(text, pos, start, first);
        lemma_value(text, start, end);
        lemma_elements_read(text, end, false, spans.drop_first());
        if first {
            assert(skip_space(text, pos) == start);
        }
        assert(spans =~= seq![SpanView { start, end }] + spans.drop_first());
    }
}

proof fn lemma_elements_laid(text: Seq<u8>, pos: int, first: bool)
    requires
        0 <= pos <= text.len(),
        elements_from(text, pos, first) is Some,
    ensures
        elements_laid(text, pos, first, elements_from(text, pos, first)->Some_0),
    decreases text.len() - pos,
{
    let spans = elements_from(text, pos, first)->Some_0;
    let p = skip_space(text, pos);
    lemma_skip_space(text, pos);
    if text[p] == 0x5d {
        lemma_token_read(text, pos, 0x5d);
    } else {
        lemma_gap_read(text, pos, first);
        let start = item_start(text, pos, first)->Some_0;
        let end = value_end(text, start)->Some_0;
        lemma_value(text, start, end);
        lemma_elements_laid(text, end, false);
        let rest = elements_from(text, end, false)->Some_0;
        assert(spans =~= seq![SpanView { start, end }] + rest);
        assert(spans.drop_first() =~= rest);
        lemma_elements_tail(text, pos, first, spans);
    }
}

proof fn lemma_member_read(text: Seq<u8>, key: SpanView, member: MemberView)
    requires
        member_laid(text, key, member),
    ensures
        member_at(text, key.start) == Some(member),
{
    lemma_value(text, key.start, key.end);
    lemma_token_reads(text, key.end, member.value.start, 0x3a);
    lemma_value(text, member.value.start, member.value.end);
    assert(member.value == SpanView { start: member.value.start, end: member.value.end });
    assert(member == MemberView { key: member.key, value: member.value });
}

proof fn lemma_member_laid(text: Seq<u8>, start: int)
    requires
        0 <= start,
        start < text.len() ==> !space(text[start]),
        member_at(text, start) is Some,
    ensures
        member_laid(
            text,
            SpanView { start, end: key_at(text, start)->Some_0.1 },
            member_at(text, start)->Some_0,
        ),
{
    let (name, end) = key_at(text, start)->Some_0;
    lemma_value(text, start, end);
    lemma_token_read(text, end, 0x3a);
    let colon = skip_space(text, end);
    lemma_skip_space(text, end);
    lemma_skip_space(text, colon + 1);
    let value = member_value(text, end)->Some_0;
    lemma_value(text, value.start, value.end);
}

proof fn lemma_members_tail(
    text: Seq<u8>,
    pos: int,
    first: bool,
    keys: Seq<SpanView>,
    members: Seq<MemberView>,
)
    requires
        members.len() > 0,
        keys.len() == members.len(),
    ensures
        members_laid(text, pos, first, keys, members) <==> {
            &&& gap(text, pos, keys[0].start, first)
            &&& member_laid(text, keys[0], members[0])
            &&& members_laid(
                text,
                members[0].value.end,
                false,
                keys.drop_first(),
                members.drop_first(),
            )
        },
{
    let ks = keys.drop_first();
    let ms = members.drop_first();
    if members_laid(text, pos, first, keys, members) {
        if ms.len() > 0 {
            assert(ks[0] == keys[1]);
            assert(token(text, members[0].value.end, keys[1].start, 0x2c));
            assert(ms.last() == members.last());
        } else {
            assert(members.last() == members[0]);
        }
        assert forall|i: int, j: int|
            0 <= i < ms.len() && j == i + 1 && j < ms.len() implies token(
            text,
            (#[trigger] ms[i]).value.end,
            (#[trigger] ks[j]).start,
            0x2c,
        ) by {
            assert(ms[i] == members[i + 1] && ks[j] == keys[j + 1]);
        }
        assert forall|i: int| 0 <= i < ms.len() implies member_laid(
            text,
            #[trigger] ks[i],
            ms[i],
        ) by {
            assert(ks[i] == keys[i + 1]);
        }
    }
    if gap(text, pos, keys[0].start, first) && member_laid(text, keys[0], members[0])
        && members_laid(text, members[0].value.end, false, ks, ms) {
        if ms.len() > 0 {
            assert(ks[0] == keys[1]);
            assert(ms.last() == members.last());
        } else {
            assert(members.last() == members[0]);
        }
        assert forall|i: int, j: int|
            0 <= i < members.len() && j == i + 1 && j < members.len() implies token(
            text,
            (#[trigger] members[i]).value.end,
            (#[trigger] keys[j]).start,
            0x2c,
        ) by {
            if i > 0 {
                assert(ms[i - 1] == members[i] && ks[j - 1] == keys[j]);
            }
        }
        assert forall|i: int| 0 <= i < members.len() implies member_laid(
            text,
            #[trigger] keys[i],
            members[i],
        ) by {
            if i > 0 {
                assert(ks[i - 1] == keys[i] && ms[i - 1] == members[i]);
            }
        }
    }
}

proof fn lemma_members_read(
    text: Seq<u8>,
    pos: int,
    first: bool,
    keys: Seq<SpanView>,
    members: Seq<MemberView>,
)
    requires
        members_laid(text, pos, first, keys, members),
    ensures
        members_from(text, pos, first) == Some(members),
        0 <= pos <= text.len(),
    decreases members.len(),
{
    if members.len() == 0 {
        lemma_token_reads(text, pos, text.len() as int, 0x7d);
        assert(members =~= Seq::empty());
    } else {
        lemma_members_tail(text, pos, first, keys, members);
        let start = keys[0].start;
        lemma_gap_reads(text, pos, start, first);
        lemma_member_read(text, keys[0], members[0]);
        lemma_members_read(
            text,
            members[0].value.end,
            false,
            keys.drop_first(),
            members.drop_first(),
        );
        if first {
            assert(skip_space(text, pos) == start);
        }
        assert(members =~= seq![members[0]] + members.drop_first());
    }
}

proof fn lemma_members_laid(text: Seq<u8>, pos: int, first: bool) -> (keys: Seq<SpanView>)
    requires
        0 <= pos <= text.len(),
        members_from(text, pos, first) is Some,
    ensures
        members_laid(text, pos, first, keys, members_from(text, pos, first)->Some_0),
    decreases text.len() - pos,
{
    let members = members_from(text, pos, first)->Some_0;
    let p = skip_space(text, pos);
    lemma_skip_space(text, pos);
    if text[p] == 0x7d {
        lemma_token_read(text, pos, 0x7d);
        Seq::empty()
    } else {
        lemma_gap_read(text, pos, first);
        let start = item_start(text, pos, first)->Some_0;
        lemma_member_advances(text, start);
        lemma_member_laid(text, start);
        let here = member_at(text, start)->Some_0;
        let end = here.value.end;
        let rest_keys = lemma_members_laid(text, end, false);
        let rest = members_from(text, end, false)->Some_0;
        let key = SpanView { start, end: key_at(text, start)->Some_0.1 };
        let keys = seq![key] + rest_keys;
        assert(members =~= seq![here] + rest);
        assert(members.drop_first() =~= rest);
        assert(keys.drop_first() =~= rest_keys);
        lemma_members_tail(text, pos, first, keys, members);
        keys
    }
}

proof fn lemma_value_found(members: Seq<MemberView>, name: Seq<char>)
    ensures
        value_of(members, name) is None <==> forall|i: int|
            0 <= i < members.len() ==> (#[trigger] members[i]).key != name,
        value_of(members, name) matches Some(v) ==> exists|i: int|
            0 <= i < members.len() && (#[trigger] members[i]).key == name && members[i].value == v,
    decreases members.len(),
{
    if members.len() > 0 {
        let head = members.drop_last();
        lemma_value_found(head, name);
        let n = members.len() - 1;
        assert(members[n] == members.last());
        if members.last().key != name {
            if let Some(v) = value_of(head, name) {
                let i = choose|i: int|
                    0 <= i < head.len() && (#[trigger] head[i]).key == name && head[i].value == v;
                assert(members[i] == head[i]);
            } else {
                assert forall|i: int| 0 <= i < members.len() implies (#[trigger] members[i]).key
                    != name by {
                    if i < n {
                        assert(head[i] == members[i]);
                    }
                }
            }
        }
    }
}

/// An object gives each field the value of the member that has its name, and
/// leaves out exactly those fields that no member is named after. Members of other
/// names are passed over. It is refused only if a field is named twice.
pub proof fn law_objects_give_fields_by_name(
    text: Seq<u8>,
    names: Seq<&'static str>,
    open: int,
    keys: Seq<SpanView>,
    members: Seq<MemberView>,
)
    requires
        object_laid(text, open, keys, members),
    ensures
        fields_of(text, names) is None <==> exists|k: int, i: int, j: int|
            0 <= k < names.len() && 0 <= i < j < members.len() && (#[trigger] members[i]).key == (
            #[trigger] names[k])@ && (#[trigger] members[j]).key == names[k]@,
        fields_of(text, names) matches Some(f) ==> {
            &&& f.len() == names.len()
            &&& forall|k: int|
                0 <= k < names.len() ==> (#[trigger] f[k] is None <==> forall|i: int|
                    0 <= i < members.len() ==> (#[trigger] members[i]).key != names[k]@)
            &&& forall|k: int, i: int|
                0 <= k < names.len() && 0 <= i < members.len() && (#[trigger] members[i]).key
                    == names[k]@ ==> #[trigger] f[k] == Some(members[i].value)
        },
{
    lemma_skip_to(text, 0, open);
    lemma_members_read(text, open + 1, true, keys, members);
    if no_repeats(members, names) {
        let f = fields_of(text, names)->Some_0;
        assert forall|k: int| 0 <= k < names.len() implies (#[trigger] f[k] is None <==> forall|
            i: int,
        | 0 <= i < members.len() ==> (#[trigger] members[i]).key != names[k]@) by {
            lemma_value_found(members, names[k]@);
        }
        assert forall|k: int, i: int|
            0 <= k < names.len() && 0 <= i < members.len() && (#[trigger] members[i]).key
                == names[k]@ implies #[trigger] f[k] == Some(members[i].value) by {
            lemma_value_found(members, names[k]@);
            assert(at_most_once(members, names[k]@));
            let v = value_of(members, names[k]@)->Some_0;
            let j = choose|j: int|
                0 <= j < members.len() && (#[trigger] members[j]).key == names[k]@
                    && members[j].value == v;
            if i < j {
                assert(members[j].key != names[k]@);
            } else if j < i {
                assert(members[i].key != names[k]@);
            }
        }
        assert forall|k: int, i: int, j: int|
            0 <= k < names.len() && 0 <= i < j < members.len() && (#[trigger] members[i]).key == (
            #[trigger] names[k])@ implies (#[trigger] members[j]).key != names[k]@ by {
            assert(at_most_once(members, names[k]@));
        }
    } else {
        let k = choose|k: int|
            0 <= k < names.len() && !at_most_once(members, #[trigger] names[k]@);
        let (i, j) = choose|i: int, j: int|
            0 <= i < j < members.len() && #[trigger] members[i].key == names[k]@
                && #[trigger] members[j].key == names[k]@;
        assert(members[i].key == names[k]@ && members[j].key == names[k]@);
    }
}

/// An array gives the fields its elements in their order, and leaves out those
/// beyond its end. It is refused only if it has more elements than there are
/// fields.
pub proof fn law_arrays_give_fields_in_order(
    text: Seq<u8>,
    names: Seq<&'static str>,
    open: int,
    spans: Seq<SpanView>,
)
    requires
        array_laid(text, open, spans),
    ensures
        fields_of(text, names) is None <==> spans.len() > names.len(),
        fields_of(text, names) matches Some(f) ==> {
            &&& f.len() == names.len()
            &&& forall|k: int|
                0 <= k < names.len() ==> #[trigger] f[k] == if k < spans.len() {
                    Some(spans[k])
                } else {
                    None
                }
        },
{
    lemma_skip_to(text, 0, open);
    lemma_elements_read(text, open + 1, true, spans);
}

/// Nothing gives fields but an object or an array that makes up the whole text.
pub proof fn law_only_objects_and_arrays_give_fields(text: Seq<u8>, names: Seq<&'static str>)
    requires
        fields_of(text, names) is Some,
    ensures
        ({
            ||| exists|open: int, keys: Seq<SpanView>, members: Seq<MemberView>| #[trigger]
                object_laid(text, open, keys, members)
            ||| exists|open: int, spans: Seq<SpanView>| #[trigger] array_laid(text, open, spans)
        }),
{
    let open = skip_space(text, 0);
    lemma_skip_space(text, 0);
    lemma_skipped(text, 0);
    if text[open] == 0x7b {
        let keys = lemma_members_laid(text, open + 1, true);
        let members = members_from(text, open + 1, true)->Some_0;
        assert(object_laid(text, open, keys, members));
    } else {
        lemma_elements_laid(text, open + 1, true);
        let spans = elements_from(text, open + 1, true)->Some_0;
        assert(array_laid(text, open, spans));
    }
}

/// The fields that are found are those of the text: each span that is returned is
/// the field at its place, and success and failure are told alike.
pub proof fn law_fields_are_returned(
    text: &[u8],
    names: &[&'static str],
    found: Result<Vec<Option<Span>>, serde_json::Error>,
)
    requires
        call_ensures(fields, (text, names), found),
    ensures
        found is Ok <==> fields_of(text@, names@) is Some,
        found matches Ok(list) ==> {
            &&& list@.len() == names@.len()
            &&& forall|k: int|
                0 <= k < list@.len() ==> match #[trigger] list@[k] {
                    None => fields_of(text@, names@)->Some_0[k] is None,
                    Some(span) => fields_of(text@, names@)->Some_0[k] == Some(
                        SpanView { start: span.start as int, end: span.end as int },
                    ),
                }
        },
{
    if let Ok(list) = found {
        assert forall|k: int| 0 <= k < list@.len() implies match #[trigger] list@[k] {
            None => fields_of(text@, names@)->Some_0[k] is None,
            Some(span) => fields_of(text@, names@)->Some_0[k] == Some(
                SpanView { start: span.start as int, end: span.end as int },
            ),
        } by {
            assert(optional_spans(list@)[k] == crate::wire::optional_span(list@[k]));
        }
    }
}

/// The elements that are read are those that the array is laid out with, and an
/// array is read whenever it is laid out as one.
pub proof fn law_elements_are_those_laid_out(
    text: &[u8],
    begin: usize,
    list: Result<Vec<Span>, serde_json::Error>,
)
    requires
        call_ensures(crate::wire::elements, (text, begin), list),
        begin <= text@.len(),
    ensures
        list matches Ok(spans) ==> elements_laid(
            text@,
            begin as int,
            true,
            Seq::new(
                spans@.len(),
                |i: int| SpanView { start: spans@[i].start as int, end: spans@[i].end as int },
            ),
        ),
        list is Err ==> forall|spans: Seq<SpanView>| !#[trigger] elements_laid(
            text@,
            begin as int,
            true,
            spans,
        ),
{
    if let Ok(spans) = list {
        lemma_elements_laid(text@, begin as int, true);
        assert(span_views(spans@) =~= Seq::new(
            spans@.len(),
            |i: int| SpanView { start: spans@[i].start as int, end: spans@[i].end as int },
        ));
    } else {
        assert forall|spans: Seq<SpanView>| !#[trigger] elements_laid(
            text@,
            begin as int,
            true,
            spans,
        ) by {
            if elements_laid(text@, begin as int, true, spans) {
                lemma_elements_read(text@, begin as int, true, spans);
            }
        }
    }
}

/// The next token is the first byte that is no whitespace.
pub proof fn law_next_token(text: &[u8], pos: usize, p: usize)
    requires
        call_ensures(next_token, (text, pos), p),
        pos <= text@.len(),
    ensures
        blank(text@, pos as int, p as int),
        p < text@.len() ==> !space(text@[p as int]),
{
    lemma_skipped(text@, pos as int);
}

/// What can be read into memory: a string that can be read, a number that can be
/// held, a literal, and a list or an object of such values that is not nested too
/// deep.
pub proof fn law_what_can_be_stored(
    text: Seq<u8>,
    room: nat,
    p: int,
    spans: Seq<SpanView>,
    keys: Seq<SpanView>,
    members: Seq<MemberView>,
)
    requires
        blank(text, 0, p),
        p < text.len() && !space(text[p]),
    ensures
        text[p] == 0x22 ==> (storable(text, room) <==> json_string(text) is Some),
        text[p] == 0x2d || 0x30 <= text[p] <= 0x39 ==> (storable(text, room) <==> json_number(
            text,
        )),
        text[p] == 0x5b && elements_laid(text, p + 1, true, spans) ==> (storable(text, room)
            <==> room >= 2 && forall|k: int|
            0 <= k < spans.len() ==> storable(
                text.subrange((#[trigger] spans[k]).start, spans[k].end),
                (room - 1) as nat,
            )),
        text[p] == 0x7b && members_laid(text, p + 1, true, keys, members) ==> (storable(text, room)
            <==> room >= 2 && forall|k: int|
            0 <= k < members.len() ==> storable(
                text.subrange((#[trigger] members[k]).value.start, members[k].value.end),
                (room - 1) as nat,
            )),
        text[p] != 0x22 && text[p] != 0x2d && !(0x30 <= text[p] <= 0x39) && text[p] != 0x5b
            && text[p] != 0x7b ==> (storable(text, room) <==> exists|e: int| #[trigger]
            value_at(text, p, e) && blank(text, e, text.len() as int)),
        text[p] == 0x5b && storable(text, room) ==> exists|found: Seq<SpanView>| #[trigger]
            elements_laid(text, p + 1, true, found),
        text[p] == 0x7b && storable(text, room) ==> exists|
            ks: Seq<SpanView>,
            found: Seq<MemberView>,
        | #[trigger]
            members_laid(text, p + 1, true, ks, found),
{
    lemma_skip_to(text, 0, p);
    if text[p] == 0x5b && storable(text, room) {
        lemma_elements_laid(text, p + 1, true);
    }
    if text[p] == 0x7b && storable(text, room) {
        let ks = lemma_members_laid(text, p + 1, true);
        assert(members_laid(text, p + 1, true, ks, members_from(text, p + 1, true)->Some_0));
    }
    if text[p] == 0x5b && elements_laid(text, p + 1, true, spans) {
        lemma_elements_read(text, p + 1, true, spans);
        let found = elements_from(text, p + 1, true)->Some_0;
        assert(found == spans);
        if storable(text, room) {
            assert forall|k: int| 0 <= k < spans.len() implies storable(
                text.subrange((#[trigger] spans[k]).start, spans[k].end),
                (room - 1) as nat,
            ) by {
                assert(storable(found[k].of(text), (room - 1) as nat));
            }
        } else if room >= 2 {
            let k = choose|k: int|
                0 <= k < found.len() && !storable((#[trigger] found[k]).of(text), (room - 1) as nat);
            assert(!storable(text.subrange(spans[k].start, spans[k].end), (room - 1) as nat));
        }
    }
    if text[p] == 0x7b && members_laid(text, p + 1, true, keys, members) {
        lemma_members_read(text, p + 1, true, keys, members);
        let found = members_from(text, p + 1, true)->Some_0;
        assert(found == members);
        if storable(text, room) {
            assert forall|k: int| 0 <= k < members.len() implies storable(
                text.subrange((#[trigger] members[k]).value.start, members[k].value.end),
                (room - 1) as nat,
            ) by {
                assert(storable(found[k].value.of(text), (room - 1) as nat));
            }
        } else if room >= 2 {
            let k = choose|k: int|
                0 <= k < found.len() && !storable(
                    (#[trigger] found[k]).value.of(text),
                    (room - 1) as nat,
                );
            assert(!storable(
                text.subrange(members[k].value.start, members[k].value.end),
                (room - 1) as nat,
            ));
        }
    }
    if text[p] != 0x22 && text[p] != 0x2d && !(0x30 <= text[p] <= 0x39) && text[p] != 0x5b
        && text[p] != 0x7b {
        if let Some(e) = value_end(text, p) {
            lemma_value(text, p, e);
            lemma_skipped(text, e);
            if blank_from(text, e) {
                assert(value_at(text, p, e) && blank(text, e, text.len() as int));
            }
        }
        if exists|e: int| #[trigger]
            value_at(text, p, e) && blank(text, e, text.len() as int) {
            let e = choose|e: int| #[trigger]
                value_at(text, p, e) && blank(text, e, text.len() as int);
            lemma_value(text, p, e);
            lemma_skip_to(text, e, text.len() as int);
        }
    }
}

/// A value is found fit to be read into memory exactly if it is.
pub proof fn law_storing_is_checked(
    text: &[u8],
    room: usize,
    ok: Result<(), serde_json::Error>,
)
    requires
        call_ensures(crate::wire::check_storable, (text, room), ok),
    ensures
        ok is Ok <==> storable(text@, room as nat),
        (forall|i: int| 0 <= i < text@.len() ==> space(#[trigger] text@[i])) ==> ok is Err,
{
    if forall|i: int| 0 <= i < text@.len() ==> space(#[trigger] text@[i]) {
        lemma_skip_to(text@, 0, text@.len() as int);
    }
}

/// Where the text opens with a bracket, the elements are those laid out.
pub proof fn lemma_array_read(text: Seq<u8>, open: int, spans: Seq<SpanView>)
    requires
        array_laid(text, open, spans),
    ensures
        skip_space(text, 0) == open,
        elements_from(text, open + 1, true) == Some(spans),
{
    lemma_skip_to(text, 0, open);
    lemma_elements_read(text, open + 1, true, spans);
}

/// Where elements are read behind an opening bracket, they are laid out so.
pub proof fn lemma_read_array(text: Seq<u8>, open: int)
    requires
        blank(text, 0, open),
        open < text.len() && text[open] == 0x5b,
        elements_from(text, open + 1, true) is Some,
    ensures
        skip_space(text, 0) == open,
        array_laid(text, open, elements_from(text, open + 1, true)->Some_0),
{
    lemma_skip_to(text, 0, open);
    lemma_elements_laid(text, open + 1, true);
}

/// The first token is where it is.
pub proof fn lemma_first_token(text: Seq<u8>, p: int)
    requires
        blank(text, 0, p),
        p < text.len() ==> !space(text[p]),
    ensures
        skip_space(text, 0) == p,
{
    lemma_skip_to(text, 0, p);
}

} // verus!
