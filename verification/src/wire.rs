//! The members of a JSON object and the elements of a JSON array, found in the
//! text without building a value of it.

use crate::json;
use crate::text::str_eq;
use vstd::prelude::*;
use vstd::slice::slice_subrange;

verus! {

/// Where a piece of a text begins and ends.
#[derive(Debug, Clone, Copy)]
pub struct Span {
    /// The index of its first byte.
    pub start: usize,
    /// The index behind its last byte.
    pub end: usize,
}

/// Where a piece of a text begins and ends.
#[verifier::ext_equal]
pub struct SpanView {
    pub start: int,
    pub end: int,
}

impl View for Span {
    type V = SpanView;

    open spec fn view(&self) -> SpanView {
        SpanView { start: self.start as int, end: self.end as int }
    }
}

impl SpanView {
    /// The bytes of `text` that the span takes up.
    pub open spec fn of(self, text: Seq<u8>) -> Seq<u8> {
        text.subrange(self.start, self.end)
    }

    /// Whether the span is a piece of `text` that is not empty.
    pub open spec fn within(self, text: Seq<u8>) -> bool {
        0 <= self.start < self.end <= text.len()
    }
}

/// What an optional span is.
pub open spec fn optional_span(span: Option<Span>) -> Option<SpanView> {
    match span {
        None => None,
        Some(s) => Some(s@),
    }
}

/// A member of an object: its key, and where its value stands.
#[derive(Debug)]
pub struct Member {
    /// The key, escape sequences resolved.
    pub key: String,
    /// Where the value stands.
    pub value: Span,
}

/// A member of an object: its key, and where its value stands.
#[verifier::ext_equal]
pub struct MemberView {
    pub key: Seq<char>,
    pub value: SpanView,
}

impl View for Member {
    type V = MemberView;

    open spec fn view(&self) -> MemberView {
        MemberView { key: self.key@, value: self.value@ }
    }
}

/// The members that a list of [`Member`] stands for.
pub open spec fn member_views(members: Seq<Member>) -> Seq<MemberView> {
    Seq::new(members.len(), |i: int| members[i]@)
}

/// The spans that a list of [`Span`] stands for.
pub open spec fn span_views(spans: Seq<Span>) -> Seq<SpanView> {
    Seq::new(spans.len(), |i: int| spans[i]@)
}

/// Whether `b` is one of the four bytes that JSON allows between tokens.
pub open spec fn json_space_byte(b: u8) -> bool {
    b == 0x20 || b == 0x0a || b == 0x09 || b == 0x0d
}

/// The first index from `pos` on that holds no whitespace.
pub open spec fn skip_space(text: Seq<u8>, pos: int) -> int
    decreases text.len() - pos,
{
    if 0 <= pos < text.len() && json_space_byte(text[pos]) {
        skip_space(text, pos + 1)
    } else {
        pos
    }
}

/// Skipping whitespace moves forward and stays within the text.
pub proof fn lemma_skip_space(text: Seq<u8>, pos: int)
    requires
        0 <= pos <= text.len(),
    ensures
        pos <= skip_space(text, pos) <= text.len(),
    decreases text.len() - pos,
{
    if pos < text.len() && json_space_byte(text[pos]) {
        lemma_skip_space(text, pos + 1);
    }
}

/// Whether nothing but whitespace stands in `text` from `pos` on.
pub open spec fn blank_from(text: Seq<u8>, pos: int) -> bool {
    skip_space(text, pos) == text.len()
}

/// The index behind the JSON value that begins at `pos`.
pub open spec fn value_end(text: Seq<u8>, pos: int) -> Option<int> {
    match json::json_value_len(text.subrange(pos, text.len() as int)) {
        Some(n) => if 0 < n <= text.len() - pos {
            Some(pos + n)
        } else {
            None
        },
        None => None,
    }
}

/// Where the next item of a list begins, the list being read up to `pos`: at
/// the next token for the first item, behind a comma for the others.
pub open spec fn item_start(text: Seq<u8>, pos: int, first: bool) -> Option<int> {
    let p = skip_space(text, pos);
    if first {
        Some(p)
    } else if p < text.len() && text[p] == 0x2c {
        Some(skip_space(text, p + 1))
    } else {
        None
    }
}

/// The elements of an array that is read up to `pos`, and behind which nothing
/// but whitespace follows. `None` where the text does not read as such.
pub open spec fn elements_from(text: Seq<u8>, pos: int, first: bool) -> Option<Seq<SpanView>>
    decreases text.len() - pos,
{
    let p = skip_space(text, pos);
    if !(0 <= pos && p < text.len()) {
        None
    } else if text[p] == 0x5d {
        if blank_from(text, p + 1) {
            Some(Seq::empty())
        } else {
            None
        }
    } else {
        match item_start(text, pos, first) {
            Some(start) => if start < text.len() && text[start] != 0x5d {
                match value_end(text, start) {
                    Some(end) => {
                        proof {
                            lemma_skip_space(text, pos);
                            if !first {
                                lemma_skip_space(text, p + 1);
                            }
                        }
                        match elements_from(text, end, false) {
                            Some(rest) => Some(seq![SpanView { start, end }] + rest),
                            None => None,
                        }
                    },
                    None => None,
                }
            } else {
                None
            },
            None => None,
        }
    }
}

/// The key that begins at `start`, and the index behind it.
pub open spec fn key_at(text: Seq<u8>, start: int) -> Option<(Seq<char>, int)> {
    if start < text.len() && text[start] == 0x22 {
        match value_end(text, start) {
            Some(end) => match json::json_string(text.subrange(start, end)) {
                Some(key) => Some((key, end)),
                None => None,
            },
            None => None,
        }
    } else {
        None
    }
}

/// The value that follows a key which ends at `pos`: a colon, then the value.
pub open spec fn member_value(text: Seq<u8>, pos: int) -> Option<SpanView> {
    let colon = skip_space(text, pos);
    if colon < text.len() && text[colon] == 0x3a {
        let start = skip_space(text, colon + 1);
        match value_end(text, start) {
            Some(end) => Some(SpanView { start, end }),
            None => None,
        }
    } else {
        None
    }
}

/// The member that begins at `start`.
pub open spec fn member_at(text: Seq<u8>, start: int) -> Option<MemberView> {
    match key_at(text, start) {
        Some((key, key_end)) => match member_value(text, key_end) {
            Some(value) => Some(MemberView { key, value }),
            None => None,
        },
        None => None,
    }
}

/// The value of a member lies behind the start of the member.
pub proof fn lemma_member_advances(text: Seq<u8>, start: int)
    requires
        0 <= start,
    ensures
        member_at(text, start) matches Some(m) ==> start < m.value.start < m.value.end
            <= text.len(),
{
    if let Some((key, key_end)) = key_at(text, start) {
        lemma_skip_space(text, key_end);
        let colon = skip_space(text, key_end);
        if colon < text.len() {
            lemma_skip_space(text, colon + 1);
        }
    }
}

/// The members of an object that is read up to `pos`, and behind which nothing
/// but whitespace follows. `None` where the text does not read as such.
pub open spec fn members_from(text: Seq<u8>, pos: int, first: bool) -> Option<Seq<MemberView>>
    decreases text.len() - pos,
{
    let p = skip_space(text, pos);
    if !(0 <= pos && p < text.len()) {
        None
    } else if text[p] == 0x7d {
        if blank_from(text, p + 1) {
            Some(Seq::empty())
        } else {
            None
        }
    } else {
        match item_start(text, pos, first) {
            Some(start) => match member_at(text, start) {
                Some(member) => {
                    proof {
                        lemma_skip_space(text, pos);
                        if !first {
                            lemma_skip_space(text, p + 1);
                        }
                        lemma_member_advances(text, start);
                    }
                    match members_from(text, member.value.end, false) {
                        Some(rest) => Some(seq![member] + rest),
                        None => None,
                    }
                },
                None => None,
            },
            None => None,
        }
    }
}

/// Returns the first index from `pos` on that holds no whitespace.
pub fn next_token(text: &[u8], pos: usize) -> (p: usize)
    requires
        pos <= text@.len(),
    ensures
        p == skip_space(text@, pos as int),
        pos <= p <= text@.len(),
{
    let mut p: usize = pos;
    while p < text.len() && (text[p] == 0x20 || text[p] == 0x0a || text[p] == 0x09 || text[p]
        == 0x0d)
        invariant
            pos <= p <= text@.len(),
            skip_space(text@, p as int) == skip_space(text@, pos as int),
        decreases text.len() - p,
    {
        p = p + 1;
    }
    p
}

/// Returns the index behind the JSON value that begins at `pos`.
fn end_of_value(text: &[u8], pos: usize) -> (end: Result<usize, serde_json::Error>)
    requires
        pos <= text@.len(),
    ensures
        end is Ok <==> value_end(text@, pos as int) is Some,
        end matches Ok(e) ==> {
            &&& value_end(text@, pos as int) == Some(e as int)
            &&& pos < e <= text@.len()
        },
{
    match json::value_len(slice_subrange(text, pos, text.len())) {
        Ok(n) => Ok(pos + n),
        Err(e) => Err(e),
    }
}

/// Returns where the next item of a list begins.
fn start_of_item(text: &[u8], pos: usize, first: bool) -> (start: Option<usize>)
    requires
        pos <= text@.len(),
    ensures
        start is Some <==> item_start(text@, pos as int, first) is Some,
        start matches Some(s) ==> {
            &&& item_start(text@, pos as int, first) == Some(s as int)
            &&& pos <= s <= text@.len()
        },
{
    let p = next_token(text, pos);
    if first {
        Some(p)
    } else if p < text.len() && text[p] == 0x2c {
        Some(next_token(text, p + 1))
    } else {
        None
    }
}

/// What a list is whose items so far are `done`, `rest` being what is read
/// from here on.
spec fn continued<A>(done: Seq<A>, rest: Option<Seq<A>>) -> Option<Seq<A>> {
    match rest {
        Some(r) => Some(done + r),
        None => None,
    }
}

/// Reads the elements of an array whose opening bracket ends at `begin`.
pub fn elements(text: &[u8], begin: usize) -> (list: Result<Vec<Span>, serde_json::Error>)
    requires
        begin <= text@.len(),
    ensures
        list is Ok <==> elements_from(text@, begin as int, true) is Some,
        list matches Ok(spans) ==> elements_from(text@, begin as int, true) == Some(
            span_views(spans@),
        ),
{
    let mut spans: Vec<Span> = Vec::new();
    let mut pos: usize = begin;
    let mut first: bool = true;
    assert(span_views(spans@) =~= Seq::empty());
    assert(elements_from(text@, begin as int, true) == continued(
        span_views(spans@),
        elements_from(text@, pos as int, first),
    )) by {
        if let Some(r) = elements_from(text@, begin as int, true) {
            assert(Seq::<SpanView>::empty() + r =~= r);
        }
    }
    loop
        invariant
            begin <= pos <= text@.len(),
            elements_from(text@, begin as int, true) == continued(
                span_views(spans@),
                elements_from(text@, pos as int, first),
            ),
        decreases text@.len() - pos,
    {
        let p = next_token(text, pos);
        if p >= text.len() {
            return Err(json::custom_error("unterminated array"));
        }
        if text[p] == 0x5d {
            if next_token(text, p + 1) < text.len() {
                return Err(json::custom_error("trailing characters"));
            }
            assert(span_views(spans@) + Seq::<SpanView>::empty() =~= span_views(spans@));
            return Ok(spans);
        }
        let start = match start_of_item(text, pos, first) {
            Some(start) => start,
            None => return Err(json::custom_error("expected `,` or `]`")),
        };
        if start >= text.len() || text[start] == 0x5d {
            return Err(json::custom_error("trailing comma"));
        }
        let end = match end_of_value(text, start) {
            Ok(end) => end,
            Err(e) => return Err(e),
        };
        let ghost done = spans@;
        spans.push(Span { start, end });
        proof {
            let here = SpanView { start: start as int, end: end as int };
            assert(span_views(spans@) =~= span_views(done).push(here));
            if let Some(r) = elements_from(text@, end as int, false) {
                assert(span_views(done) + (seq![here] + r) =~= span_views(spans@) + r);
            }
        }
        pos = end;
        first = false;
    }
}

/// Reads the member that begins at `start`.
fn member(text: &[u8], start: usize) -> (member: Result<Member, serde_json::Error>)
    requires
        start <= text@.len(),
    ensures
        member is Ok <==> member_at(text@, start as int) is Some,
        member matches Ok(m) ==> {
            &&& member_at(text@, start as int) == Some(m@)
            &&& start < m.value.end <= text@.len()
        },
{
    if start >= text.len() || text[start] != 0x22 {
        return Err(json::custom_error("key must be a string"));
    }
    let key_end = match end_of_value(text, start) {
        Ok(end) => end,
        Err(e) => return Err(e),
    };
    let key = match json::string(slice_subrange(text, start, key_end)) {
        Ok(key) => key,
        Err(e) => return Err(e),
    };
    let colon = next_token(text, key_end);
    if colon >= text.len() || text[colon] != 0x3a {
        return Err(json::custom_error("expected `:`"));
    }
    let value_start = next_token(text, colon + 1);
    let value_end = match end_of_value(text, value_start) {
        Ok(end) => end,
        Err(e) => return Err(e),
    };
    Ok(Member { key, value: Span { start: value_start, end: value_end } })
}

/// Reads the members of an object whose opening brace ends at `begin`.
fn members(text: &[u8], begin: usize) -> (list: Result<Vec<Member>, serde_json::Error>)
    requires
        begin <= text@.len(),
    ensures
        list is Ok <==> members_from(text@, begin as int, true) is Some,
        list matches Ok(members) ==> members_from(text@, begin as int, true) == Some(
            member_views(members@),
        ),
{
    let mut list: Vec<Member> = Vec::new();
    let mut pos: usize = begin;
    let mut first: bool = true;
    assert(member_views(list@) =~= Seq::empty());
    assert(members_from(text@, begin as int, true) == continued(
        member_views(list@),
        members_from(text@, pos as int, first),
    )) by {
        if let Some(r) = members_from(text@, begin as int, true) {
            assert(Seq::<MemberView>::empty() + r =~= r);
        }
    }
    loop
        invariant
            begin <= pos <= text@.len(),
            members_from(text@, begin as int, true) == continued(
                member_views(list@),
                members_from(text@, pos as int, first),
            ),
        decreases text@.len() - pos,
    {
        let p = next_token(text, pos);
        if p >= text.len() {
            return Err(json::custom_error("unterminated object"));
        }
        if text[p] == 0x7d {
            if next_token(text, p + 1) < text.len() {
                return Err(json::custom_error("trailing characters"));
            }
            assert(member_views(list@) + Seq::<MemberView>::empty() =~= member_views(list@));
            return Ok(list);
        }
        let start = match start_of_item(text, pos, first) {
            Some(start) => start,
            None => return Err(json::custom_error("expected `,` or `}`")),
        };
        let next = match member(text, start) {
            Ok(next) => next,
            Err(e) => return Err(e),
        };
        let end = next.value.end;
        let ghost done = list@;
        let ghost here = next@;
        list.push(next);
        proof {
            assert(member_views(list@) =~= member_views(done).push(here));
            if let Some(r) = members_from(text@, end as int, false) {
                assert(member_views(done) + (seq![here] + r) =~= member_views(list@) + r);
            }
        }
        pos = end;
        first = false;
    }
}

/// Where the value of the member named `name` stands.
pub open spec fn value_of(members: Seq<MemberView>, name: Seq<char>) -> Option<SpanView>
    decreases members.len(),
{
    if members.len() == 0 {
        None
    } else if members.last().key == name {
        Some(members.last().value)
    } else {
        value_of(members.drop_last(), name)
    }
}

/// Whether no two members are named `name`.
pub open spec fn at_most_once(members: Seq<MemberView>, name: Seq<char>) -> bool {
    forall|i: int, j: int|
        0 <= i < j < members.len() && #[trigger] members[i].key == name
            ==> #[trigger] members[j].key != name
}

/// Whether no two members share one of `names`.
pub open spec fn no_repeats(members: Seq<MemberView>, names: Seq<&'static str>) -> bool {
    forall|k: int| 0 <= k < names.len() ==> at_most_once(members, #[trigger] names[k]@)
}

/// Where the values of the fields `names` stand in a JSON text. The fields are
/// those members of an object (none of which may occur twice; other members
/// are passed over), or in their order the elements of an array that has no
/// more. `None` where the text is neither.
pub open spec fn fields_of(text: Seq<u8>, names: Seq<&'static str>) -> Option<
    Seq<Option<SpanView>>,
> {
    let p = skip_space(text, 0);
    if p >= text.len() {
        None
    } else if text[p] == 0x7b {
        match members_from(text, p + 1, true) {
            Some(members) => if no_repeats(members, names) {
                Some(Seq::new(names.len(), |k: int| value_of(members, names[k]@)))
            } else {
                None
            },
            None => None,
        }
    } else if text[p] == 0x5b {
        match elements_from(text, p + 1, true) {
            Some(spans) => if spans.len() <= names.len() {
                Some(
                    Seq::new(
                        names.len(),
                        |k: int|
                            if k < spans.len() {
                                Some(spans[k])
                            } else {
                                None
                            },
                    ),
                )
            } else {
                None
            },
            None => None,
        }
    } else {
        None
    }
}

/// The optional spans that a list of them stands for.
pub open spec fn optional_spans(spans: Seq<Option<Span>>) -> Seq<Option<SpanView>> {
    Seq::new(spans.len(), |i: int| optional_span(spans[i]))
}

/// Looks up the value of the member named `name`, which must not occur twice.
fn lookup(members: &Vec<Member>, name: &'static str) -> (value: Result<
    Option<Span>,
    serde_json::Error,
>)
    ensures
        value is Ok <==> at_most_once(member_views(members@), name@),
        value matches Ok(span) ==> optional_span(span) == value_of(
            member_views(members@),
            name@,
        ),
{
    let ghost views = member_views(members@);
    let mut found: Option<Span> = None;
    let mut i: usize = 0;
    while i < members.len()
        invariant
            i <= members@.len(),
            views == member_views(members@),
            at_most_once(views.take(i as int), name@),
            optional_span(found) == value_of(views.take(i as int), name@),
            found is None ==> forall|k: int| 0 <= k < i ==> #[trigger] views[k].key != name@,
            found is Some ==> exists|k: int| 0 <= k < i && #[trigger] views[k].key == name@,
        decreases members.len() - i,
    {
        assert(views.take(i + 1).drop_last() =~= views.take(i as int));
        assert(views[i as int] == members@[i as int]@);
        if str_eq(members[i].key.as_str(), name) {
            if found.is_some() {
                assert(!at_most_once(views, name@)) by {
                    let k = choose|k: int| 0 <= k < i && #[trigger] views[k].key == name@;
                    assert(views[k].key == name@ && views[i as int].key == name@);
                }
                return Err(json::custom_error("duplicate field"));
            }
            found = Some(members[i].value);
        }
        i = i + 1;
    }
    assert(views.take(i as int) =~= views);
    Ok(found)
}

/// Finds the fields `names` in a JSON text.
pub fn fields(text: &[u8], names: &[&'static str]) -> (spans: Result<
    Vec<Option<Span>>,
    serde_json::Error,
>)
    ensures
        spans is Ok <==> fields_of(text@, names@) is Some,
        spans matches Ok(list) ==> {
            &&& fields_of(text@, names@) == Some(optional_spans(list@))
            &&& list@.len() == names@.len()
            &&& forall|k: int|
                0 <= k < list@.len() ==> (#[trigger] list@[k] matches Some(span)
                    ==> span@.within(text@))
        },
{
    let p = next_token(text, 0);
    if p >= text.len() {
        return Err(json::custom_error("unexpected end of input"));
    }
    let mut list: Vec<Option<Span>> = Vec::new();
    if text[p] == 0x7b {
        let members = match members(text, p + 1) {
            Ok(members) => members,
            Err(e) => return Err(e),
        };
        let ghost views = member_views(members@);
        let mut k: usize = 0;
        while k < names.len()
            invariant
                k <= names@.len(),
                k == list@.len(),
                views == member_views(members@),
                p == skip_space(text@, 0) && p < text@.len() && text@[p as int] == 0x7b,
                members_from(text@, p + 1, true) == Some(views),
                forall|j: int| 0 <= j < k ==> at_most_once(views, #[trigger] names@[j]@),
                forall|j: int|
                    0 <= j < k ==> optional_span(#[trigger] list@[j]) == value_of(
                        views,
                        names@[j]@,
                    ),
            decreases names.len() - k,
        {
            match lookup(&members, names[k]) {
                Ok(span) => list.push(span),
                Err(e) => {
                    assert(!no_repeats(views, names@));
                    return Err(e);
                },
            }
            k = k + 1;
        }
        assert(optional_spans(list@) =~= Seq::new(
            names@.len(),
            |j: int| value_of(views, names@[j]@),
        ));
        proof {
            lemma_listed_within(text@, names@, list@);
        }
        Ok(list)
    } else if text[p] == 0x5b {
        let spans = match elements(text, p + 1) {
            Ok(spans) => spans,
            Err(e) => return Err(e),
        };
        if spans.len() > names.len() {
            return Err(json::custom_error("trailing characters"));
        }
        let mut k: usize = 0;
        while k < names.len()
            invariant
                k <= names@.len(),
                k == list@.len(),
                forall|j: int|
                    0 <= j < k ==> optional_span(#[trigger] list@[j]) == (if j < spans@.len() {
                        Some(spans@[j]@)
                    } else {
                        None
                    }),
            decreases names.len() - k,
        {
            if k < spans.len() {
                list.push(Some(spans[k]));
            } else {
                list.push(None);
            }
            k = k + 1;
        }
        assert(optional_spans(list@) =~= Seq::new(
            names@.len(),
            |j: int|
                if j < span_views(spans@).len() {
                    Some(span_views(spans@)[j])
                } else {
                    None
                },
        ));
        proof {
            lemma_listed_within(text@, names@, list@);
        }
        Ok(list)
    } else {
        Err(json::custom_error("expected an object or an array"))
    }
}

/// The elements of an array are pieces of its text.
pub proof fn lemma_elements_within(text: Seq<u8>, pos: int, first: bool)
    ensures
        elements_from(text, pos, first) matches Some(spans) ==> forall|i: int|
            0 <= i < spans.len() ==> (#[trigger] spans[i]).within(text),
    decreases text.len() - pos,
{
    if let Some(spans) = elements_from(text, pos, first) {
        let p = skip_space(text, pos);
        lemma_skip_space(text, pos);
        if text[p] != 0x5d {
            if !first {
                lemma_skip_space(text, p + 1);
            }
            let start = item_start(text, pos, first)->Some_0;
            let end = value_end(text, start)->Some_0;
            lemma_elements_within(text, end, false);
            let rest = elements_from(text, end, false)->Some_0;
            assert(spans =~= seq![SpanView { start, end }] + rest);
            assert forall|i: int| 0 <= i < spans.len() implies (#[trigger] spans[i]).within(
                text,
            ) by {
                if i > 0 {
                    assert(spans[i] == rest[i - 1]);
                }
            }
        }
    }
}

/// The values of the members of an object are pieces of its text.
pub proof fn lemma_members_within(text: Seq<u8>, pos: int, first: bool)
    ensures
        members_from(text, pos, first) matches Some(members) ==> forall|i: int|
            0 <= i < members.len() ==> (#[trigger] members[i]).value.within(text),
    decreases text.len() - pos,
{
    if let Some(members) = members_from(text, pos, first) {
        let p = skip_space(text, pos);
        lemma_skip_space(text, pos);
        if text[p] != 0x7d {
            if !first {
                lemma_skip_space(text, p + 1);
            }
            let start = item_start(text, pos, first)->Some_0;
            lemma_member_advances(text, start);
            let here = member_at(text, start)->Some_0;
            lemma_members_within(text, here.value.end, false);
            let rest = members_from(text, here.value.end, false)->Some_0;
            assert(members =~= seq![here] + rest);
            assert forall|i: int|
                0 <= i < members.len() implies (#[trigger] members[i]).value.within(text) by {
                if i > 0 {
                    assert(members[i] == rest[i - 1]);
                }
            }
        }
    }
}

proof fn lemma_value_within(text: Seq<u8>, members: Seq<MemberView>, name: Seq<char>)
    requires
        forall|i: int| 0 <= i < members.len() ==> (#[trigger] members[i]).value.within(text),
    ensures
        value_of(members, name) matches Some(span) ==> span.within(text),
    decreases members.len(),
{
    if members.len() > 0 && members.last().key != name {
        lemma_value_within(text, members.drop_last(), name);
    }
}

/// The values of fields are pieces of the text they are found in.
pub proof fn lemma_fields_within(text: Seq<u8>, names: Seq<&'static str>)
    ensures
        fields_of(text, names) matches Some(fields) ==> {
            &&& fields.len() == names.len()
            &&& forall|k: int|
                0 <= k < fields.len() ==> (#[trigger] fields[k] matches Some(span)
                    ==> span.within(text))
        },
{
    if let Some(fields) = fields_of(text, names) {
        let p = skip_space(text, 0);
        if text[p] == 0x7b {
            lemma_members_within(text, p + 1, true);
            let members = members_from(text, p + 1, true)->Some_0;
            assert forall|k: int| 0 <= k < fields.len() implies (#[trigger] fields[k] matches Some(
                span,
            ) ==> span.within(text)) by {
                lemma_value_within(text, members, names[k]@);
            }
        } else {
            lemma_elements_within(text, p + 1, true);
        }
    }
}

proof fn lemma_listed_within(text: Seq<u8>, names: Seq<&'static str>, list: Seq<Option<Span>>)
    requires
        fields_of(text, names) == Some(optional_spans(list)),
    ensures
        list.len() == names.len(),
        forall|k: int|
            0 <= k < list.len() ==> (#[trigger] list[k] matches Some(span) ==> span@.within(text)),
{
    lemma_fields_within(text, names);
    assert forall|k: int| 0 <= k < list.len() implies (#[trigger] list[k] matches Some(span)
        ==> span@.within(text)) by {
        assert(optional_spans(list)[k] == optional_span(list[k]));
    }
}

/// Whether a value can be read into memory, `room` being one more than the
/// levels of nesting that there is room for: beyond the grammar, its numbers
/// have to be such as can be held, and its strings such as can be read.
pub open spec fn storable(text: Seq<u8>, room: nat) -> bool
    decreases room,
{
    let p = skip_space(text, 0);
    if p >= text.len() {
        false
    } else if text[p] == 0x5b {
        room >= 2 && match elements_from(text, p + 1, true) {
            Some(spans) => forall|k: int|
                0 <= k < spans.len() ==> storable(
                    (#[trigger] spans[k]).of(text),
                    (room - 1) as nat,
                ),
            None => false,
        }
    } else if text[p] == 0x7b {
        room >= 2 && match members_from(text, p + 1, true) {
            Some(members) => forall|k: int|
                0 <= k < members.len() ==> storable(
                    (#[trigger] members[k]).value.of(text),
                    (room - 1) as nat,
                ),
            None => false,
        }
    } else if text[p] == 0x22 {
        json::json_string(text) is Some
    } else if text[p] == 0x2d || 0x30 <= text[p] <= 0x39 {
        json::json_number(text)
    } else {
        match value_end(text, p) {
            Some(end) => blank_from(text, end),
            None => false,
        }
    }
}

/// Checks that a value can be read into memory.
pub fn check_storable(text: &[u8], room: usize) -> (ok: Result<(), serde_json::Error>)
    ensures
        ok is Ok <==> storable(text@, room as nat),
    decreases room,
{
    let p = next_token(text, 0);
    if p >= text.len() {
        return Err(json::custom_error("unexpected end of input"));
    }
    if text[p] == 0x5b {
        if room < 2 {
            return Err(json::custom_error("recursion limit exceeded"));
        }
        let spans = match elements(text, p + 1) {
            Ok(spans) => spans,
            Err(e) => return Err(e),
        };
        let ghost views = elements_from(text@, p + 1, true)->Some_0;
        proof {
            lemma_elements_within(text@, p + 1, true);
        }
        let mut k: usize = 0;
        while k < spans.len()
            invariant
                k <= spans@.len(),
                room >= 2,
                views == span_views(spans@),
                p == skip_space(text@, 0) && p < text@.len() && text@[p as int] == 0x5b,
                elements_from(text@, p + 1, true) is Some,
                elements_from(text@, p + 1, true)->Some_0 == views,
                forall|j: int| 0 <= j < views.len() ==> (#[trigger] views[j]).within(text@),
                forall|j: int|
                    0 <= j < k ==> storable((#[trigger] views[j]).of(text@), (room - 1) as nat),
            decreases spans.len() - k,
        {
            let span = spans[k];
            assert(views[k as int] == span@);
            match check_storable(slice_subrange(text, span.start, span.end), room - 1) {
                Ok(()) => {},
                Err(e) => {
                    assert(!storable(views[k as int].of(text@), (room - 1) as nat));
                    return Err(e);
                },
            }
            k = k + 1;
        }
        Ok(())
    } else if text[p] == 0x7b {
        if room < 2 {
            return Err(json::custom_error("recursion limit exceeded"));
        }
        let list = match members(text, p + 1) {
            Ok(list) => list,
            Err(e) => return Err(e),
        };
        let ghost views = members_from(text@, p + 1, true)->Some_0;
        proof {
            lemma_members_within(text@, p + 1, true);
        }
        let mut k: usize = 0;
        while k < list.len()
            invariant
                k <= list@.len(),
                room >= 2,
                views == member_views(list@),
                p == skip_space(text@, 0) && p < text@.len() && text@[p as int] == 0x7b,
                members_from(text@, p + 1, true) is Some,
                members_from(text@, p + 1, true)->Some_0 == views,
                forall|j: int| 0 <= j < views.len() ==> (#[trigger] views[j]).value.within(text@),
                forall|j: int|
                    0 <= j < k ==> storable(
                        (#[trigger] views[j]).value.of(text@),
                        (room - 1) as nat,
                    ),
            decreases list.len() - k,
        {
            let span = list[k].value;
            assert(views[k as int].value == span@);
            match check_storable(slice_subrange(text, span.start, span.end), room - 1) {
                Ok(()) => {},
                Err(e) => {
                    assert(!storable(views[k as int].value.of(text@), (room - 1) as nat));
                    return Err(e);
                },
            }
            k = k + 1;
        }
        Ok(())
    } else if text[p] == 0x22 {
        match json::string(text) {
            Ok(_) => Ok(()),
            Err(e) => Err(e),
        }
    } else if text[p] == 0x2d || (0x30 <= text[p] && text[p] <= 0x39) {
        json::number(text)
    } else {
        let end = match end_of_value(text, p) {
            Ok(end) => end,
            Err(e) => return Err(e),
        };
        if next_token(text, end) < text.len() {
            return Err(json::custom_error("trailing characters"));
        }
        Ok(())
    }
}

} // verus!
