//! UI messages in a model's reply: finding them in fenced blocks and taking them
//! out of the text.
use vstd::prelude::*;

use crate::json::{
    at, fields_view, find_field, get_field, has_field, items_view, json_of_text, lemma_array_view,
    lemma_object_view, parse_json, put_item, Json, JsonV,
};
use crate::mermaid::{
    build_a2ui_messages_from_mermaid_xychart, chart_of, parse_mermaid_xychart_spec,
    strip_mermaid_xychart_block, without_chart,
};
use crate::split::lemma_first_at_skip;
use crate::text::{
    chars_of, find_chars, first_at, lemma_first_at, occurs_at, put, text_between, trim, trim_text,
};

verus! {

/// Whether the fields are those of a UI message.
pub open spec fn is_ui_message(fields: Seq<(Seq<char>, JsonV)>) -> bool {
    ||| has_field(fields, "createSurface"@)
    ||| has_field(fields, "updateComponents"@)
    ||| has_field(fields, "updateDataModel"@)
    ||| has_field(fields, "deleteSurface"@)
    ||| has_field(fields, "beginRendering"@)
    ||| has_field(fields, "surfaceUpdate"@)
    ||| has_field(fields, "dataModelUpdate"@)
}

/// Whether the fields are those of a UI message.
pub fn is_a2ui_message_object(fields: &Vec<(String, Json)>) -> (r: bool)
    ensures
        r == is_ui_message(fields_view(fields@)),
{
    find_field(fields, "createSurface").is_some() || find_field(
        fields,
        "updateComponents",
    ).is_some() || find_field(fields, "updateDataModel").is_some() || find_field(
        fields,
        "deleteSurface",
    ).is_some() || find_field(fields, "beginRendering").is_some() || find_field(
        fields,
        "surfaceUpdate",
    ).is_some() || find_field(fields, "dataModelUpdate").is_some()
}

/// The items that are objects, in order.
pub open spec fn objects_in(items: Seq<JsonV>) -> Seq<JsonV>
    decreases items.len(),
{
    if items.len() == 0 {
        seq![]
    } else {
        let rest = objects_in(items.drop_last());
        if items.last() is Object {
            rest.push(items.last())
        } else {
            rest
        }
    }
}

/// The sequence, if it is not empty.
pub open spec fn non_empty(messages: Seq<JsonV>) -> Option<Seq<JsonV>> {
    if messages.len() == 0 {
        None
    } else {
        Some(messages)
    }
}

/// The UI messages that a value stands for: the objects of an array or of a field
/// `messages`, the object in a field `message`, or the value itself.
pub open spec fn messages_of(value: JsonV) -> Option<Seq<JsonV>> {
    match value {
        JsonV::Array(items) => non_empty(objects_in(items)),
        JsonV::Object(fields) => match get_field(fields, "messages"@) {
            Some(JsonV::Array(items)) => non_empty(objects_in(items)),
            _ => match get_field(fields, "message"@) {
                Some(JsonV::Object(msg)) => Some(seq![JsonV::Object(msg)]),
                _ => if is_ui_message(fields) {
                    Some(seq![value])
                } else {
                    None
                },
            },
        },
        _ => None,
    }
}

/// The UI messages that a block's text stands for.
pub open spec fn block_messages(block: Seq<char>) -> Option<Seq<JsonV>> {
    let t = trim(block);
    if t.len() == 0 {
        None
    } else {
        match json_of_text(t) {
            Ok(value) => messages_of(value),
            Err(_) => None,
        }
    }
}

/// The model of an optional list of messages.
pub open spec fn maybe_items(v: Option<Vec<Json>>) -> Option<Seq<JsonV>> {
    match v {
        Some(items) => Some(items_view(items@)),
        None => None,
    }
}

fn copy_objects(items: &Vec<Json>) -> (r: Option<Vec<Json>>)
    ensures
        maybe_items(r) == non_empty(objects_in(items_view(items@))),
{
    let ghost all = items_view(items@);
    let mut out: Vec<Json> = Vec::new();
    let mut i: usize = 0;
    proof {
        assert(all.take(0) =~= Seq::<JsonV>::empty());
        assert(items_view(out@) =~= Seq::<JsonV>::empty());
    }
    while i < items.len()
        invariant
            i <= items@.len(),
            all == items_view(items@),
            items_view(out@) == objects_in(all.take(i as int)),
        decreases items@.len() - i,
    {
        proof {
            assert(all.take(i + 1).drop_last() =~= all.take(i as int));
            assert(all.take(i + 1).last() == items@[i as int]@);
        }
        if let Json::Object(_) = items[i] {
            put_item(&mut out, items[i].clone());
        }
        i = i + 1;
    }
    proof {
        assert(all.take(all.len() as int) =~= all);
        assert(items_view(out@).len() == out@.len());
    }
    if out.len() == 0 {
        None
    } else {
        Some(out)
    }
}

fn one_message(message: Json) -> (r: Option<Vec<Json>>)
    ensures
        maybe_items(r) == Some(seq![message@]),
{
    let mut out: Vec<Json> = Vec::new();
    out.push(message);
    proof {
        assert(items_view(out@) =~= seq![message@]);
    }
    Some(out)
}

/// The UI messages that a value stands for.
pub fn normalize_a2ui_payload(value: Json) -> (r: Option<Vec<Json>>)
    ensures
        maybe_items(r) == messages_of(value@),
{
    match &value {
        Json::Array(items) => {
            proof {
                lemma_array_view(*items);
            }
            copy_objects(items)
        },
        Json::Object(fields) => {
            proof {
                lemma_object_view(*fields);
            }
            if let Some(Json::Array(items)) = find_field(fields, "messages") {
                proof {
                    lemma_array_view(*items);
                }
                return copy_objects(items);
            }
            if let Some(found) = find_field(fields, "message") {
                if let Json::Object(_) = found {
                    return one_message(found.clone());
                }
            }
            if is_a2ui_message_object(fields) {
                one_message(value.clone())
            } else {
                None
            }
        },
        _ => None,
    }
}

/// The UI messages that a block's text stands for.
pub fn parse_a2ui_messages_block(raw_block: &str) -> (r: Option<Vec<Json>>)
    ensures
        maybe_items(r) == block_messages(raw_block@),
{
    let trimmed = trim_text(raw_block);
    if trimmed.as_str().is_empty() {
        return None;
    }
    match parse_json(trimmed.as_str()) {
        Ok(parsed) => normalize_a2ui_payload(parsed),
        Err(_) => None,
    }
}

// ---------------------------------------------------------------------------
// Fenced blocks in a reply
// ---------------------------------------------------------------------------
/// What a reply holds from `cursor` on: its text without the blocks that were
/// read as UI messages, and those messages. A block that is not closed, or that
/// holds no message, stays in the text.
pub open spec fn scan_blocks(s: Seq<char>, cursor: int) -> (Seq<char>, Seq<JsonV>)
    decreases s.len() - cursor,
{
    if cursor < 0 || cursor > s.len() {
        (seq![], seq![])
    } else {
        match first_at(s, "```a2ui"@, cursor) {
            None => (s.skip(cursor), seq![]),
            Some(start) => match first_at(s, "\n"@, start) {
                None => (s.skip(cursor), seq![]),
                Some(line_end) => match first_at(s, "```"@, line_end + 1) {
                    None => (s.skip(cursor), seq![]),
                    Some(end) => if cursor <= start < end && end + 3 <= s.len() {
                        let rest = scan_blocks(s, end + 3);
                        match block_messages(s.subrange(line_end + 1, end)) {
                            Some(found) => (
                                s.subrange(cursor, start) + rest.0,
                                found + rest.1,
                            ),
                            None => (s.subrange(cursor, end + 3) + rest.0, rest.1),
                        }
                    } else {
                        (seq![], seq![])
                    },
                },
            },
        }
    }
}

/// The text of a reply and its UI messages: those in its blocks, or else those
/// that draw the chart it describes on the surface with the given number.
pub open spec fn extracted(content: Seq<char>, surface: u64) -> (Seq<char>, Seq<JsonV>) {
    let (body, messages) = scan_blocks(content, 0);
    let cleaned = trim(body);
    if messages.len() == 0 {
        match chart_of(cleaned) {
            Some(chart) => (without_chart(cleaned), chart.surface(surface)),
            None => (cleaned, messages),
        }
    } else {
        (cleaned, messages)
    }
}

/// Whether a reply's chart is drawn, which takes a surface number.
pub open spec fn takes_surface(content: Seq<char>) -> bool {
    let (body, messages) = scan_blocks(content, 0);
    messages.len() == 0 && chart_of(trim(body)) is Some
}

/// The surface number after `n`.
pub open spec fn next_surface(n: u64) -> u64 {
    if n == u64::MAX {
        0
    } else {
        (n + 1) as u64
    }
}

/// Takes the UI messages out of a reply. `surface` is the number of the next
/// surface; it moves on where a chart is drawn.
pub fn extract_a2ui_messages_from_response(content: &str, surface: &mut u64) -> (r: (
    String,
    Vec<Json>,
))
    ensures
        r.0@ == extracted(content@, *old(surface)).0,
        items_view(r.1@) == extracted(content@, *old(surface)).1,
        *final(surface) == if takes_surface(content@) {
            next_surface(*old(surface))
        } else {
            *old(surface)
        },
{
    let (body, mut messages) = split_blocks(content);
    let cleaned = trim_text(body.as_str());
    proof {
        assert(items_view(messages@).len() == messages@.len());
    }
    if messages.len() == 0 {
        if let Some(chart) = parse_mermaid_xychart_spec(cleaned.as_str()) {
            messages = build_a2ui_messages_from_mermaid_xychart(&chart, *surface);
            *surface = if *surface == u64::MAX {
                0
            } else {
                *surface + 1
            };
            return (strip_mermaid_xychart_block(cleaned.as_str()), messages);
        }
    }
    (cleaned, messages)
}

/// The text of a reply without the blocks that were read as UI messages, and
/// those messages.
fn split_blocks(content: &str) -> (r: (String, Vec<Json>))
    ensures
        r.0@ == scan_blocks(content@, 0).0,
        items_view(r.1@) == scan_blocks(content@, 0).1,
{
    let v = chars_of(content);
    let fence = chars_of("```a2ui");
    let newline = chars_of("\n");
    let close = chars_of("```");
    proof {
        reveal_strlit("```a2ui");
        reveal_strlit("\n");
        reveal_strlit("```");
    }
    let ghost whole = scan_blocks(v@, 0);
    let mut cleaned = String::new();
    let mut messages: Vec<Json> = Vec::new();
    let mut cursor: usize = 0;
    let mut open = true;
    proof {
        assert(items_view(messages@) =~= Seq::<JsonV>::empty());
        assert(cleaned@ + whole.0 =~= whole.0);
        assert(items_view(messages@) + whole.1 =~= whole.1);
    }
    while open
        invariant
            cursor <= v.len(),
            v@ == content@,
            fence@ == "```a2ui"@,
            newline@ == "\n"@,
            close@ == "```"@,
            fence@.len() == 7,
            newline@.len() == 1,
            close@.len() == 3,
            whole == scan_blocks(v@, 0),
            open ==> whole.0 == cleaned@ + scan_blocks(v@, cursor as int).0,
            open ==> whole.1 == items_view(messages@) + scan_blocks(v@, cursor as int).1,
            !open ==> whole.0 == cleaned@,
            !open ==> whole.1 == items_view(messages@),
        decreases v@.len() - cursor + (if open {
            1int
        } else {
            0int
        }),
    {
        let ghost rest = scan_blocks(v@, cursor as int);
        let ghost before = cleaned@;
        let ghost seen = items_view(messages@);
        let mut block: Option<(usize, usize, usize)> = None;
        if let Some(start) = find_chars(&v, &fence, cursor) {
            if let Some(line_end) = find_chars(&v, &newline, start) {
                if let Some(end) = find_chars(&v, &close, line_end + 1) {
                    block = Some((start, line_end + 1, end));
                }
            }
        }
        match block {
            None => {
                put(&mut cleaned, text_between(&v, cursor, v.len()).as_str());
                open = false;
                proof {
                    assert(v@.subrange(cursor as int, v@.len() as int) =~= v@.skip(cursor as int));
                    assert(seen + Seq::<JsonV>::empty() =~= seen);
                }
            },
            Some((start, body, end)) => {
                match parse_a2ui_messages_block(text_between(&v, body, end).as_str()) {
                    Some(mut parsed) => {
                        let ghost found = items_view(parsed@);
                        put(&mut cleaned, text_between(&v, cursor, start).as_str());
                        messages.append(&mut parsed);
                        proof {
                            assert(items_view(messages@) =~= seen + found);
                        }
                    },
                    None => {
                        put(&mut cleaned, text_between(&v, cursor, end + 3).as_str());
                    },
                }
                cursor = end + 3;
                proof {
                    let next = scan_blocks(v@, cursor as int);
                    assert(whole.0 =~= cleaned@ + next.0);
                    assert(whole.1 =~= items_view(messages@) + next.1);
                }
            },
        }
    }
    (cleaned, messages)
}

/// A reply without a fenced block keeps its text, and no message comes from it.
pub proof fn law_plain_text_is_kept(content: Seq<char>, surface: u64)
    requires
        first_at(content, "```a2ui"@, 0) is None,
        chart_of(trim(content)) is None,
    ensures
        extracted(content, surface) == (trim(content), Seq::<JsonV>::empty()),
{
    assert(content.skip(0) =~= content);
}

/// UI messages in blocks come first, a chart second, plain text last: a chart is
/// drawn only where no block holds a message, and text is all there is only where
/// there is no chart either.
pub proof fn law_blocks_before_charts_before_text(content: Seq<char>, surface: u64)
    ensures
        scan_blocks(content, 0).1.len() > 0 ==> extracted(content, surface).1 == scan_blocks(
            content,
            0,
        ).1,
        scan_blocks(content, 0).1.len() == 0 ==> (match chart_of(trim(scan_blocks(content, 0).0)) {
            Some(chart) => extracted(content, surface).1 == chart.surface(surface),
            None => extracted(content, surface) == (
                trim(scan_blocks(content, 0).0),
                scan_blocks(content, 0).1,
            ),
        }),
        takes_surface(content) <==> scan_blocks(content, 0).1.len() == 0 && chart_of(
            trim(scan_blocks(content, 0).0),
        ) is Some,
{
}

/// Every message that a value stands for is an object.
pub proof fn law_messages_are_objects(value: JsonV)
    ensures
        messages_of(value) matches Some(found) ==> found.len() > 0 && forall|i: int|
            0 <= i < found.len() ==> #[trigger] found[i] is Object,
{
    match value {
        JsonV::Array(items) => {
            lemma_objects_in(items);
        },
        JsonV::Object(fields) => {
            if let Some(JsonV::Array(items)) = get_field(fields, "messages"@) {
                lemma_objects_in(items);
            }
        },
        _ => {},
    }
}

proof fn lemma_objects_in(items: Seq<JsonV>)
    ensures
        forall|i: int|
            0 <= i < objects_in(items).len() ==> #[trigger] objects_in(items)[i] is Object,
    decreases items.len(),
{
    if items.len() > 0 {
        lemma_objects_in(items.drop_last());
    }
}

/// What a value stands for: the objects of an array, in order; the objects of the array
/// under `messages`; the object under `message`; or itself, where it is an object with
/// the name of a UI message among its fields. Anything else stands for no message.
pub proof fn law_what_values_stand_for(
    items: Seq<JsonV>,
    item: JsonV,
    fields: Seq<(Seq<char>, JsonV)>,
    k: int,
)
    ensures
        objects_in(seq![]).len() == 0,
        item is Object ==> objects_in(items.push(item)) == objects_in(items).push(item),
        !(item is Object) ==> objects_in(items.push(item)) == objects_in(items),
        objects_in(items).len() > 0 ==> messages_of(JsonV::Array(items)) == Some(
            objects_in(items),
        ),
        objects_in(items).len() == 0 ==> messages_of(JsonV::Array(items)) is None,
        at(JsonV::Object(fields), "messages"@) == Some(JsonV::Array(items)) ==> messages_of(
            JsonV::Object(fields),
        ) == messages_of(JsonV::Array(items)),
        at(JsonV::Object(fields), "messages"@) is None && item is Object && at(
            JsonV::Object(fields),
            "message"@,
        ) == Some(item) ==> messages_of(JsonV::Object(fields)) == Some(seq![item]),
        at(JsonV::Object(fields), "messages"@) is None && at(JsonV::Object(fields), "message"@)
            is None && 0 <= k < fields.len() && (fields[k].0 == "createSurface"@ || fields[k].0
            == "updateComponents"@ || fields[k].0 == "updateDataModel"@ || fields[k].0
            == "deleteSurface"@ || fields[k].0 == "beginRendering"@ || fields[k].0
            == "surfaceUpdate"@ || fields[k].0 == "dataModelUpdate"@) ==> messages_of(
            JsonV::Object(fields),
        ) == Some(seq![JsonV::Object(fields)]),
        at(JsonV::Object(fields), "messages"@) is None && at(JsonV::Object(fields), "message"@)
            is None && (forall|i: int|
            0 <= i < fields.len() ==> (#[trigger] fields[i]).0 != "createSurface"@ && fields[i].0
                != "updateComponents"@ && fields[i].0 != "updateDataModel"@ && fields[i].0
                != "deleteSurface"@ && fields[i].0 != "beginRendering"@ && fields[i].0
                != "surfaceUpdate"@ && fields[i].0 != "dataModelUpdate"@) ==> messages_of(
            JsonV::Object(fields),
        ) is None,
        !(item is Object) && !(item is Array) ==> messages_of(item) is None,
{
    assert(items.push(item).drop_last() =~= items);
    if 0 <= k < fields.len() {
        assert(has_field(fields, fields[k].0));
    }
}

proof fn lemma_scan_suffix(s: Seq<char>, c: int)
    requires
        0 <= c <= s.len(),
    ensures
        scan_blocks(s, c) == scan_blocks(s.skip(c), 0),
    decreases s.len() - c,
{
    let t = s.skip(c);
    let tag = "```a2ui"@;
    lemma_first_at_skip(s, tag, c);
    lemma_first_at(s, tag, c);
    if let Some(start) = first_at(s, tag, c) {
        lemma_first_from(s, "\n"@, c, start);
        lemma_first_at(s, "\n"@, start);
        if let Some(line_end) = first_at(s, "\n"@, start) {
            lemma_first_from(s, "```"@, c, line_end + 1);
            lemma_first_at(s, "```"@, line_end + 1);
            if let Some(end) = first_at(s, "```"@, line_end + 1) {
                reveal_strlit("```");
                assert(c <= start < end && end + 3 <= s.len());
                lemma_scan_suffix(s, end + 3);
                lemma_scan_suffix(t, end + 3 - c);
                assert(t.skip(end + 3 - c) =~= s.skip(end + 3));
                assert(t.subrange(line_end + 1 - c, end - c) =~= s.subrange(line_end + 1, end));
                assert(t.subrange(0, start - c) =~= s.subrange(c, start));
                assert(t.subrange(0, end + 3 - c) =~= s.subrange(c, end + 3));
                assert(0 <= start - c < end - c && end - c + 3 <= t.len());
            }
        }
    }
    assert(t.skip(0) =~= t);
}

proof fn lemma_first_from(s: Seq<char>, p: Seq<char>, c: int, from: int)
    requires
        0 <= c <= from,
        c <= s.len(),
    ensures
        match first_at(s, p, from) {
            Some(i) => first_at(s.skip(c), p, from - c) == Some(i - c),
            None => first_at(s.skip(c), p, from - c) is None,
        },
{
    let t = s.skip(c);
    lemma_first_at(s, p, from);
    lemma_first_at(t, p, from - c);
    assert forall|j: int| c <= j implies #[trigger] occurs_at(s, p, j) == occurs_at(
        t,
        p,
        j - c,
    ) by {
        if j + p.len() <= s.len() {
            assert(s.subrange(j, j + p.len()) =~= t.subrange(j - c, j - c + p.len()));
        }
    }
    match first_at(s, p, from) {
        Some(i) => {
            assert(occurs_at(s, p, i));
            assert(occurs_at(t, p, i - c));
            let k = first_at(t, p, from - c).unwrap();
            assert(occurs_at(t, p, k));
            assert(occurs_at(s, p, k + c) == occurs_at(t, p, k + c - c));
            assert(occurs_at(s, p, k + c));
        },
        None => {
            if let Some(k) = first_at(t, p, from - c) {
                assert(occurs_at(s, p, k + c) == occurs_at(t, p, k + c - c));
            }
        },
    }
}

/// A block of UI messages is taken out of a reply: the text before it stays, its
/// messages come first, and what follows it is read in turn. A block that holds no
/// message stays where it is.
pub proof fn law_blocks_are_taken_out(
    before: Seq<char>,
    info: Seq<char>,
    block: Seq<char>,
    after: Seq<char>,
)
    requires
        ({
            let s = before + "```a2ui"@ + info + "\n"@ + block + "```"@ + after;
            &&& forall|k: int| 0 <= k < info.len() ==> #[trigger] info[k] != '\n'
            &&& forall|j: int|
                0 <= j < before.len() ==> #[trigger] s.subrange(j, j + 7) != "```a2ui"@
            &&& forall|j: int|
                before.len() + 8 + info.len() <= j < before.len() + 8 + info.len() + block.len()
                    ==> #[trigger] s.subrange(j, j + 3) != "```"@
        }),
    ensures
        ({
            let s = before + "```a2ui"@ + info + "\n"@ + block + "```"@ + after;
            let rest = scan_blocks(after, 0);
            match block_messages(block) {
                Some(found) => scan_blocks(s, 0) == (before + rest.0, found + rest.1),
                None => scan_blocks(s, 0) == (
                    before + "```a2ui"@ + info + "\n"@ + block + "```"@ + rest.0,
                    rest.1,
                ),
            }
        }),
{
    reveal_strlit("```a2ui");
    reveal_strlit("\n");
    reveal_strlit("```");
    let s = before + "```a2ui"@ + info + "\n"@ + block + "```"@ + after;
    let start = before.len() as int;
    let line_end = start + 7 + info.len();
    let end = line_end + 1 + block.len();
    assert(s.subrange(start, start + 7) =~= "```a2ui"@);
    lemma_least(s, "```a2ui"@, 0, start);
    assert(s.subrange(line_end, line_end + 1) =~= "\n"@);
    assert forall|j: int| start <= j < line_end implies !occurs_at(s, "\n"@, j) by {
        if occurs_at(s, "\n"@, j) {
            assert(s.subrange(j, j + 1)[0] == '\n');
            assert(s[j] == '\n');
            if j >= start + 7 {
                assert(s[j] == info[j - start - 7]);
            } else {
                assert(s[j] == "```a2ui"@[j - start]);
            }
        }
    }
    lemma_least(s, "\n"@, start, line_end);
    assert(s.subrange(end, end + 3) =~= "```"@);
    lemma_least(s, "```"@, line_end + 1, end);
    assert(s.subrange(line_end + 1, end) =~= block);
    assert(s.subrange(0, start) =~= before);
    assert(s.subrange(0, end + 3) =~= before + "```a2ui"@ + info + "\n"@ + block + "```"@);
    lemma_scan_suffix(s, end + 3);
    assert(s.skip(end + 3) =~= after);
}

proof fn lemma_least(s: Seq<char>, p: Seq<char>, from: int, i: int)
    requires
        0 <= from <= i,
        i + p.len() <= s.len(),
        s.subrange(i, i + p.len()) == p,
        forall|j: int| from <= j < i ==> !occurs_at(s, p, j),
    ensures
        first_at(s, p, from) == Some(i),
{
    lemma_first_at(s, p, from);
    assert(occurs_at(s, p, i));
    let k = first_at(s, p, from).unwrap();
    if k < i {
        assert(!occurs_at(s, p, k));
    }
}

/// A text without a block of UI messages stays as it is.
pub proof fn law_text_without_blocks_stays(s: Seq<char>)
    requires
        forall|j: int| 0 <= j && j + 7 <= s.len() ==> #[trigger] s.subrange(j, j + 7) != "```a2ui"@,
    ensures
        scan_blocks(s, 0) == (s, Seq::<JsonV>::empty()),
{
    reveal_strlit("```a2ui");
    lemma_first_at(s, "```a2ui"@, 0);
    if let Some(i) = first_at(s, "```a2ui"@, 0) {
        assert(s.subrange(i, i + 7) == "```a2ui"@);
    }
    assert(s.skip(0) =~= s);
}

/// What is left of a reply's text has no white space around it, and no chart that was
/// drawn. A chart that is drawn uses up the number of its surface.
pub proof fn law_what_is_left_of_a_reply(content: Seq<char>, n: u64)
    ensures
        ({
            let (body, messages) = scan_blocks(content, 0);
            &&& messages.len() > 0 || chart_of(trim(body)) is None ==> extracted(content, n).0
                == trim(body)
            &&& messages.len() == 0 && chart_of(trim(body)) is Some ==> extracted(content, n).0
                == without_chart(trim(body))
        }),
        n < u64::MAX ==> next_surface(n) == n + 1,
        next_surface(u64::MAX) == 0,
{
}

/// A block is read without the white space around it; one that is blank, or that is no
/// JSON, holds no message.
pub proof fn law_blocks_are_read(block: Seq<char>, value: JsonV)
    ensures
        trim(block).len() == 0 ==> block_messages(block) is None,
        trim(block).len() > 0 && json_of_text(trim(block)) == Ok::<JsonV, Seq<char>>(value)
            ==> block_messages(block) == messages_of(value),
        json_of_text(trim(block)) is Err ==> block_messages(block) is None,
{
}

/// The models of messages stand in the order of the messages.
pub proof fn law_found_messages_stand_in_order(v: Vec<Json>, i: int)
    ensures
        maybe_items(None) is None,
        maybe_items(Some(v)) matches Some(items) && items.len() == v@.len() && (0 <= i < v@.len()
            ==> items[i] == v@[i]@),
{
}

} // verus!
