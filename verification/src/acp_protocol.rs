//! The messages of the Agent Client Protocol: JSON-RPC envelopes, prompts, session
//! updates.
use vstd::prelude::*;

use crate::json::{
    at, find_field, get_field, inner, items_view, json_text, lemma_array_view, lemma_object_view,
    no_fields, object, print_json, put_field, put_text, says, Json, JsonV,
};
use crate::split::{join, join_text};
use crate::text::{chars_occur_at, chars_of, same_text, starts_with, text, text_between};

verus! {

/// The code of an error that the server raises by its own rules.
pub const JSONRPC_SERVER_ERROR: i64 = -32000;

/// The code of a body that is not JSON.
pub const JSONRPC_PARSE_ERROR: i64 = -32700;

/// The code of a body that is no request.
pub const JSONRPC_INVALID_REQUEST: i64 = -32600;

/// The code of an unknown method.
pub const JSONRPC_METHOD_NOT_FOUND: i64 = -32601;

/// The code of parameters that do not fit the method.
pub const JSONRPC_INVALID_PARAMS: i64 = -32602;

/// The code of a failure within the server.
pub const JSONRPC_INTERNAL_ERROR: i64 = -32603;

/// A request or, without an identifier, a notification.
#[derive(Debug)]
pub struct JsonRpcRequest {
    pub jsonrpc: String,
    pub id: Option<Json>,
    pub method: String,
    pub params: Option<Json>,
}

/// The identifier in a response, null where there is none.
pub open spec fn id_value(id: Option<Json>) -> JsonV {
    match id {
        Some(j) => j@,
        None => JsonV::Null,
    }
}

/// An integer as a JSON number.
pub open spec fn int_value(n: i64) -> JsonV {
    if n < 0 {
        JsonV::Negative(n)
    } else {
        JsonV::Unsigned(n as u64)
    }
}

/// The envelope of a result.
pub open spec fn result_envelope(id: Option<Json>, result: JsonV) -> JsonV {
    JsonV::Object(
        Seq::empty()
            .push(("jsonrpc"@, JsonV::Text("2.0"@)))
            .push(("id"@, id_value(id)))
            .push(("result"@, result)),
    )
}

/// The envelope of an error.
pub open spec fn error_envelope(id: Option<Json>, code: i64, message: Seq<char>) -> JsonV {
    JsonV::Object(
        Seq::empty()
            .push(("jsonrpc"@, JsonV::Text("2.0"@)))
            .push(("id"@, id_value(id)))
            .push(("error"@, JsonV::Object(
                Seq::empty()
                    .push(("code"@, int_value(code)))
                    .push(("message"@, JsonV::Text(message))),
            ))),
    )
}

/// The text of a result.
pub open spec fn result_body(id: Option<Json>, result: JsonV) -> Seq<char> {
    json_text(result_envelope(id, result))
}

/// The text of an error.
pub open spec fn error_body(id: Option<Json>, code: i64, message: Seq<char>) -> Seq<char> {
    json_text(error_envelope(id, code, message))
}

fn id_json(id: &Option<Json>) -> (r: Json)
    ensures
        r@ == id_value(*id),
{
    match id {
        Some(j) => j.clone(),
        None => Json::Null,
    }
}

fn int_json(n: i64) -> (r: Json)
    ensures
        r@ == int_value(n),
{
    if n < 0 {
        Json::Negative(n)
    } else {
        Json::Unsigned(n as u64)
    }
}

/// The text of a result.
pub fn json_rpc_result(id: &Option<Json>, result: Json) -> (r: String)
    ensures
        r@ == result_body(*id, result@),
{
    let mut fields = no_fields();
    put_text(&mut fields, "jsonrpc", "2.0");
    put_field(&mut fields, "id", id_json(id));
    put_field(&mut fields, "result", result);
    print_json(&object(fields))
}

/// The text of an error.
pub fn json_rpc_error(id: &Option<Json>, code: i64, message: &str) -> (r: String)
    ensures
        r@ == error_body(*id, code, message@),
{
    let mut error = no_fields();
    put_field(&mut error, "code", int_json(code));
    put_text(&mut error, "message", message);
    let mut fields = no_fields();
    put_text(&mut fields, "jsonrpc", "2.0");
    put_field(&mut fields, "id", id_json(id));
    put_field(&mut fields, "error", object(error));
    print_json(&object(fields))
}

/// Whatever the answer, it names the protocol version and echoes the request's
/// identifier; it holds a result or an error, never both.
pub proof fn law_answers_echo_the_id(id: Option<Json>, result: JsonV, code: i64, message: Seq<char>)
    ensures
        result_envelope(id, result) matches JsonV::Object(f) && get_field(f, "id"@) == Some(
            id_value(id),
        ) && get_field(f, "jsonrpc"@) == Some(JsonV::Text("2.0"@)) && get_field(f, "result"@)
            == Some(result) && get_field(f, "error"@) is None,
        error_envelope(id, code, message) matches JsonV::Object(f) && get_field(f, "id"@) == Some(
            id_value(id),
        ) && get_field(f, "jsonrpc"@) == Some(JsonV::Text("2.0"@)) && get_field(f, "result"@)
            is None && get_field(f, "error"@) is Some,
{
    reveal_strlit("id");
    reveal_strlit("jsonrpc");
    reveal_strlit("result");
    reveal_strlit("error");
    reveal_with_fuel(crate::json::field_at, 4);
    assert("id"@.len() == 2 && "jsonrpc"@.len() == 7 && "result"@.len() == 6 && "error"@.len()
        == 5);
}

// ---------------------------------------------------------------------------
// Parameters
// ---------------------------------------------------------------------------
/// The text in a field of parameters.
pub open spec fn text_param(params: Option<Json>, name: Seq<char>) -> Option<Seq<char>> {
    match params {
        Some(p) => match p@ {
            JsonV::Object(fields) => match get_field(fields, name) {
                Some(JsonV::Text(s)) => Some(s),
                _ => None,
            },
            _ => None,
        },
        None => None,
    }
}

/// The text in a field of parameters.
pub fn find_text_param<'a>(params: &'a Option<Json>, name: &str) -> (r: Option<&'a String>)
    ensures
        match r {
            Some(s) => text_param(*params, name@) == Some(s@),
            None => text_param(*params, name@) is None,
        },
{
    if let Some(Json::Object(fields)) = params {
        proof {
            lemma_object_view(*fields);
        }
        if let Some(Json::Text(s)) = find_field(fields, name) {
            return Some(s);
        }
    }
    None
}

/// A part of a prompt.
#[derive(Debug)]
pub enum PromptContentBlock {
    Text { text: String },
    /// Anything but text.
    Other,
}

/// The model of a [`PromptContentBlock`].
pub enum BlockV {
    Text(Seq<char>),
    Other,
}

impl DeepView for PromptContentBlock {
    type V = BlockV;

    open spec fn deep_view(&self) -> BlockV {
        match self {
            PromptContentBlock::Text { text } => BlockV::Text(text@),
            PromptContentBlock::Other => BlockV::Other,
        }
    }
}

/// The texts among the parts of a prompt.
pub open spec fn block_texts(blocks: Seq<BlockV>) -> Seq<Seq<char>>
    decreases blocks.len(),
{
    if blocks.len() == 0 {
        seq![]
    } else {
        let rest = block_texts(blocks.drop_last());
        match blocks.last() {
            BlockV::Text(s) => rest.push(s),
            BlockV::Other => rest,
        }
    }
}

/// The texts among the parts of a prompt, a line break between each two.
pub fn prompt_blocks_to_text(blocks: &Vec<PromptContentBlock>) -> (r: String)
    ensures
        r@ == join(block_texts(blocks.deep_view()), "\n"@),
{
    let ghost all = blocks.deep_view();
    let mut out: Vec<String> = Vec::new();
    let mut i: usize = 0;
    proof {
        assert(all.take(0) =~= Seq::<BlockV>::empty());
        assert(out.deep_view() =~= Seq::<Seq<char>>::empty());
    }
    while i < blocks.len()
        invariant
            i <= blocks@.len(),
            all == blocks.deep_view(),
            out.deep_view() == block_texts(all.take(i as int)),
        decreases blocks@.len() - i,
    {
        let ghost before = out.deep_view();
        proof {
            assert(all.take(i + 1).drop_last() =~= all.take(i as int));
            assert(all.take(i + 1).last() == blocks@[i as int].deep_view());
        }
        if let PromptContentBlock::Text { text } = &blocks[i] {
            out.push(text.clone());
            proof {
                assert(out.deep_view() =~= before.push(text@));
            }
        }
        i = i + 1;
    }
    proof {
        assert(all.take(all.len() as int) =~= all);
    }
    join_text(&out, "\n")
}

/// The part of a prompt that a value stands for: an object with a `type`, and
/// with a `text` where the type is `text`.
pub open spec fn block_of(value: JsonV) -> Option<BlockV> {
    match value {
        JsonV::Object(fields) => match get_field(fields, "type"@) {
            Some(JsonV::Text(t)) => if t == "text"@ {
                match get_field(fields, "text"@) {
                    Some(JsonV::Text(s)) => Some(BlockV::Text(s)),
                    _ => None,
                }
            } else {
                Some(BlockV::Other)
            },
            _ => None,
        },
        _ => None,
    }
}

/// The parts of a prompt that values stand for; none where one of them stands for
/// no part.
pub open spec fn blocks_of(items: Seq<JsonV>) -> Option<Seq<BlockV>>
    decreases items.len(),
{
    if items.len() == 0 {
        Some(seq![])
    } else {
        match (blocks_of(items.drop_last()), block_of(items.last())) {
            (Some(rest), Some(b)) => Some(rest.push(b)),
            _ => None,
        }
    }
}

/// The session and the prompt in parameters.
pub open spec fn prompt_params(params: Option<Json>) -> Option<(Seq<char>, Seq<BlockV>)> {
    match (text_param(params, "sessionId"@), params) {
        (Some(session_id), Some(p)) => match p@ {
            JsonV::Object(fields) => match get_field(fields, "prompt"@) {
                Some(JsonV::Array(items)) => match blocks_of(items) {
                    Some(blocks) => Some((session_id, blocks)),
                    None => None,
                },
                _ => None,
            },
            _ => None,
        },
        _ => None,
    }
}

fn parse_block(value: &Json) -> (r: Option<PromptContentBlock>)
    ensures
        r.deep_view() == block_of(value@),
{
    if let Json::Object(fields) = value {
        proof {
            lemma_object_view(*fields);
        }
        if let Some(Json::Text(t)) = find_field(fields, "type") {
            if !same_text(t.as_str(), "text") {
                return Some(PromptContentBlock::Other);
            }
            if let Some(Json::Text(s)) = find_field(fields, "text") {
                return Some(PromptContentBlock::Text { text: s.clone() });
            }
        }
    }
    None
}

/// If the first values stand for no parts, neither do all of them.
proof fn lemma_blocks_prefix(items: Seq<JsonV>, i: int)
    requires
        0 <= i <= items.len(),
        blocks_of(items.take(i)) is None,
    ensures
        blocks_of(items) is None,
    decreases items.len() - i,
{
    if i == items.len() {
        assert(items.take(i) =~= items);
    } else {
        assert(items.take(i + 1).drop_last() =~= items.take(i));
        lemma_blocks_prefix(items, i + 1);
    }
}

fn parse_blocks(items: &Vec<Json>) -> (r: Option<Vec<PromptContentBlock>>)
    ensures
        r.deep_view() == blocks_of(items_view(items@)),
{
    let ghost all = items_view(items@);
    let mut out: Vec<PromptContentBlock> = Vec::new();
    let mut i: usize = 0;
    proof {
        assert(all.take(0) =~= Seq::<JsonV>::empty());
        assert(out.deep_view() =~= Seq::<BlockV>::empty());
    }
    while i < items.len()
        invariant
            i <= items@.len(),
            all == items_view(items@),
            blocks_of(all.take(i as int)) == Some(out.deep_view()),
        decreases items@.len() - i,
    {
        let ghost before = out.deep_view();
        proof {
            assert(all.take(i + 1).drop_last() =~= all.take(i as int));
            assert(all.take(i + 1).last() == items@[i as int]@);
        }
        match parse_block(&items[i]) {
            Some(b) => {
                out.push(b);
                proof {
                    assert(out.deep_view() =~= before.push(b.deep_view()));
                }
            },
            None => {
                proof {
                    lemma_blocks_prefix(all, i + 1);
                }
                return None;
            },
        }
        i = i + 1;
    }
    proof {
        assert(all.take(all.len() as int) =~= all);
    }
    Some(out)
}

/// The session and the prompt in parameters.
pub fn parse_prompt_params(params: &Option<Json>) -> (r: Option<
    (String, Vec<PromptContentBlock>),
>)
    ensures
        match r {
            Some((session_id, blocks)) => prompt_params(*params) == Some(
                (session_id@, blocks.deep_view()),
            ),
            None => prompt_params(*params) is None,
        },
{
    let session_id = match find_text_param(params, "sessionId") {
        Some(s) => s,
        None => {
            return None;
        },
    };
    if let Some(Json::Object(fields)) = params {
        proof {
            lemma_object_view(*fields);
        }
        if let Some(Json::Array(items)) = find_field(fields, "prompt") {
            proof {
                lemma_array_view(*items);
            }
            return match parse_blocks(items) {
                Some(blocks) => Some((session_id.clone(), blocks)),
                None => None,
            };
        }
    }
    None
}

// ---------------------------------------------------------------------------
// Session updates
// ---------------------------------------------------------------------------
/// The notification that something happened in a session.
pub open spec fn update_envelope(session_id: Seq<char>, update: JsonV) -> JsonV {
    JsonV::Object(
        Seq::empty()
            .push(("jsonrpc"@, JsonV::Text("2.0"@)))
            .push(("method"@, JsonV::Text("session/update"@)))
            .push(("params"@, JsonV::Object(
                Seq::empty()
                    .push(("sessionId"@, JsonV::Text(session_id)))
                    .push(("update"@, update)),
            ))),
    )
}

/// An update that carries text.
pub open spec fn text_update(kind: Seq<char>, content: Seq<char>) -> JsonV {
    JsonV::Object(
        Seq::empty()
            .push(("sessionUpdate"@, JsonV::Text(kind)))
            .push(("content"@, JsonV::Object(
                Seq::empty()
                    .push(("type"@, JsonV::Text("text"@)))
                    .push(("text"@, JsonV::Text(content))),
            ))),
    )
}

/// An update that carries a custom event.
pub open spec fn custom_update(name: Seq<char>, payload: JsonV) -> JsonV {
    JsonV::Object(
        Seq::empty()
            .push(("sessionUpdate"@, JsonV::Text("agent_custom"@)))
            .push(("customName"@, JsonV::Text(name)))
            .push(("customPayload"@, payload)),
    )
}

fn update_text(session_id: &str, update: Json) -> (r: String)
    ensures
        r@ == json_text(update_envelope(session_id@, update@)),
{
    let mut params = no_fields();
    put_text(&mut params, "sessionId", session_id);
    put_field(&mut params, "update", update);
    let mut fields = no_fields();
    put_text(&mut fields, "jsonrpc", "2.0");
    put_text(&mut fields, "method", "session/update");
    put_field(&mut fields, "params", object(params));
    print_json(&object(fields))
}

/// The notification of text.
pub fn session_text_update(session_id: &str, kind: &str, content: &str) -> (r: String)
    ensures
        r@ == json_text(update_envelope(session_id@, text_update(kind@, content@))),
{
    let mut block = no_fields();
    put_text(&mut block, "type", "text");
    put_text(&mut block, "text", content);
    let mut update = no_fields();
    put_text(&mut update, "sessionUpdate", kind);
    put_field(&mut update, "content", object(block));
    update_text(session_id, object(update))
}

/// The notification of a custom event.
pub fn session_custom_update(session_id: &str, name: &str, payload: &Json) -> (r: String)
    ensures
        r@ == json_text(update_envelope(session_id@, custom_update(name@, payload@))),
{
    let mut update = no_fields();
    put_text(&mut update, "sessionUpdate", "agent_custom");
    put_text(&mut update, "customName", name);
    put_field(&mut update, "customPayload", payload.clone());
    update_text(session_id, object(update))
}

/// The words of a failure without the mark that the agent puts before them.
pub open spec fn without_error_mark(content: Seq<char>) -> Seq<char> {
    if starts_with(content, "Error: "@) {
        content.skip(7)
    } else {
        content
    }
}

/// The words of a failure without the mark that the agent puts before them.
pub fn strip_agent_error_prefix(content: &str) -> (r: String)
    ensures
        r@ == without_error_mark(content@),
{
    let v = chars_of(content);
    let mark = chars_of("Error: ");
    proof {
        reveal_strlit("Error: ");
    }
    if chars_occur_at(&v, &mark, 0) {
        proof {
            assert(v@.subrange(7, v@.len() as int) =~= v@.skip(7));
        }
        text_between(&v, 7, v.len())
    } else {
        text(content)
    }
}

// ---------------------------------------------------------------------------
// Laws
// ---------------------------------------------------------------------------
/// An answer holds the request's identifier as it came, or null where there was none,
/// and the result, or the code and the words of the error, as they were given.
pub proof fn law_answers_hold_what_they_answer(
    id: Option<Json>,
    result: JsonV,
    code: i64,
    message: Seq<char>,
)
    ensures
        result_body(id, result) == json_text(result_envelope(id, result)),
        error_body(id, code, message) == json_text(error_envelope(id, code, message)),
        id matches Some(j) ==> at(result_envelope(id, result), "id"@) == Some(j@) && at(
            error_envelope(id, code, message),
            "id"@,
        ) == Some(j@),
        id is None ==> at(result_envelope(id, result), "id"@) == Some(JsonV::Null) && at(
            error_envelope(id, code, message),
            "id"@,
        ) == Some(JsonV::Null),
        at(result_envelope(id, result), "result"@) == Some(result),
        at(error_envelope(id, code, message), "error"@) matches Some(error) && says(
            error,
            "message"@,
            message,
        ) && (code < 0 ==> at(error, "code"@) == Some(JsonV::Negative(code))) && (code >= 0 ==> at(
            error,
            "code"@,
        ) == Some(JsonV::Unsigned(code as u64))),
{
    reveal_strlit("id");
    reveal_strlit("jsonrpc");
    reveal_strlit("result");
    reveal_strlit("error");
    reveal_strlit("code");
    reveal_strlit("message");
    reveal_with_fuel(crate::json::field_at, 4);
    assert("id"@.len() == 2 && "jsonrpc"@.len() == 7 && "result"@.len() == 6 && "error"@.len()
        == 5 && "code"@.len() == 4 && "message"@.len() == 7);
}

/// Whether a value answers a request with an error.
pub open spec fn answers_with_error(
    u: JsonV,
    id: Option<Json>,
    code: int,
    message: Seq<char>,
) -> bool {
    &&& at(u, "id"@) == Some(
        match id {
            Some(j) => j@,
            None => JsonV::Null,
        },
    )
    &&& at(u, "result"@) is None
    &&& at(inner(u, "error"@), "code"@) matches Some(JsonV::Negative(c)) && c == code
    &&& says(inner(u, "error"@), "message"@, message)
}

/// The envelope of an error answers with it.
pub proof fn lemma_error_answers(id: Option<Json>, code: i64, message: Seq<char>)
    requires
        code < 0,
    ensures
        answers_with_error(error_envelope(id, code, message), id, code as int, message),
{
    law_answers_hold_what_they_answer(id, JsonV::Null, code, message);
    law_answers_echo_the_id(id, JsonV::Null, code, message);
}

/// Whether a value is the notification that text of the given kind came in a session.
pub open spec fn notifies_of_text(
    u: JsonV,
    session_id: Seq<char>,
    kind: Seq<char>,
    content: Seq<char>,
) -> bool {
    &&& says(u, "method"@, "session/update"@)
    &&& at(u, "id"@) is None
    &&& says(inner(u, "params"@), "sessionId"@, session_id)
    &&& says(inner(inner(u, "params"@), "update"@), "sessionUpdate"@, kind)
    &&& says(inner(inner(inner(u, "params"@), "update"@), "content"@), "type"@, "text"@)
    &&& says(inner(inner(inner(u, "params"@), "update"@), "content"@), "text"@, content)
}

/// Whether a value is the notification that a custom event came in a session.
pub open spec fn notifies_of_event(
    u: JsonV,
    session_id: Seq<char>,
    name: Seq<char>,
    payload: JsonV,
) -> bool {
    &&& says(u, "method"@, "session/update"@)
    &&& at(u, "id"@) is None
    &&& says(inner(u, "params"@), "sessionId"@, session_id)
    &&& says(inner(inner(u, "params"@), "update"@), "sessionUpdate"@, "agent_custom"@)
    &&& says(inner(inner(u, "params"@), "update"@), "customName"@, name)
    &&& at(inner(inner(u, "params"@), "update"@), "customPayload"@) == Some(payload)
}

/// An update names its session and carries its text, or its event, as it was given.
pub proof fn law_updates_carry_what_came(
    session_id: Seq<char>,
    kind: Seq<char>,
    content: Seq<char>,
    name: Seq<char>,
    payload: JsonV,
)
    ensures
        notifies_of_text(
            update_envelope(session_id, text_update(kind, content)),
            session_id,
            kind,
            content,
        ),
        notifies_of_event(
            update_envelope(session_id, custom_update(name, payload)),
            session_id,
            name,
            payload,
        ),
{
    reveal_strlit("id");
    reveal_strlit("jsonrpc");
    reveal_strlit("method");
    reveal_strlit("params");
    reveal_strlit("sessionId");
    reveal_strlit("update");
    reveal_strlit("sessionUpdate");
    reveal_strlit("content");
    reveal_strlit("type");
    reveal_strlit("text");
    reveal_strlit("customName");
    reveal_strlit("customPayload");
    reveal_with_fuel(crate::json::field_at, 4);
    assert("id"@.len() == 2 && "jsonrpc"@.len() == 7 && "method"@.len() == 6 && "params"@.len()
        == 6 && "sessionId"@.len() == 9 && "update"@.len() == 6 && "sessionUpdate"@.len() == 13
        && "content"@.len() == 7 && "type"@.len() == 4 && "text"@.len() == 4
        && "customName"@.len() == 10 && "customPayload"@.len() == 13);
    assert("method"@[0] == 'm' && "params"@[0] == 'p');
    assert("type"@[1] == 'y' && "text"@[1] == 'e');
    assert("customPayload"@[0] == 'c' && "sessionUpdate"@[0] == 's');
}

/// A prompt is read block by block, in order: a text block gives its text, a block of
/// another type none, and a prompt that holds anything but blocks is not read.
pub proof fn law_prompts_are_read(items: Seq<JsonV>, value: JsonV, t: Seq<char>)
    ensures
        blocks_of(seq![]) == Some(Seq::<BlockV>::empty()),
        says(value, "type"@, "text"@) && says(value, "text"@, t) ==> block_of(value) == Some(
            BlockV::Text(t),
        ),
        (at(value, "type"@) matches Some(JsonV::Text(kind)) && kind != "text"@) ==> block_of(value)
            == Some(BlockV::Other),
        !(at(value, "type"@) matches Some(JsonV::Text(_))) ==> block_of(value) is None,
        says(value, "type"@, "text"@) && !(at(value, "text"@) matches Some(JsonV::Text(_)))
            ==> block_of(value) is None,
        match (blocks_of(items), block_of(value)) {
            (Some(before), Some(block)) => blocks_of(items.push(value)) == Some(
                before.push(block),
            ),
            _ => blocks_of(items.push(value)) is None,
        },
{
    assert(items.push(value).drop_last() =~= items);
}

/// The texts of a prompt are those of its text blocks, in their order.
pub proof fn law_texts_of_prompts(blocks: Seq<BlockV>, t: Seq<char>)
    ensures
        block_texts(seq![]).len() == 0,
        block_texts(blocks.push(BlockV::Text(t))) == block_texts(blocks).push(t),
        block_texts(blocks.push(BlockV::Other)) == block_texts(blocks),
{
    assert(blocks.push(BlockV::Text(t)).drop_last() =~= blocks);
    assert(blocks.push(BlockV::Other).drop_last() =~= blocks);
}

/// Parameters are read by name: a session is the text under `sessionId`, a prompt the
/// array under `prompt`.
pub proof fn law_parameters_are_read(params: Json, name: Seq<char>, session_id: Seq<char>)
    ensures
        text_param(None, name) is None,
        match at(params@, name) {
            Some(JsonV::Text(s)) => text_param(Some(params), name) == Some(s),
            _ => text_param(Some(params), name) is None,
        },
        match (at(params@, "sessionId"@), at(params@, "prompt"@)) {
            (Some(JsonV::Text(s)), Some(JsonV::Array(items))) => match blocks_of(items) {
                Some(blocks) => prompt_params(Some(params)) == Some((s, blocks)),
                None => prompt_params(Some(params)) is None,
            },
            _ => prompt_params(Some(params)) is None,
        },
        prompt_params(None) is None,
{
}

/// The mark before the words of a failure is dropped, once, and nothing else.
pub proof fn law_error_marks_are_dropped(words: Seq<char>)
    ensures
        without_error_mark("Error: "@ + words) == words,
        (words.len() < 7 || words.take(7) != "Error: "@) ==> without_error_mark(words) == words,
{
    reveal_strlit("Error: ");
    let marked = "Error: "@ + words;
    assert("Error: "@.len() == 7);
    assert(marked.subrange(0, 7) =~= "Error: "@);
    assert(marked.skip(7) =~= words);
    if words.len() >= 7 {
        assert(words.subrange(0, 7) =~= words.take(7));
    }
}

/// A block holds what its model holds.
pub proof fn law_blocks_hold_their_text(block: PromptContentBlock)
    ensures
        match block {
            PromptContentBlock::Text { text } => block.deep_view() == BlockV::Text(text@),
            PromptContentBlock::Other => block.deep_view() is Other,
        },
{
}

} // verus!
