//! Texts that describe tool calls and their results.
use vstd::prelude::*;

use crate::cut::{byte_len, byte_length, lemma_truncated, truncate_utf8, truncated};
use crate::json::{held_pretty_text, json_of_text, prettify_json};
use crate::providers::{LLMResponse, LLMToolCall};
use crate::session::{text_message, CallV, Message, MessageV, Role, ToolCall};
use crate::text::{put, text, trim, trim_text};

verus! {

/// A text cut at `max` bytes, with a mark where something is missing.
pub open spec fn shortened(s: Seq<char>, max: nat) -> Seq<char> {
    if byte_len(truncated(s, max)) < byte_len(s) {
        truncated(s, max) + "\n..."@
    } else {
        truncated(s, max)
    }
}

/// A text cut at `max` bytes, with a mark where something is missing.
fn shorten(s: &str, max: usize) -> (r: String)
    ensures
        r@ == shortened(s@, max as nat),
{
    let mut cut = truncate_utf8(s, max);
    if byte_length(cut.as_str()) < byte_length(s) {
        put(&mut cut, "\n...");
    }
    cut
}

/// A text that fits is not shortened.
pub proof fn law_short_text_is_kept(s: Seq<char>, max: nat)
    requires
        byte_len(s) <= max,
    ensures
        shortened(s, max) == s,
{
    lemma_truncated(s, max);
}

/// The preview of a tool result; none where it is blank.
pub open spec fn result_preview(result: Seq<char>) -> Option<Seq<char>> {
    if trim(result).len() == 0 {
        None
    } else {
        Some(shortened(trim(result), 2000))
    }
}

/// The preview of a tool result; none where it is blank.
pub fn build_tool_result_preview(result: &str) -> (r: Option<String>)
    ensures
        r.deep_view() == result_preview(result@),
{
    let trimmed = trim_text(result);
    if trimmed.as_str().is_empty() {
        return None;
    }
    Some(shorten(trimmed.as_str(), 2000))
}

/// Arguments in indented form; text that is not JSON stays as it is.
pub open spec fn prettified(raw_args: Seq<char>) -> Seq<char> {
    match json_of_text(raw_args) {
        Ok(value) => held_pretty_text(value),
        Err(_) => raw_args,
    }
}

/// Arguments in indented form; text that is not JSON stays as it is.
pub fn prettify_tool_arguments(raw_args: &str) -> (r: String)
    ensures
        r@ == prettified(raw_args@),
{
    match prettify_json(raw_args) {
        Some(pretty) => pretty,
        None => text(raw_args),
    }
}

/// The text of a streamed reply: what its end says, or the pieces where that is
/// blank.
pub fn resolve_streamed_response_text(delta_accum: &str, done_content: &str) -> (r: String)
    ensures
        r@ == (if trim(done_content@).len() == 0 {
            delta_accum@
        } else {
            done_content@
        }),
{
    let done_trimmed = trim_text(done_content);
    if done_trimmed.as_str().is_empty() {
        text(delta_accum)
    } else {
        text(done_content)
    }
}

/// The message by which the model's tool calls enter a conversation: it has no
/// text of its own.
pub fn assistant_message_with_tool_calls(tool_calls: &Vec<LLMToolCall>) -> (r: Message)
    ensures
        r.deep_view() == (MessageV {
            tool_calls: Some(tool_calls.deep_view()),
            ..text_message(Role::Assistant, ""@)
        }),
{
    let mut calls: Vec<ToolCall> = Vec::new();
    let mut i: usize = 0;
    while i < tool_calls.len()
        invariant
            i <= tool_calls@.len(),
            calls@.len() == i,
            forall|j: int|
                0 <= j < i ==> (#[trigger] calls@[j]).deep_view() == tool_calls@[j].deep_view(),
        decreases tool_calls@.len() - i,
    {
        let tc = &tool_calls[i];
        calls.push(
            ToolCall {
                id: tc.id.clone(),
                name: tc.name.clone(),
                arguments: tc.arguments.clone(),
            },
        );
        i = i + 1;
    }
    proof {
        assert(calls.deep_view() =~= tool_calls.deep_view());
    }
    Message::assistant_with_tools("", calls)
}

/// What is shown of the model's thinking: its text beside tool calls.
pub open spec fn thinking_detail(content: Seq<char>, tool_calls: Seq<CallV>) -> Option<Seq<char>> {
    if tool_calls.len() == 0 || trim(content).len() == 0 {
        None
    } else {
        Some(shortened("Model draft:\n"@ + trim(content), 8000))
    }
}

/// What is shown of the model's thinking: its text beside tool calls.
pub fn build_thinking_detail(response: &LLMResponse) -> (r: Option<String>)
    ensures
        r.deep_view() == thinking_detail(
            response.deep_view().content,
            response.deep_view().tool_calls,
        ),
{
    if !response.has_tool_calls() {
        return None;
    }
    let content = trim_text(response.content.as_str());
    if content.as_str().is_empty() {
        return None;
    }
    let mut merged = text("Model draft:\n");
    put(&mut merged, content.as_str());
    Some(shorten(merged.as_str(), 8000))
}

/// A sanitized tool result together with its preview.
pub fn build_tool_result_payload(sanitized_result: String) -> (r: (String, Option<String>))
    ensures
        r.0@ == sanitized_result@,
        r.1.deep_view() == result_preview(sanitized_result@),
{
    let preview = build_tool_result_preview(sanitized_result.as_str());
    (sanitized_result, preview)
}

/// A text that is too long is cut to its beginning, with a mark behind it.
pub proof fn law_long_text_is_cut(s: Seq<char>, max: nat)
    requires
        byte_len(s) > max,
    ensures
        exists|n: int|
            0 <= n < s.len() && shortened(s, max) == #[trigger] s.take(n) + "\n..."@ && byte_len(
                s.take(n),
            ) <= max && byte_len(s.take(n + 1)) > max,
{
    lemma_truncated(s, max);
    let n = truncated(s, max).len() as int;
    if n == s.len() {
        assert(s.take(n) =~= s);
    }
    assert(truncated(s, max) == s.take(n));
}

/// What is shown of a result, and of the model's thinking, is its text without the
/// white space around it, cut where it is too long; nothing is shown of a blank one,
/// nor of the text of an answer without tool calls.
pub proof fn law_what_is_shown(result: Seq<char>, calls: Seq<CallV>)
    ensures
        trim(result).len() == 0 ==> result_preview(result) is None && thinking_detail(result, calls)
            is None,
        trim(result).len() > 0 && byte_len(trim(result)) <= 2000 ==> result_preview(result) == Some(
            trim(result),
        ),
        trim(result).len() > 0 ==> result_preview(result) == Some(shortened(trim(result), 2000)),
        calls.len() == 0 ==> thinking_detail(result, calls) is None,
        trim(result).len() > 0 && calls.len() > 0 ==> thinking_detail(result, calls) == Some(
            shortened("Model draft:\n"@ + trim(result), 8000),
        ),
{
    if byte_len(trim(result)) <= 2000 {
        law_short_text_is_kept(trim(result), 2000);
    }
}

/// Arguments that are JSON are shown in indented form, and others as they are.
pub proof fn law_arguments_are_shown(raw: Seq<char>)
    ensures
        json_of_text(raw) matches Ok(value) ==> prettified(raw) == held_pretty_text(value),
        json_of_text(raw) is Err ==> prettified(raw) == raw,
{
}

} // verus!
