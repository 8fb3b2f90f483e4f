//! Events for the user interface: thinking, tool calls, custom events.
use vstd::prelude::*;

use crate::agui_events::A2UI;
use crate::approval::{maybe_text, own};
use crate::bus::{
    plain_outbound, InboundMessage, InboundV, OutboundMessage, OutboundMessageKind, OutboundV,
    OUTBOUND_CUSTOM_NAME_KEY, OUTBOUND_CUSTOM_PAYLOAD_KEY, OUTBOUND_CUSTOM_SUMMARY_KEY,
};
use crate::json::{json_held, json_of_text, json_text, print_json, reads_back, Json, MAX_NESTING};
use crate::mermaid::{numbered, numbered_text};
use crate::number::{decimal, decimal_text};
use crate::text::{put, same_text, text};
use crate::tool_helpers::holds;

verus! {

/// The metadata key by which a transport asks for a streamed reply.
pub const STREAMING_CAPABLE_METADATA_KEY: &'static str = "streaming_capable";

pub const ACP_HTTP_CHANNEL: &'static str = "acp_http";

pub const ACP_STDIO_CHANNEL: &'static str = "acp";

/// Whether a channel shows custom events.
pub open spec fn shows_custom_events(channel: Seq<char>) -> bool {
    channel == ACP_HTTP_CHANNEL@ || channel == ACP_STDIO_CHANNEL@
}

/// Whether a channel shows custom events.
pub fn supports_custom_ui_channel(channel: &str) -> (r: bool)
    ensures
        r == shows_custom_events(channel@),
{
    same_text(channel, ACP_HTTP_CHANNEL) || same_text(channel, ACP_STDIO_CHANNEL)
}

/// Whether a message asks for a streamed reply.
pub open spec fn asks_for_stream(msg: InboundV) -> bool {
    holds(msg.metadata, STREAMING_CAPABLE_METADATA_KEY@, "true"@)
}

/// Whether a message asks for a streamed reply.
pub fn is_streaming_capable(msg: &InboundMessage) -> (r: bool)
    ensures
        r == asks_for_stream(msg@),
{
    msg.metadata.has(STREAMING_CAPABLE_METADATA_KEY, "true")
}

/// Whether a reply is streamed: the runtime allows it and the message asks for it.
pub fn should_stream(streaming_enabled: bool, msg: &InboundMessage) -> (r: bool)
    ensures
        r == (streaming_enabled && asks_for_stream(msg@)),
{
    streaming_enabled && is_streaming_capable(msg)
}

// ---------------------------------------------------------------------------
// Custom events
// ---------------------------------------------------------------------------
/// The message of a custom event; an empty summary is left out.
pub open spec fn custom_event(
    channel: Seq<char>,
    chat_id: Seq<char>,
    name: Seq<char>,
    payload: Seq<char>,
    summary: Option<Seq<char>>,
) -> OutboundV {
    let m = (OutboundV {
        kind: OutboundMessageKind::Custom,
        ..plain_outbound(channel, chat_id, ""@)
    }).with(OUTBOUND_CUSTOM_NAME_KEY@, name).with(OUTBOUND_CUSTOM_PAYLOAD_KEY@, payload);
    match summary {
        Some(s) => if s.len() > 0 {
            m.with(OUTBOUND_CUSTOM_SUMMARY_KEY@, s)
        } else {
            m
        },
        None => m,
    }
}

/// The message of a custom event for a receiver that may be unknown or may not
/// show such events.
pub open spec fn custom_event_for(
    channel: Option<Seq<char>>,
    chat_id: Option<Seq<char>>,
    name: Seq<char>,
    payload: Seq<char>,
    summary: Option<Seq<char>>,
) -> Option<OutboundV> {
    match (channel, chat_id) {
        (Some(ch), Some(id)) => if shows_custom_events(ch) {
            Some(custom_event(ch, id, name, payload, summary))
        } else {
            None
        },
        _ => None,
    }
}

/// The model of an optional message.
pub open spec fn maybe_outbound(m: Option<OutboundMessage>) -> Option<OutboundV> {
    match m {
        Some(x) => Some(x@),
        None => None,
    }
}

/// The message of a custom event with the given payload, a JSON text; none where
/// the receiver is unknown or does not show such events.
pub fn build_custom_ui_event(
    channel: Option<&str>,
    chat_id: Option<&str>,
    event_name: &str,
    payload_json: &str,
    summary: Option<&str>,
) -> (r: Option<OutboundMessage>)
    ensures
        maybe_outbound(r) == custom_event_for(
            maybe_text(channel),
            maybe_text(chat_id),
            event_name@,
            payload_json@,
            maybe_text(summary),
        ),
{
    let (ch, id) = match (channel, chat_id) {
        (Some(ch), Some(id)) => (ch, id),
        _ => {
            return None;
        },
    };
    if !supports_custom_ui_channel(ch) {
        return None;
    }
    let msg = OutboundMessage::new(ch, id, "").with_kind(
        OutboundMessageKind::Custom,
    ).with_metadata(OUTBOUND_CUSTOM_NAME_KEY, event_name).with_metadata(
        OUTBOUND_CUSTOM_PAYLOAD_KEY,
        payload_json,
    );
    match summary {
        Some(s) => if s.is_empty() {
            Some(msg)
        } else {
            Some(msg.with_metadata(OUTBOUND_CUSTOM_SUMMARY_KEY, s))
        },
        None => Some(msg),
    }
}

/// The message that carries one UI message to a client.
pub fn a2ui_event(channel: &str, chat_id: &str, message: &Json) -> (r: Option<OutboundMessage>)
    ensures
        maybe_outbound(r) == custom_event_for(
            Some(channel@),
            Some(chat_id@),
            A2UI@,
            json_text(message@),
            Some("[a2ui] update"@),
        ),
        reads_back(json_held(message@), MAX_NESTING as nat) ==> (json_of_text(
            json_text(message@),
        ) matches Ok(back) && back == json_held(message@)),
{
    let payload = print_json(message);
    build_custom_ui_event(
        Some(channel),
        Some(chat_id),
        A2UI,
        payload.as_str(),
        Some("[a2ui] update"),
    )
}

// ---------------------------------------------------------------------------
// Thinking
// ---------------------------------------------------------------------------
/// The payload of a thinking event.
#[derive(Debug)]
pub struct ThinkingStatusPayload {
    pub thought_id: String,
    pub status: String,
    pub elapsed_ms: Option<u64>,
    pub detail: Option<String>,
}

/// The model of a [`ThinkingStatusPayload`].
pub struct ThinkingV {
    pub thought_id: Seq<char>,
    pub status: Seq<char>,
    pub elapsed_ms: Option<u64>,
    pub detail: Option<Seq<char>>,
}

impl View for ThinkingStatusPayload {
    type V = ThinkingV;

    open spec fn view(&self) -> ThinkingV {
        ThinkingV {
            thought_id: self.thought_id@,
            status: self.status@,
            elapsed_ms: self.elapsed_ms,
            detail: self.detail.deep_view(),
        }
    }
}

/// The summary of a thinking event.
pub open spec fn thinking_summary(status: Seq<char>, elapsed_ms: Option<u64>) -> Option<Seq<char>> {
    if status == "thinking"@ {
        Some("[thinking] started"@)
    } else if status == "done"@ {
        match elapsed_ms {
            Some(ms) => Some("[thinking] done ("@ + decimal(ms as nat) + "ms)"@),
            None => Some("[thinking] done"@),
        }
    } else {
        None
    }
}

/// The payload and the summary of a thinking event.
pub fn thinking_status_event(
    thought_id: &str,
    status: &str,
    elapsed_ms: Option<u64>,
    detail: Option<&str>,
) -> (r: (ThinkingStatusPayload, Option<String>))
    ensures
        r.0@ == (ThinkingV {
            thought_id: thought_id@,
            status: status@,
            elapsed_ms,
            detail: maybe_text(detail),
        }),
        r.1.deep_view() == thinking_summary(status@, elapsed_ms),
{
    let payload = ThinkingStatusPayload {
        thought_id: text(thought_id),
        status: text(status),
        elapsed_ms,
        detail: own(detail),
    };
    let summary = if same_text(status, "thinking") {
        Some(text("[thinking] started"))
    } else if same_text(status, "done") {
        match elapsed_ms {
            Some(ms) => {
                let mut s = text("[thinking] done (");
                put(&mut s, decimal_text(ms).as_str());
                put(&mut s, "ms)");
                Some(s)
            },
            None => Some(text("[thinking] done")),
        }
    } else {
        None
    };
    (payload, summary)
}

/// A thought that has begun.
#[derive(Debug)]
pub struct ThinkingEventToken {
    pub thought_id: String,
    /// When it began, in milliseconds of a clock that does not go back.
    pub started_at_ms: u64,
}

/// A thought with the given number that begins now.
pub fn start_thinking_event_token(seq_no: u64, now_ms: u64) -> (r: ThinkingEventToken)
    ensures
        r.thought_id@ == numbered("thought_"@, seq_no as nat),
        r.started_at_ms == now_ms,
{
    ThinkingEventToken { thought_id: numbered_text("thought_", seq_no), started_at_ms: now_ms }
}

/// A thought that is shown to a chat from its beginning to its end.
#[derive(Debug)]
pub struct ThinkingScope {
    pub channel: String,
    pub chat_id: String,
    pub token: ThinkingEventToken,
}

impl ThinkingScope {
    /// Begins a thought: the scope, and the payload and the summary of its first
    /// event.
    pub fn start(channel: &str, chat_id: &str, seq_no: u64, now_ms: u64) -> (r: (
        Self,
        ThinkingStatusPayload,
        Option<String>,
    ))
        ensures
            r.0.channel@ == channel@,
            r.0.chat_id@ == chat_id@,
            r.0.token.thought_id@ == numbered("thought_"@, seq_no as nat),
            r.0.token.started_at_ms == now_ms,
            r.1@ == (ThinkingV {
                thought_id: numbered("thought_"@, seq_no as nat),
                status: "thinking"@,
                elapsed_ms: None,
                detail: None,
            }),
            r.2.deep_view() == Some("[thinking] started"@),
    {
        let token = start_thinking_event_token(seq_no, now_ms);
        let (payload, summary) = thinking_status_event(
            token.thought_id.as_str(),
            "thinking",
            None,
            None,
        );
        (
            ThinkingScope { channel: text(channel), chat_id: text(chat_id), token },
            payload,
            summary,
        )
    }

    /// Ends the thought: the payload and the summary of its last event.
    pub fn finish(&self, now_ms: u64, detail: Option<&str>) -> (r: (
        ThinkingStatusPayload,
        Option<String>,
    ))
        ensures
            ({
                let ms = if now_ms >= self.token.started_at_ms {
                    (now_ms - self.token.started_at_ms) as u64
                } else {
                    0
                };
                &&& r.0@ == (ThinkingV {
                    thought_id: self.token.thought_id@,
                    status: "done"@,
                    elapsed_ms: Some(ms),
                    detail: maybe_text(detail),
                })
                &&& r.1.deep_view() == Some("[thinking] done ("@ + decimal(ms as nat) + "ms)"@)
            }),
    {
        proof {
            reveal_strlit("done");
            reveal_strlit("thinking");
            assert("done"@.len() != "thinking"@.len());
        }
        thinking_status_event(
            self.token.thought_id.as_str(),
            "done",
            Some(now_ms.saturating_sub(self.token.started_at_ms)),
            detail,
        )
    }
}

// ---------------------------------------------------------------------------
// Tool calls
// ---------------------------------------------------------------------------
/// The payload of a tool call event.
#[derive(Debug)]
pub struct ToolCallStatusPayload {
    pub tool_call_id: String,
    pub tool_name: String,
    pub status: String,
    pub elapsed_ms: Option<u64>,
    pub arguments: Option<String>,
    pub result: Option<String>,
    pub error: Option<String>,
    pub result_preview: Option<String>,
}

/// The model of a [`ToolCallStatusPayload`].
pub struct ToolStatusV {
    pub tool_call_id: Seq<char>,
    pub tool_name: Seq<char>,
    pub status: Seq<char>,
    pub elapsed_ms: Option<u64>,
    pub arguments: Option<Seq<char>>,
    pub result: Option<Seq<char>>,
    pub error: Option<Seq<char>>,
    pub result_preview: Option<Seq<char>>,
}

impl View for ToolCallStatusPayload {
    type V = ToolStatusV;

    open spec fn view(&self) -> ToolStatusV {
        ToolStatusV {
            tool_call_id: self.tool_call_id@,
            tool_name: self.tool_name@,
            status: self.status@,
            elapsed_ms: self.elapsed_ms,
            arguments: self.arguments.deep_view(),
            result: self.result.deep_view(),
            error: self.error.deep_view(),
            result_preview: self.result_preview.deep_view(),
        }
    }
}

/// The summary of a tool call event.
pub open spec fn tool_summary(
    tool_name: Seq<char>,
    status: Seq<char>,
    elapsed_ms: Option<u64>,
) -> Option<Seq<char>> {
    if status == "started"@ {
        Some("[tool] "@ + tool_name + " started"@)
    } else if status == "done"@ {
        match elapsed_ms {
            Some(ms) => Some(
                "[tool] "@ + tool_name + " done"@ + " ("@ + decimal(ms as nat) + "ms)"@,
            ),
            None => Some("[tool] "@ + tool_name + " done"@),
        }
    } else if status == "failed"@ {
        Some("[tool] "@ + tool_name + " failed"@)
    } else {
        None
    }
}

/// The payload and the summary of a tool call event.
pub fn tool_call_status_event(
    tool_call_id: &str,
    tool_name: &str,
    status: &str,
    elapsed_ms: Option<u64>,
    arguments: Option<&str>,
    result: Option<&str>,
    error: Option<&str>,
    result_preview: Option<&str>,
) -> (r: (ToolCallStatusPayload, Option<String>))
    ensures
        r.0@ == (ToolStatusV {
            tool_call_id: tool_call_id@,
            tool_name: tool_name@,
            status: status@,
            elapsed_ms,
            arguments: maybe_text(arguments),
            result: maybe_text(result),
            error: maybe_text(error),
            result_preview: maybe_text(result_preview),
        }),
        r.1.deep_view() == tool_summary(tool_name@, status@, elapsed_ms),
{
    let payload = ToolCallStatusPayload {
        tool_call_id: text(tool_call_id),
        tool_name: text(tool_name),
        status: text(status),
        elapsed_ms,
        arguments: own(arguments),
        result: own(result),
        error: own(error),
        result_preview: own(result_preview),
    };
    let mut s = text("[tool] ");
    put(&mut s, tool_name);
    if same_text(status, "started") {
        put(&mut s, " started");
    } else if same_text(status, "done") {
        put(&mut s, " done");
        if let Some(ms) = elapsed_ms {
            put(&mut s, " (");
            put(&mut s, decimal_text(ms).as_str());
            put(&mut s, "ms)");
        }
    } else if same_text(status, "failed") {
        put(&mut s, " failed");
    } else {
        return (payload, None);
    }
    (payload, Some(s))
}

/// How a tool call ended.
#[derive(Debug)]
pub enum ToolCallOutcome<'a> {
    Done,
    Failed { raw_error: &'a str },
}

/// The payload and the summary of the event that a tool call starts.
pub fn tool_call_started_event(tool_call_id: &str, tool_name: &str, pretty_args: &str) -> (r: (
    ToolCallStatusPayload,
    Option<String>,
))
    ensures
        r.0@ == (ToolStatusV {
            tool_call_id: tool_call_id@,
            tool_name: tool_name@,
            status: "started"@,
            elapsed_ms: None,
            arguments: Some(pretty_args@),
            result: None,
            error: None,
            result_preview: None,
        }),
        r.1.deep_view() == Some("[tool] "@ + tool_name@ + " started"@),
{
    tool_call_status_event(
        tool_call_id,
        tool_name,
        "started",
        None,
        Some(pretty_args),
        None,
        None,
        None,
    )
}

/// The payload and the summary of the event that a tool call ended.
pub fn tool_call_finished_event(
    tool_call_id: &str,
    tool_name: &str,
    outcome: ToolCallOutcome<'_>,
    elapsed_ms: u64,
    pretty_args: &str,
    sanitized_result: &str,
    result_preview: Option<&str>,
) -> (r: (ToolCallStatusPayload, Option<String>))
    ensures
        r.0@ == (ToolStatusV {
            tool_call_id: tool_call_id@,
            tool_name: tool_name@,
            status: match outcome {
                ToolCallOutcome::Done => "done"@,
                ToolCallOutcome::Failed { raw_error } => "failed"@,
            },
            elapsed_ms: Some(elapsed_ms),
            arguments: Some(pretty_args@),
            result: Some(sanitized_result@),
            error: match outcome {
                ToolCallOutcome::Done => None,
                ToolCallOutcome::Failed { raw_error } => Some(raw_error@),
            },
            result_preview: maybe_text(result_preview),
        }),
        r.1.deep_view() == (match outcome {
            ToolCallOutcome::Done => tool_summary(tool_name@, "done"@, Some(elapsed_ms)),
            ToolCallOutcome::Failed { raw_error } => tool_summary(
                tool_name@,
                "failed"@,
                Some(elapsed_ms),
            ),
        }),
{
    let (status, error) = match outcome {
        ToolCallOutcome::Done => ("done", None),
        ToolCallOutcome::Failed { raw_error } => ("failed", Some(raw_error)),
    };
    tool_call_status_event(
        tool_call_id,
        tool_name,
        status,
        Some(elapsed_ms),
        Some(pretty_args),
        Some(sanitized_result),
        error,
        result_preview,
    )
}

/// Custom events go only to channels that show them, and to the chat they are for.
pub proof fn law_custom_events_stay_on_acp(
    channel: Option<Seq<char>>,
    chat_id: Option<Seq<char>>,
    name: Seq<char>,
    payload: Seq<char>,
    summary: Option<Seq<char>>,
)
    ensures
        custom_event_for(channel, chat_id, name, payload, summary) matches Some(m) ==> channel
            == Some(m.channel) && chat_id == Some(m.chat_id) && shows_custom_events(m.channel)
            && m.kind == OutboundMessageKind::Custom,
{
}

/// A custom event carries its name and its payload to the chat it is for, and its
/// summary unless that is empty.
pub proof fn law_custom_events_carry_their_payload(
    channel: Seq<char>,
    chat_id: Seq<char>,
    name: Seq<char>,
    payload: Seq<char>,
    summary: Option<Seq<char>>,
)
    ensures
        ({
            let m = custom_event(channel, chat_id, name, payload, summary);
            &&& m.channel == channel
            &&& m.chat_id == chat_id
            &&& m.kind == OutboundMessageKind::Custom
            &&& m.content == ""@
            &&& m.metadata.contains_key("custom.name"@)
            &&& m.metadata["custom.name"@] == name
            &&& m.metadata.contains_key("custom.payload"@)
            &&& m.metadata["custom.payload"@] == payload
            &&& m.metadata.contains_key("custom.summary"@) <==> (summary matches Some(s) && s.len()
                > 0)
            &&& summary matches Some(s) ==> (s.len() > 0 ==> m.metadata["custom.summary"@] == s)
        }),
        shows_custom_events(channel) <==> channel == "acp"@ || channel == "acp_http"@,
        shows_custom_events(channel) ==> custom_event_for(
            Some(channel),
            Some(chat_id),
            name,
            payload,
            summary,
        ) == Some(custom_event(channel, chat_id, name, payload, summary)),
        !shows_custom_events(channel) ==> custom_event_for(
            Some(channel),
            Some(chat_id),
            name,
            payload,
            summary,
        ) is None,
        custom_event_for(None, Some(chat_id), name, payload, summary) is None,
        custom_event_for(Some(channel), None, name, payload, summary) is None,
{
    reveal_strlit("custom.name");
    reveal_strlit("custom.payload");
    reveal_strlit("custom.summary");
    assert("custom.name"@.len() == 11 && "custom.payload"@.len() == 14 && "custom.summary"@.len()
        == 14);
    assert("custom.payload"@[7] == 'p' && "custom.summary"@[7] == 's');
}

/// A message asks for a streamed reply by one metadata value.
pub proof fn law_streams_are_asked_for(msg: InboundV)
    ensures
        asks_for_stream(msg) <==> msg.metadata.contains_key("streaming_capable"@)
            && msg.metadata["streaming_capable"@] == "true"@,
{
}

/// The summaries of events name what they are about and how long it took.
pub proof fn law_summaries_of_events(tool: Seq<char>, ms: u64)
    ensures
        thinking_summary("thinking"@, None) == Some("[thinking] started"@),
        thinking_summary("done"@, Some(ms)) == Some(
            "[thinking] done ("@ + decimal(ms as nat) + "ms)"@,
        ),
        thinking_summary("done"@, None) == Some("[thinking] done"@),
        tool_summary(tool, "started"@, None) == Some("[tool] "@ + tool + " started"@),
        tool_summary(tool, "done"@, Some(ms)) == Some(
            "[tool] "@ + tool + " done"@ + " ("@ + decimal(ms as nat) + "ms)"@,
        ),
        tool_summary(tool, "failed"@, Some(ms)) == Some("[tool] "@ + tool + " failed"@),
{
    reveal_strlit("thinking");
    reveal_strlit("done");
    reveal_strlit("started");
    reveal_strlit("failed");
    assert("thinking"@.len() == 8 && "done"@.len() == 4 && "started"@.len() == 7 && "failed"@.len()
        == 6);
}

/// The payloads of events hold what their models hold.
pub proof fn law_payloads_hold_what_they_tell(
    thinking: ThinkingStatusPayload,
    tool: ToolCallStatusPayload,
)
    ensures
        thinking@.thought_id == thinking.thought_id@,
        thinking@.status == thinking.status@,
        thinking@.elapsed_ms == thinking.elapsed_ms,
        thinking.detail matches Some(d) ==> thinking@.detail == Some(d@),
        thinking.detail is None ==> thinking@.detail is None,
        tool@.tool_call_id == tool.tool_call_id@,
        tool@.tool_name == tool.tool_name@,
        tool@.status == tool.status@,
        tool@.elapsed_ms == tool.elapsed_ms,
        tool.arguments matches Some(a) ==> tool@.arguments == Some(a@),
        tool.result matches Some(a) ==> tool@.result == Some(a@),
        tool.result is None ==> tool@.result is None,
        tool.error matches Some(a) ==> tool@.error == Some(a@),
        tool.error is None ==> tool@.error is None,
        tool.result_preview matches Some(a) ==> tool@.result_preview == Some(a@),
{
}

/// The model of an optional message is that of the message, where there is one.
pub proof fn law_optional_messages(m: OutboundMessage)
    ensures
        maybe_outbound(Some(m)) == Some(m@),
        maybe_outbound(None) is None,
{
}

} // verus!
