//! Replies and the UI messages in them.
use zeptoclaw::a2ui::extract_a2ui_messages_from_response;
use zeptoclaw::agui_events;
use zeptoclaw::bus::{InboundMessage, OutboundMessageKind, OUTBOUND_CUSTOM_NAME_KEY};
use zeptoclaw::json::{find_field, Json};
use zeptoclaw::mermaid::{
    build_a2ui_messages_from_mermaid_xychart, parse_mermaid_xychart_spec,
};
use zeptoclaw::replies::{
    emit_a2ui_messages, process_inbound_message, RunOutcome, StreamEvent, StreamedReply,
};

fn has(message: &Json, name: &str) -> bool {
    match message {
        Json::Object(fields) => find_field(fields, name).is_some(),
        _ => false,
    }
}

fn extract(raw: &str) -> (String, Vec<Json>) {
    let mut surface: u64 = 1;
    extract_a2ui_messages_from_response(raw, &mut surface)
}

#[test]
fn test_extract_a2ui_messages_from_response_strips_valid_blocks() {
    let raw = r#"
before
```a2ui
{"version":"v0.9","createSurface":{"surfaceId":"main","catalogId":"basic"}}
```
after
"#;
    let (cleaned, messages) = extract(raw);
    assert_eq!(messages.len(), 1);
    assert!(cleaned.contains("before"));
    assert!(cleaned.contains("after"));
    assert!(!cleaned.contains("```a2ui"));
}

#[test]
fn test_extract_a2ui_messages_from_response_keeps_invalid_blocks() {
    let raw = r#"
```a2ui
not-json
```
"#;
    let (cleaned, messages) = extract(raw);
    assert!(messages.is_empty());
    assert!(cleaned.contains("```a2ui"));
}

#[test]
fn test_extract_a2ui_messages_from_response_supports_messages_wrapper() {
    let raw = r#"
```a2ui
{"messages":[{"version":"v0.9","createSurface":{"surfaceId":"s","catalogId":"basic"}},{"version":"v0.9","deleteSurface":{"surfaceId":"s"}}]}
```
"#;
    let (_cleaned, messages) = extract(raw);
    assert_eq!(messages.len(), 2);
}

#[test]
fn test_parse_mermaid_xychart_spec_extracts_axes_and_values() {
    let raw = r#"
xychart-beta
  title "Random Bars"
  x-axis ["A","B","C"]
  y-axis "Value" 0 --> 100
  bar [12,35,28]
"#;
    let spec = parse_mermaid_xychart_spec(raw).expect("spec");
    assert_eq!(spec.title.as_deref(), Some("Random Bars"));
    assert_eq!(spec.labels, vec!["A", "B", "C"]);
    assert_eq!(spec.values, vec![12, 35, 28]);
    assert_eq!(spec.y_max, 100);
}

#[test]
fn test_extract_a2ui_messages_from_response_falls_back_to_mermaid_xychart() {
    let raw = r#"
xychart-beta
  title "Fallback chart"
  x-axis ["A","B","C"]
  bar [10,20,30]
"#;
    let (cleaned, messages) = extract(raw);
    assert_eq!(cleaned, "");
    assert_eq!(messages.len(), 2, "should emit create+update A2UI messages");
    assert!(
        messages.iter().any(|msg| has(msg, "createSurface")),
        "missing createSurface"
    );
    assert!(
        messages.iter().any(|msg| has(msg, "updateComponents")),
        "missing updateComponents"
    );
}

#[test]
fn test_extract_a2ui_messages_from_response_removes_mermaid_xychart_block_only() {
    let raw = r#"
intro line

xychart-beta
  title "Fallback chart"
  x-axis ["A","B","C"]
  bar [10,20,30]

tail line
"#;
    let (cleaned, messages) = extract(raw);
    assert_eq!(messages.len(), 2, "should emit create+update A2UI messages");
    assert!(cleaned.contains("intro line"));
    assert!(cleaned.contains("tail line"));
    assert!(!cleaned.contains("xychart-beta"));
}

#[test]
fn each_chart_takes_a_surface_of_its_own() {
    let raw = "xychart-beta\n x-axis [\"A\"]\n bar [10]";
    let mut surface: u64 = 8;
    extract_a2ui_messages_from_response(raw, &mut surface);
    assert_eq!(surface, 9);
    extract_a2ui_messages_from_response("no chart", &mut surface);
    assert_eq!(surface, 9);
    let spec = parse_mermaid_xychart_spec(raw).unwrap();
    assert_eq!(build_a2ui_messages_from_mermaid_xychart(&spec, 8).len(), 2);
}

fn inbound(channel: &str) -> InboundMessage {
    InboundMessage::new(channel, "u", "c", "hi").with_metadata("telegram_thread_id", "7")
}

#[test]
fn a_run_answers_with_its_reply() {
    let mut surface: u64 = 0;
    let run = RunOutcome::Reply("hello".to_string());
    let (out, completed) = process_inbound_message(&inbound("telegram"), &run, 9, &mut surface);
    assert!(completed);
    assert_eq!(out.len(), 1);
    assert_eq!(out[0].content, "hello");
    assert_eq!(out[0].kind, OutboundMessageKind::Full);
    assert!(!out[0].is_error());
    assert_eq!(
        out[0].metadata.get("telegram_thread_id").map(String::as_str),
        Some("7")
    );
}

#[test]
fn ui_messages_come_before_the_text() {
    let reply = "look:\n```a2ui\n{\"version\":\"v0.9\",\"createSurface\":{\"surfaceId\":\"s\"}}\n```";
    let run = RunOutcome::Reply(reply.to_string());
    let mut surface: u64 = 0;
    let (out, _) = process_inbound_message(&inbound("acp_http"), &run, 9, &mut surface);
    assert_eq!(out.len(), 2);
    assert_eq!(out[0].kind, OutboundMessageKind::Custom);
    assert_eq!(
        out[0].metadata.get(OUTBOUND_CUSTOM_NAME_KEY).map(String::as_str),
        Some(agui_events::A2UI)
    );
    assert_eq!(out[1].content, "look:");
    let (out, _) = process_inbound_message(&inbound("discord"), &run, 9, &mut surface);
    assert_eq!(out.len(), 1);
    assert_eq!(out[0].content, reply);
    assert!(emit_a2ui_messages(&inbound("discord"), &vec![Json::Null]).is_empty());
}

#[test]
fn failures_and_timeouts_are_reported() {
    let mut surface: u64 = 0;
    let run = RunOutcome::Failed("boom".to_string());
    let (out, completed) = process_inbound_message(&inbound("acp"), &run, 9, &mut surface);
    assert!(!completed);
    assert_eq!(out[0].content, "Error: boom");
    assert!(out[0].is_error());
    let (out, completed) =
        process_inbound_message(&inbound("acp"), &RunOutcome::TimedOut, 9, &mut surface);
    assert!(!completed);
    assert_eq!(
        out[0].content,
        "Agent run timed out after 9s. Try a simpler request."
    );
    assert!(!out[0].is_error());
}

#[test]
fn pieces_are_passed_on_and_closed() {
    let msg = inbound("acp_http");
    let mut reply = StreamedReply::new();
    let mut pieces = String::new();
    for piece in ["Hel", "lo"] {
        let chunk = reply
            .on_event(&msg, &StreamEvent::Delta(piece.to_string()))
            .unwrap();
        assert_eq!(chunk.kind, OutboundMessageKind::Chunk);
        pieces.push_str(&chunk.content);
    }
    assert_eq!(pieces, "Hello");
    assert!(!reply.is_over());
    assert!(reply
        .on_event(&msg, &StreamEvent::Done("Hello".to_string()))
        .is_none());
    assert!(reply.is_over());
    assert!(reply
        .on_event(&msg, &StreamEvent::Delta("late".to_string()))
        .is_none());
    let mut surface: u64 = 0;
    let (out, completed) = reply.finish(&msg, false, 9, &mut surface);
    assert!(completed);
    assert_eq!(out.len(), 1);
    assert_eq!(out[0].kind, OutboundMessageKind::ChunkEnd);
    assert_eq!(out[0].content, "");
}

#[test]
fn without_pieces_the_whole_text_is_sent() {
    let msg = inbound("acp_http");
    let mut reply = StreamedReply::new();
    reply.on_event(&msg, &StreamEvent::Done("whole".to_string()));
    let mut surface: u64 = 0;
    let (out, _) = reply.finish(&msg, false, 9, &mut surface);
    assert_eq!(out[0].kind, OutboundMessageKind::Full);
    assert_eq!(out[0].content, "whole");
}

#[test]
fn late_tool_calls_end_a_stream_quietly() {
    let msg = inbound("acp_http");
    let mut reply = StreamedReply::new();
    reply.on_event(&msg, &StreamEvent::Delta("so far".to_string()));
    reply.on_event(&msg, &StreamEvent::ToolCalls);
    let mut surface: u64 = 0;
    let (out, completed) = reply.finish(&msg, false, 9, &mut surface);
    assert!(completed);
    assert_eq!(out[0].kind, OutboundMessageKind::ChunkEnd);
}

#[test]
fn streams_that_fail_are_reported() {
    let msg = inbound("acp_http");
    let mut reply = StreamedReply::new();
    reply.on_event(&msg, &StreamEvent::Error("boom".to_string()));
    let mut surface: u64 = 0;
    let (out, completed) = reply.finish(&msg, false, 9, &mut surface);
    assert!(!completed);
    assert_eq!(out[0].content, "Error: boom");
    assert!(out[0].is_error());
    let (out, completed) = StreamedReply::new().finish(&msg, true, 9, &mut surface);
    assert!(!completed);
    assert_eq!(
        out[0].content,
        "Agent run timed out after 9s. Try a simpler request."
    );
    assert!(out[0].is_error());
}
