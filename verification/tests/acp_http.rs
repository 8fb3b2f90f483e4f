//! The HTTP channel of ACP clients.
use serde_json::Value;
use zeptoclaw::acp_http::{AcpHttpChannel, ConnStep, RpcInputs, RpcStep};
use zeptoclaw::acp_protocol::{
    prompt_blocks_to_text, JsonRpcRequest, PromptContentBlock, JSONRPC_SERVER_ERROR,
};
use zeptoclaw::acp_reading::{ReadState, RequestReader};
use zeptoclaw::acp_state::{
    AcpChannelConfig, AcpHttpConfig, BaseChannelConfig, PendingPrompt, SessionEntry,
    ACP_HTTP_CHANNEL_NAME, MAX_ACP_SESSIONS,
};
use zeptoclaw::acp_stream::{PromptFragment, StreamEvent};
use zeptoclaw::agui_events;
use zeptoclaw::bus::{
    OutboundMessage, OutboundMessageKind, OUTBOUND_CUSTOM_NAME_KEY, OUTBOUND_CUSTOM_PAYLOAD_KEY,
};
use zeptoclaw::http::{
    build_204_notification, build_cors_preflight, build_http_error, constant_time_eq,
};
use zeptoclaw::json::{parse_json, print_json, Json};
use zeptoclaw::metadata::Metadata;
use zeptoclaw::paths::cwd_contains_traversal;

const SECOND: u64 = 1_000_000_000;

fn http_config(auth_token: Option<&str>) -> AcpHttpConfig {
    AcpHttpConfig {
        bind: "127.0.0.1".to_string(),
        port: 8765,
        auth_token: auth_token.map(|t| t.to_string()),
    }
}

fn channel_with(auth_token: Option<&str>) -> AcpHttpChannel {
    AcpHttpChannel::new(
        AcpChannelConfig::default(),
        http_config(auth_token),
        BaseChannelConfig::new(ACP_HTTP_CHANNEL_NAME),
    )
}

fn make_channel() -> AcpHttpChannel {
    channel_with(None)
}

fn denying_channel() -> AcpHttpChannel {
    AcpHttpChannel::new(
        AcpChannelConfig {
            deny_by_default: true,
            ..AcpChannelConfig::default()
        },
        http_config(None),
        BaseChannelConfig {
            name: ACP_HTTP_CHANNEL_NAME.to_string(),
            allowlist: vec![],
            deny_by_default: true,
        },
    )
}

fn add_session(ch: &mut AcpHttpChannel, session_id: &str) {
    ch.state.sessions.insert(
        session_id,
        SessionEntry {
            cwd: "/test".to_string(),
            last_active: 0,
        },
    );
}

fn add_prompt(ch: &mut AcpHttpChannel, session_id: &str, cancelled: bool) {
    ch.state
        .pending
        .insert(session_id, PendingPrompt { cancelled });
}

fn json(raw: &str) -> Option<Json> {
    Some(parse_json(raw).unwrap())
}

fn id(n: u64) -> Option<Json> {
    Some(Json::Unsigned(n))
}

fn full_message(channel: &str, chat_id: &str, content: &str) -> OutboundMessage {
    OutboundMessage {
        channel: channel.to_string(),
        chat_id: chat_id.to_string(),
        content: content.to_string(),
        reply_to: None,
        metadata: Metadata::default(),
        kind: OutboundMessageKind::default(),
    }
}

fn list_all(ch: &AcpHttpChannel, n: u64) -> Value {
    serde_json::from_str(&ch.do_session_list(&id(n), &Ok(None))).unwrap()
}

#[test]
fn test_channel_name() {
    let ch = make_channel();
    assert_eq!(ch.name(), ACP_HTTP_CHANNEL_NAME);
}

#[test]
fn test_is_not_running_initially() {
    assert!(!make_channel().is_running());
}

#[test]
fn the_channel_starts_once() {
    let mut ch = make_channel();
    assert!(ch.start());
    assert!(ch.is_running());
    assert!(!ch.start());
    ch.stop();
    assert!(!ch.is_running());
    assert_eq!(ch.address(), "127.0.0.1:8765");
}

#[test]
fn test_prompt_blocks_to_text_text_only() {
    let blocks = vec![
        PromptContentBlock::Text {
            text: "Hello".to_string(),
        },
        PromptContentBlock::Text {
            text: "World".to_string(),
        },
    ];
    assert_eq!(prompt_blocks_to_text(&blocks), "Hello\nWorld");
}

#[test]
fn test_prompt_blocks_to_text_skips_non_text() {
    let blocks = vec![
        PromptContentBlock::Text {
            text: "only this".to_string(),
        },
        PromptContentBlock::Other,
    ];
    assert_eq!(prompt_blocks_to_text(&blocks), "only this");
}

#[test]
fn test_send_ignores_wrong_channel() {
    let mut ch = make_channel();
    let session_id = "acph_test";
    add_session(&mut ch, session_id);
    add_prompt(&mut ch, session_id, false);
    let msg = full_message("telegram", session_id, "hello");
    assert!(ch.send(&msg, true).is_none());
    assert!(
        ch.state.pending.contains_key(session_id),
        "wrong-channel send must not consume the pending entry"
    );
}

#[test]
fn test_send_skips_unknown_session() {
    let ch = make_channel();
    let msg = full_message(ACP_HTTP_CHANNEL_NAME, "acph_ghost", "hello");
    assert!(ch.send(&msg, true).is_none());
    assert_eq!(ch.state.sessions.len(), 0);
}

#[test]
fn test_send_delivers_full_fragment() {
    let mut ch = make_channel();
    let session_id = "acph_deliver";
    add_session(&mut ch, session_id);
    add_prompt(&mut ch, session_id, false);
    let msg = full_message(ACP_HTTP_CHANNEL_NAME, session_id, "agent reply");
    match ch.send(&msg, true).expect("must receive fragment") {
        PromptFragment::Full { content, cancelled } => {
            assert_eq!(content, "agent reply");
            assert!(!cancelled);
        }
        other => panic!("expected Full, got {other:?}"),
    }
    assert!(ch.state.pending.contains_key(session_id));
}

#[test]
fn test_send_marks_cancelled() {
    let mut ch = make_channel();
    let session_id = "acph_cancel";
    add_session(&mut ch, session_id);
    add_prompt(&mut ch, session_id, true);
    let msg = full_message(ACP_HTTP_CHANNEL_NAME, session_id, "reply after cancel");
    match ch.send(&msg, true).expect("must receive fragment") {
        PromptFragment::Full { cancelled, .. } => {
            assert!(
                cancelled,
                "cancelled flag must be forwarded to HTTP handler"
            );
        }
        other => panic!("expected Full, got {other:?}"),
    }
}

#[test]
fn test_send_forwards_error_flag() {
    let mut ch = make_channel();
    let session_id = "acph_err";
    add_session(&mut ch, session_id);
    add_prompt(&mut ch, session_id, false);
    let mut msg = OutboundMessage::new(
        ACP_HTTP_CHANNEL_NAME,
        session_id,
        "Error: Provider error: upstream connect error",
    );
    msg.mark_error();
    match ch.send(&msg, true).expect("must receive fragment") {
        PromptFragment::Error(content) => {
            assert!(content.contains("upstream connect error"));
        }
        other => panic!("expected Error, got {other:?}"),
    }
}

#[test]
fn test_send_chunk_emits_chunk_fragment() {
    let mut ch = make_channel();
    let session_id = "acph_stream";
    add_session(&mut ch, session_id);
    add_prompt(&mut ch, session_id, false);
    let msg = OutboundMessage::new(ACP_HTTP_CHANNEL_NAME, session_id, "tok ")
        .with_kind(OutboundMessageKind::Chunk);
    match ch.send(&msg, true).expect("must receive fragment") {
        PromptFragment::Chunk(content) => assert_eq!(content, "tok "),
        other => panic!("expected Chunk, got {other:?}"),
    }
    assert!(ch.state.pending.contains_key(session_id));
}

#[test]
fn test_send_chunk_end_emits_end_fragment() {
    let mut ch = make_channel();
    let session_id = "acph_stream_end";
    add_session(&mut ch, session_id);
    add_prompt(&mut ch, session_id, true);
    let msg = OutboundMessage::new(ACP_HTTP_CHANNEL_NAME, session_id, "")
        .with_kind(OutboundMessageKind::ChunkEnd);
    match ch.send(&msg, true).expect("must receive fragment") {
        PromptFragment::End { cancelled } => assert!(cancelled),
        other => panic!("expected End, got {other:?}"),
    }
    assert!(ch.state.pending.contains_key(session_id));
}

#[test]
fn test_send_custom_emits_custom_fragment() {
    let mut ch = make_channel();
    let session_id = "acph_custom";
    add_session(&mut ch, session_id);
    add_prompt(&mut ch, session_id, false);
    let msg = OutboundMessage::new(ACP_HTTP_CHANNEL_NAME, session_id, "")
        .with_kind(OutboundMessageKind::Custom)
        .with_metadata(OUTBOUND_CUSTOM_NAME_KEY, agui_events::APPROVAL_REQUEST)
        .with_metadata(
            OUTBOUND_CUSTOM_PAYLOAD_KEY,
            r#"{"requestId":"01JTEST","toolName":"write_file"}"#,
        );
    match ch.send(&msg, true).expect("must receive fragment") {
        PromptFragment::Custom { name, payload } => {
            assert_eq!(name, agui_events::APPROVAL_REQUEST);
            let payload: Value = serde_json::from_str(&print_json(&payload)).unwrap();
            assert_eq!(payload["toolName"], "write_file");
        }
        other => panic!("expected Custom, got {other:?}"),
    }
}

#[test]
fn nobody_waits_nothing_is_sent() {
    let mut ch = make_channel();
    add_session(&mut ch, "acph_quiet");
    let msg = full_message(ACP_HTTP_CHANNEL_NAME, "acph_quiet", "hello");
    assert!(ch.send(&msg, false).is_none());
}

#[test]
fn test_deny_by_default_blocks_session_new() {
    let mut ch = denying_channel();
    let result = ch.do_session_new(&id(1), &json(r#"{"cwd":"/workspace"}"#), "x", 0);
    assert!(
        result.contains("Unauthorized"),
        "deny_by_default must block session/new"
    );
    assert_eq!(ch.state.sessions.len(), 0);
}

const INJECTION: &str =
    r#"{"sessionId":"SESSION","content":"yes","kind":"approval_response","requestId":"req_1"}"#;

#[test]
fn test_inject_inbound_unknown_session_returns_server_error() {
    let mut ch = make_channel();
    let body = ch
        .do_inject_inbound(&id(1), &json(&INJECTION.replace("SESSION", "acph_missing")), 0)
        .unwrap_err();
    let v: Value = serde_json::from_str(&body).unwrap();
    assert_eq!(v["error"]["code"], JSONRPC_SERVER_ERROR);
}

#[test]
fn test_inject_inbound_reports_delivered_true_when_intercepted() {
    let mut ch = make_channel();
    let session_id = "acph_inject_true";
    add_session(&mut ch, session_id);
    let inbound = ch
        .do_inject_inbound(&id(1), &json(&INJECTION.replace("SESSION", session_id)), 0)
        .expect("known session");
    let taken = inbound.metadata.get("inject_kind").map(String::as_str)
        == Some("approval_response")
        && inbound.metadata.get("request_id").map(String::as_str) == Some("req_1");
    let body = AcpHttpChannel::inject_reply(&id(1), Ok(taken));
    let v: Value = serde_json::from_str(&body).unwrap();
    assert_eq!(v["result"]["delivered"], true);
}

#[test]
fn test_inject_inbound_reports_delivered_false_when_queued() {
    let mut ch = make_channel();
    let session_id = "acph_inject_false";
    add_session(&mut ch, session_id);
    let inbound = ch
        .do_inject_inbound(&id(1), &json(&INJECTION.replace("SESSION", session_id)), 7)
        .expect("known session");
    let body = AcpHttpChannel::inject_reply(&id(1), Ok(false));
    let v: Value = serde_json::from_str(&body).unwrap();
    assert_eq!(v["result"]["delivered"], false);
    assert_eq!(inbound.chat_id, "acph_inject_false");
    assert_eq!(
        inbound.metadata.get("request_id").map(String::as_str),
        Some("req_1")
    );
    assert_eq!(ch.state.sessions.get(session_id).unwrap().last_active, 7);
    let body = AcpHttpChannel::inject_reply(&id(1), Err("bus closed".to_string()));
    let v: Value = serde_json::from_str(&body).unwrap();
    assert_eq!(v["error"]["code"], -32603);
    assert!(v["error"]["message"].as_str().unwrap().contains("bus closed"));
}

#[test]
fn test_constant_time_eq_same() {
    assert!(constant_time_eq("hello", "hello"));
}

#[test]
fn test_constant_time_eq_different() {
    assert!(!constant_time_eq("hello", "world"));
    assert!(!constant_time_eq("hello", "hello!"));
}

#[test]
fn lengths_that_differ_by_a_multiple_of_a_byte_differ() {
    let long = "\0".repeat(256);
    assert!(!constant_time_eq("", &long));
    assert!(constant_time_eq(&long, &long));
}

#[test]
fn test_sse_event_format() {
    let ev = AcpHttpChannel::sse_event(r#"{"foo":"bar"}"#);
    assert_eq!(ev, "data: {\"foo\":\"bar\"}\n\n");
}

#[test]
fn test_http_200_content_length() {
    let body = r#"{"result":"ok"}"#;
    let resp = AcpHttpChannel::http_200(body, true);
    assert!(resp.contains(&format!("Content-Length: {}", body.len())));
    assert!(resp.ends_with(body));
}

#[test]
fn lengths_are_counted_in_bytes() {
    let resp = AcpHttpChannel::http_200("é€", true);
    assert!(resp.contains("Content-Length: 5\r\n"));
}

#[test]
fn test_session_list_no_sessions() {
    let ch = make_channel();
    let v = list_all(&ch, 1);
    assert_eq!(v["result"]["sessions"], Value::Array(vec![]));
}

#[test]
fn test_session_list_empty() {
    let ch = make_channel();
    let v = list_all(&ch, 1);
    assert_eq!(v["result"]["sessions"], Value::Array(vec![]));
}

#[test]
fn test_session_list_shows_sessions_with_pending_flag() {
    let mut ch = make_channel();
    let sid_a = "acph_list_a";
    let sid_b = "acph_list_b";
    add_session(&mut ch, sid_a);
    add_session(&mut ch, sid_b);
    add_prompt(&mut ch, sid_a, false);
    let v = list_all(&ch, 1);
    let sessions = v["result"]["sessions"].as_array().unwrap();
    assert_eq!(sessions.len(), 2);
    let find = |sid: &str| sessions.iter().find(|s| s["sessionId"] == sid).cloned();
    assert_eq!(find(sid_a).unwrap()["_meta"]["pending"], true);
    assert_eq!(find(sid_b).unwrap()["_meta"]["pending"], false);
}

#[test]
fn listings_are_filtered_by_directory() {
    let mut ch = make_channel();
    add_session(&mut ch, "acph_a");
    let some = ch.do_session_list(&id(1), &Ok(Some("/test".to_string())));
    let none = ch.do_session_list(&id(1), &Ok(Some("/else".to_string())));
    let some: Value = serde_json::from_str(&some).unwrap();
    let none: Value = serde_json::from_str(&none).unwrap();
    assert_eq!(some["result"]["sessions"].as_array().unwrap().len(), 1);
    assert_eq!(none["result"]["sessions"].as_array().unwrap().len(), 0);
    let bad = ch.do_session_list(&id(1), &Err("odd".to_string()));
    let bad: Value = serde_json::from_str(&bad).unwrap();
    assert_eq!(bad["error"]["code"], -32602);
    let denied = denying_channel().do_session_list(&id(1), &Ok(None));
    assert!(denied.contains("Unauthorized"));
}

#[test]
fn test_session_cancel_notification_returns_204_no_body() {
    let mut ch = make_channel();
    let session_id = "acph_notif_cancel";
    add_session(&mut ch, session_id);
    add_prompt(&mut ch, session_id, false);
    let request = JsonRpcRequest {
        jsonrpc: "2.0".to_string(),
        id: None,
        method: "session/cancel".to_string(),
        params: json(r#"{"sessionId":"acph_notif_cancel"}"#),
    };
    match ch.handle_rpc(Ok(request), inputs()) {
        RpcStep::Respond(text) => assert_eq!(text, build_204_notification(true)),
        _ => panic!("expected a response"),
    }
    assert!(
        ch.state.pending.get(session_id).unwrap().cancelled,
        "cancel notification must set the cancelled flag"
    );
}

#[test]
fn test_session_cancel_request_returns_json_result() {
    let mut ch = make_channel();
    let session_id = "acph_req_cancel";
    add_session(&mut ch, session_id);
    add_prompt(&mut ch, session_id, false);

    let body = ch.do_session_cancel(&id(42), &json(r#"{"sessionId":"acph_req_cancel"}"#));

    let v: Value = serde_json::from_str(&body).unwrap();
    assert_eq!(v["id"], 42, "response must echo the request id");
    assert!(
        v["result"].is_object(),
        "result must be present for a request"
    );
    assert!(v.get("error").is_none(), "no error field expected");
    assert!(ch.state.pending.get(session_id).unwrap().cancelled);
}

#[test]
fn test_http_204_notification_has_no_body() {
    let resp = build_204_notification(true);
    assert!(resp.contains("204 No Content"), "must be a 204 status");
    assert!(
        resp.contains("Content-Length: 0"),
        "Content-Length must be 0"
    );
    assert!(
        resp.ends_with("\r\n\r\n"),
        "response must end with the blank line and no trailing body"
    );
}

#[test]
fn test_initialize_returns_spec_fields() {
    let body = AcpHttpChannel::do_initialize(&id(1), "0.0.1");
    let v: Value = serde_json::from_str(&body).unwrap();
    assert!(
        v["result"]["protocolVersion"].is_string(),
        "protocolVersion must be a string"
    );
    assert!(
        v["result"]["agentCapabilities"].is_object(),
        "agentCapabilities must be present"
    );
    assert!(
        v["result"].get("clientId").is_none(),
        "clientId must not be in the response"
    );
}

#[test]
fn test_initialize_to_session_new_round_trip() {
    let mut ch = make_channel();
    AcpHttpChannel::do_initialize(&id(1), "0.0.1");
    let new_body = ch.do_session_new(&id(2), &json(r#"{"cwd":"/workspace"}"#), "abc", 0);
    let new_v: Value = serde_json::from_str(&new_body).unwrap();
    assert!(
        new_v.get("error").is_none(),
        "session/new must succeed: {new_body}"
    );
    assert!(
        new_v["result"]["sessionId"].as_str().is_some(),
        "session/new must return a sessionId: {new_body}"
    );
}

#[test]
fn test_initialize_to_session_new_to_session_list_round_trip() {
    let mut ch = make_channel();
    AcpHttpChannel::do_initialize(&id(1), "0.0.1");
    let new_body = ch.do_session_new(&id(2), &json(r#"{"cwd":"/workspace"}"#), "abc", 0);
    let session_id = serde_json::from_str::<Value>(&new_body).unwrap()["result"]["sessionId"]
        .as_str()
        .expect("session/new must succeed")
        .to_string();

    let list_v = list_all(&ch, 3);
    assert!(
        list_v.get("error").is_none(),
        "session/list must succeed: {list_v}"
    );
    let sessions = list_v["result"]["sessions"].as_array().unwrap();
    assert_eq!(sessions.len(), 1, "exactly one session must be listed");
    assert_eq!(
        sessions[0]["sessionId"].as_str().unwrap(),
        session_id,
        "listed sessionId must match the one returned by session/new"
    );
}

#[test]
fn test_session_new_rejects_missing_cwd() {
    let mut ch = make_channel();
    let body = ch.do_session_new(&id(1), &None, "abc", 0);
    let v: Value = serde_json::from_str(&body).unwrap();
    assert_eq!(
        v["error"]["code"], -32602,
        "missing cwd must give -32602: {body}"
    );
    assert_eq!(ch.state.sessions.len(), 0);
}

#[test]
fn test_session_new_rejects_relative_cwd() {
    let mut ch = make_channel();
    let body = ch.do_session_new(&id(1), &json(r#"{"cwd":"relative/path"}"#), "abc", 0);
    let v: Value = serde_json::from_str(&body).unwrap();
    assert_eq!(
        v["error"]["code"], -32602,
        "relative cwd must give -32602: {body}"
    );
    assert_eq!(ch.state.sessions.len(), 0);
}

#[test]
fn test_session_new_stores_absolute_cwd() {
    let mut ch = make_channel();
    let body = ch.do_session_new(&id(1), &json(r#"{"cwd":"/home/user/project"}"#), "abc", 0);
    let v: Value = serde_json::from_str(&body).unwrap();
    assert!(
        v.get("error").is_none(),
        "absolute cwd must succeed: {body}"
    );
    let sid = v["result"]["sessionId"].as_str().unwrap().to_string();
    assert_eq!(
        ch.state.sessions.get(&sid).map(|e| e.cwd.as_str()),
        Some("/home/user/project")
    );
}

#[test]
fn sessions_have_a_limit_and_stale_ones_make_room() {
    let mut ch = make_channel();
    ch.config.session_ttl_secs = Some(10);
    for i in 0..MAX_ACP_SESSIONS {
        add_session(&mut ch, &format!("acph_{i}"));
    }
    let cwd = json(r#"{"cwd":"/w"}"#);
    let full = ch.do_session_new(&id(1), &cwd, "new", 5 * SECOND);
    let v: Value = serde_json::from_str(&full).unwrap();
    assert_eq!(v["error"]["code"], JSONRPC_SERVER_ERROR);
    let room = ch.do_session_new(&id(1), &cwd, "new", 60 * SECOND);
    let v: Value = serde_json::from_str(&room).unwrap();
    assert_eq!(v["result"]["sessionId"], "acph_new");
    assert_eq!(ch.state.sessions.len(), 1);
}

#[test]
fn test_register_prompt_marks_streaming_capable() {
    let mut ch = make_channel();
    let session_id = "acph_stream_meta";
    add_session(&mut ch, session_id);
    let params =
        json(r#"{"sessionId":"acph_stream_meta","prompt":[{"type":"text","text":"hi"}]}"#);
    let (sid, inbound) = ch
        .register_prompt(&id(1), &params, 0)
        .expect("session should be known");
    assert_eq!(sid, session_id);
    assert_eq!(
        inbound
            .metadata
            .get("streaming_capable")
            .map(String::as_str),
        Some("true"),
        "inbound must carry streaming_capable=true",
    );
    assert_eq!(inbound.content, "hi");
    assert!(ch.state.pending.contains_key(session_id));
    let again = ch.register_prompt(&id(2), &params, 0);
    assert!(again.is_err(), "one prompt at a time");
    ch.end_prompt(session_id);
    assert!(ch.register_prompt(&id(3), &params, 0).is_ok());
}

#[test]
fn test_register_prompt_blocked_without_client_id() {
    let mut ch = make_channel();
    let params = json(r#"{"sessionId":"acph_nonexistent","prompt":[{"type":"text","text":"hello"}]}"#);
    let result = ch.register_prompt(&id(2), &params, 0);
    assert!(
        result.is_err(),
        "register_prompt must reject calls with an unknown session"
    );
    let err_body = result.unwrap_err();
    assert!(
        err_body.contains("-32600") || err_body.contains("-32000"),
        "rejection must be an RPC error: {err_body}"
    );
}

#[test]
fn empty_and_oversized_prompts_are_refused() {
    let mut ch = make_channel();
    add_session(&mut ch, "s");
    let empty = json(r#"{"sessionId":"s","prompt":[{"type":"image"}]}"#);
    assert!(ch.register_prompt(&id(1), &empty, 0).is_err());
    let long = "a".repeat(102_401);
    let raw = format!(r#"{{"sessionId":"s","prompt":[{{"type":"text","text":"{long}"}}]}}"#);
    assert!(ch.register_prompt(&id(1), &json(&raw), 0).is_err());
    assert!(ch.register_prompt(&id(1), &None, 0).is_err());
    assert_eq!(ch.state.pending.len(), 0);
}

#[test]
fn test_read_loop_parses_headers_with_partial_utf8_body() {
    let body = "\u{20AC}\u{20AC}\u{20AC}\u{20AC}".repeat(1024);
    let body_bytes = body.as_bytes();
    let headers = format!(
        "POST / HTTP/1.1\r\nContent-Type: application/json\r\nContent-Length: {}\r\n\r\n",
        body_bytes.len()
    );
    let mut buf = Vec::new();
    buf.extend_from_slice(headers.as_bytes());
    buf.extend_from_slice(body_bytes);

    let hend = AcpHttpChannel::find_header_end(&buf).expect("header terminator present");

    for body_chunk in [1usize, 5, 17, 31, 64, 257] {
        let total = hend + 4 + body_chunk;
        let raw = &buf[..total];

        if std::str::from_utf8(raw).is_err() {
            assert!(
                AcpHttpChannel::parse_request(raw).is_none(),
                "reading the whole must fail on partial UTF-8"
            );
        }

        let header_slice = &buf[..hend + 4];
        let req = AcpHttpChannel::parse_request(header_slice)
            .expect("header-only slice must parse regardless of body bytes");
        let cl = AcpHttpChannel::content_length(&req.headers);
        assert_eq!(cl, body_bytes.len());
        let body_received = total - hend - 4;
        assert!(
            body_received < cl,
            "loop must keep reading; body_received={body_received} cl={cl}"
        );
    }
}

#[test]
fn test_read_loop_break_when_full_body_received() {
    let body = "\u{20AC}\u{20AC}".to_string();
    let body_bytes = body.as_bytes();
    let headers = format!(
        "POST / HTTP/1.1\r\nContent-Length: {}\r\n\r\n",
        body_bytes.len()
    );
    let mut buf = Vec::new();
    buf.extend_from_slice(headers.as_bytes());
    buf.extend_from_slice(body_bytes);

    let hend = AcpHttpChannel::find_header_end(&buf).unwrap();
    let req = AcpHttpChannel::parse_request(&buf[..hend + 4]).unwrap();
    let cl = AcpHttpChannel::content_length(&req.headers);
    let body_received = buf.len() - hend - 4;
    assert!(
        body_received >= cl,
        "loop must terminate; body_received={body_received} cl={cl}"
    );
}

#[test]
fn a_request_may_come_byte_by_byte() {
    let raw = "POST / HTTP/1.1\r\nContent-Length: 6\r\n\r\n\u{20AC}\u{20AC}".as_bytes();
    let mut reader = RequestReader::new();
    for (i, byte) in raw.iter().enumerate() {
        let state = reader.accept(&[*byte]);
        if i + 1 < raw.len() {
            assert_eq!(state, ReadState::More, "byte {i}");
        } else {
            assert_eq!(state, ReadState::Done);
        }
    }
    assert_eq!(reader.bytes(), raw);
    assert!(reader.room() > 0);
}

#[test]
fn test_http_200_no_cors_when_auth() {
    let body = r#"{"result":"ok"}"#;
    let resp = AcpHttpChannel::http_200(body, false);
    assert!(
        !resp.contains("Access-Control-Allow-Origin"),
        "CORS header must be absent when open_cors=false"
    );
    assert!(resp.contains(&format!("Content-Length: {}", body.len())));
}

#[test]
fn test_cors_preflight_open() {
    let resp = build_cors_preflight(true);
    assert!(resp.contains("Access-Control-Allow-Origin: *"));
    assert!(resp.contains("Access-Control-Allow-Methods"));
    assert!(resp.contains("204 No Content"));
}

#[test]
fn test_cors_preflight_restricted() {
    let resp = build_cors_preflight(false);
    assert!(
        !resp.contains("Access-Control-Allow-Origin"),
        "CORS origin header must be absent when restricted"
    );
    assert!(resp.contains("Access-Control-Allow-Methods"));
    assert!(resp.contains("204 No Content"));
}

#[test]
fn test_build_http_error_cors() {
    let open = build_http_error("400 Bad Request", r#"{"error":"bad"}"#, true);
    assert!(open.contains("Access-Control-Allow-Origin: *"));

    let restricted = build_http_error("400 Bad Request", r#"{"error":"bad"}"#, false);
    assert!(
        !restricted.contains("Access-Control-Allow-Origin"),
        "CORS header must be absent when open_cors=false"
    );
}

#[test]
fn test_cwd_contains_traversal() {
    assert!(cwd_contains_traversal("/home/user/../etc/passwd"));
    assert!(cwd_contains_traversal("/home/user/.."));
    assert!(cwd_contains_traversal("/../root"));
    assert!(!cwd_contains_traversal("/home/user/project"));
    assert!(!cwd_contains_traversal("/home/user/..hidden"));
    assert!(!cwd_contains_traversal("/home/user/a..b"));
}

#[test]
fn test_session_new_rejects_traversal_cwd() {
    let mut ch = make_channel();
    let body = ch.do_session_new(&id(1), &json(r#"{"cwd":"/home/user/../etc"}"#), "abc", 0);
    let v: Value = serde_json::from_str(&body).unwrap();
    assert_eq!(
        v["error"]["code"], -32602,
        "traversal cwd must give -32602: {body}"
    );
    assert!(
        v["error"]["message"].as_str().unwrap().contains("'..'"),
        "error message must mention '..': {body}"
    );
    assert_eq!(ch.state.sessions.len(), 0);
}

// ---------------------------------------------------------------------------
// Whole requests
// ---------------------------------------------------------------------------
fn inputs() -> RpcInputs {
    RpcInputs {
        list_filter: Ok(None),
        fresh_id: "fresh".to_string(),
        now: 0,
        version: "0.0.1".to_string(),
    }
}

fn request(method: &str, n: u64, params: Option<Json>) -> Result<JsonRpcRequest, String> {
    Ok(JsonRpcRequest {
        jsonrpc: "2.0".to_string(),
        id: id(n),
        method: method.to_string(),
        params,
    })
}

fn response_of(step: RpcStep) -> String {
    match step {
        RpcStep::Respond(text) => text,
        _ => panic!("expected a response"),
    }
}

fn routed(ch: &AcpHttpChannel, raw: &str) -> ConnStep {
    ch.route_request(raw.as_bytes())
}

#[test]
fn requests_are_routed_by_path_and_method() {
    let ch = make_channel();
    assert!(matches!(routed(&ch, ""), ConnStep::Close));
    match routed(&ch, "garbage") {
        ConnStep::Respond(text) => assert!(text.contains("400 Bad Request")),
        _ => panic!("expected a response"),
    }
    match routed(&ch, "OPTIONS /acp HTTP/1.1\r\n\r\n") {
        ConnStep::Respond(text) => assert_eq!(text, build_cors_preflight(true)),
        _ => panic!("expected a response"),
    }
    match routed(&ch, "POST /else HTTP/1.1\r\n\r\n") {
        ConnStep::Respond(text) => assert!(text.contains("404 Not Found")),
        _ => panic!("expected a response"),
    }
    match routed(&ch, "GET /acp HTTP/1.1\r\n\r\n") {
        ConnStep::Respond(text) => assert!(text.contains("405 Method Not Allowed")),
        _ => panic!("expected a response"),
    }
    match routed(&ch, "POST /acp HTTP/1.1\r\nContent-Length: 2\r\n\r\n{}") {
        ConnStep::Rpc(body) => assert_eq!(body, "{}"),
        _ => panic!("expected a call"),
    }
    assert!(ch.too_large().contains("413 Payload Too Large"));
}

#[test]
fn a_token_guards_the_channel() {
    let ch = channel_with(Some("secret"));
    match routed(&ch, "POST /acp HTTP/1.1\r\nContent-Length: 2\r\n\r\n{}") {
        ConnStep::Respond(text) => {
            assert!(text.contains("401 Unauthorized"));
            assert!(!text.contains("Access-Control-Allow-Origin"));
        }
        _ => panic!("expected a response"),
    }
    let good =
        "POST /acp HTTP/1.1\r\nAuthorization: Bearer secret\r\nContent-Length: 2\r\n\r\n{}";
    assert!(matches!(routed(&ch, good), ConnStep::Rpc(_)));
    let bad = "POST /acp HTTP/1.1\r\nAuthorization: Bearer wrong\r\nContent-Length: 2\r\n\r\n{}";
    assert!(matches!(routed(&ch, bad), ConnStep::Respond(_)));
}

#[test]
fn calls_are_answered() {
    let mut ch = make_channel();
    let text = response_of(ch.handle_rpc(Err("bad json".to_string()), inputs()));
    assert!(text.contains("-32700"));
    assert!(text.contains("400 Bad Request"));
    let old = JsonRpcRequest {
        jsonrpc: "1.0".to_string(),
        id: id(1),
        method: "initialize".to_string(),
        params: None,
    };
    assert!(response_of(ch.handle_rpc(Ok(old), inputs())).contains("-32600"));
    let text = response_of(ch.handle_rpc(request("initialize", 1, None), inputs()));
    assert!(text.contains("protocolVersion"));
    let text = response_of(ch.handle_rpc(request("no/such", 1, None), inputs()));
    assert!(text.contains("-32601"));
    let text = response_of(ch.handle_rpc(
        request("session/new", 2, json(r#"{"cwd":"/w"}"#)),
        inputs(),
    ));
    assert!(text.contains("acph_fresh"));
    let prompt = json(r#"{"sessionId":"acph_fresh","prompt":[{"type":"text","text":"hi"}]}"#);
    match ch.handle_rpc(request("session/prompt", 3, prompt), inputs()) {
        RpcStep::Stream {
            session_id,
            inbound,
            ..
        } => {
            assert_eq!(session_id, "acph_fresh");
            assert_eq!(inbound.content, "hi");
        }
        _ => panic!("expected a stream"),
    }
    let text = response_of(ch.handle_rpc(request("session/list", 4, None), inputs()));
    assert!(text.contains(r#""pending":true"#));
    let text = ch.prompt_failed(&id(3), "acph_fresh", "bus closed");
    assert!(text.contains("internal error: ACP-HTTP: failed to publish inbound: bus closed"));
    assert_eq!(ch.state.pending.len(), 0);
}

#[test]
fn streams_end_with_the_answer() {
    let head = make_channel().stream_start();
    assert!(head.contains("text/event-stream"));
    let piece = AcpHttpChannel::stream_prompt_response(
        "s",
        &id(9),
        StreamEvent::Fragment(PromptFragment::Chunk("tok".to_string())),
    );
    assert!(!piece.done);
    assert_eq!(piece.frames.len(), 1);
    assert!(piece.frames[0].starts_with("data: "));
    assert!(piece.frames[0].contains("agent_message_chunk"));
    let end = AcpHttpChannel::stream_prompt_response(
        "s",
        &id(9),
        StreamEvent::Fragment(PromptFragment::End { cancelled: true }),
    );
    assert!(end.done);
    assert!(end.frames.last().unwrap().contains("cancelled"));
    let full = AcpHttpChannel::stream_prompt_response(
        "s",
        &id(9),
        StreamEvent::Fragment(PromptFragment::Full {
            content: "all".to_string(),
            cancelled: false,
        }),
    );
    assert!(full.done);
    assert!(full.frames.last().unwrap().contains("end_turn"));
    let failed = AcpHttpChannel::stream_prompt_response(
        "s",
        &id(9),
        StreamEvent::Fragment(PromptFragment::Error("Error: boom".to_string())),
    );
    assert!(failed.done);
    let last: Value = serde_json::from_str(
        failed.frames.last().unwrap().trim_start_matches("data: ").trim(),
    )
    .unwrap();
    assert_eq!(last["id"], 9);
    assert!(last["error"]["message"].as_str().unwrap().contains("boom"));
    let beat = AcpHttpChannel::stream_prompt_response("s", &id(9), StreamEvent::HeartbeatDue);
    assert!(!beat.done);
    for event in [StreamEvent::SendersGone, StreamEvent::DeadlinePassed] {
        assert!(AcpHttpChannel::stream_prompt_response("s", &id(9), event).done);
    }
}
