//! Tool calls, the approvals before them and the events about them.
use zeptoclaw::agui_events;
use zeptoclaw::approval::{
    approval_refusal, resolve_tool_approval, ApprovalResponse, ApprovalStep, HardFloorRule,
    ThreadKey,
};
use zeptoclaw::bus::{
    InboundMessage, OutboundMessageKind, OUTBOUND_CUSTOM_NAME_KEY, OUTBOUND_CUSTOM_PAYLOAD_KEY,
    OUTBOUND_CUSTOM_SUMMARY_KEY,
};
use zeptoclaw::file_artifact::{
    build_file_artifact_payload, file_artifact_summary, infer_file_mime,
    prepare_file_artifact_candidate, FileArtifactCandidate, FileArtifactOperation,
    FileArtifactPayload, ToolContext,
};
use zeptoclaw::format::{
    assistant_message_with_tool_calls, build_thinking_detail, build_tool_result_payload,
    build_tool_result_preview, prettify_tool_arguments, resolve_streamed_response_text,
};
use zeptoclaw::json::{parse_json, print_json, print_json_pretty, Json};
use zeptoclaw::loop_events::{
    build_custom_ui_event, thinking_status_event, tool_call_started_event, ThinkingScope,
};
use zeptoclaw::observations::ToolObservationKind;
use zeptoclaw::providers::{LLMResponse, LLMToolCall};
use zeptoclaw::session::Message;
use zeptoclaw::tool_calls::{
    check_tool_call, classify_execution, runs_in_sequence, settle_before_run, tool_arguments,
    tool_timeout, tool_user_message, CallChecks, CategoryPermission, Execution,
};
use zeptoclaw::tool_helpers::{
    any_gated, is_trusted_local_session, needs_sequential_execution, resolve_tool_call_name,
    sync_trimmed_tool_results, ToolCategory, ToolEntry, INTERACTIVE_CLI_METADATA_KEY,
    TRUSTED_LOCAL_SESSION_METADATA_KEY,
};

fn stub(name: &str, category: ToolCategory) -> ToolEntry {
    ToolEntry {
        tool_name: name.to_string(),
        exposed_name: format!("internal__{name}"),
        category,
    }
}

fn make_tool_call(name: &str) -> LLMToolCall {
    LLMToolCall {
        id: format!("call_{name}"),
        name: name.to_string(),
        arguments: "{}".to_string(),
    }
}

#[test]
fn test_sequential_triggered_by_filesystem_write() {
    let reg = vec![
        stub("write_file", ToolCategory::FilesystemWrite),
        stub("read_file", ToolCategory::FilesystemRead),
    ];
    let calls = vec![make_tool_call("write_file"), make_tool_call("read_file")];
    assert!(needs_sequential_execution(&reg, &calls, false));
}

#[test]
fn test_sequential_triggered_by_shell() {
    let reg = vec![
        stub("shell", ToolCategory::Shell),
        stub("read_file", ToolCategory::FilesystemRead),
    ];
    let calls = vec![make_tool_call("shell"), make_tool_call("read_file")];
    assert!(needs_sequential_execution(&reg, &calls, false));
}

#[test]
fn test_parallel_when_only_reads() {
    let reg = vec![
        stub("read_file", ToolCategory::FilesystemRead),
        stub("web_fetch", ToolCategory::NetworkRead),
    ];
    let calls = vec![make_tool_call("read_file"), make_tool_call("web_fetch")];
    assert!(!needs_sequential_execution(&reg, &calls, false));
}

#[test]
fn test_sequential_for_unknown_tool_fail_safe() {
    let reg = vec![stub("read_file", ToolCategory::FilesystemRead)];
    let calls = vec![make_tool_call("read_file"), make_tool_call("mystery_tool")];
    assert!(needs_sequential_execution(&reg, &calls, false));
}

#[test]
fn test_parallel_for_single_read_tool() {
    let reg = vec![stub("memory_search", ToolCategory::Memory)];
    let calls = vec![make_tool_call("memory_search")];
    assert!(!needs_sequential_execution(&reg, &calls, false));
}

#[test]
fn gated_calls_are_found_by_the_tools_own_names() {
    let reg = vec![
        stub("shell", ToolCategory::Shell),
        stub("read_file", ToolCategory::FilesystemRead),
    ];
    let gated = vec!["shell".to_string()];
    let exposed = vec![make_tool_call("read_file"), make_tool_call("internal__shell")];
    assert!(any_gated(&reg, &exposed, true, &gated));
    assert!(!any_gated(&reg, &exposed, false, &gated));
    let own = vec![make_tool_call("shell")];
    assert!(any_gated(&reg, &own, false, &gated));
    assert!(!any_gated(&reg, &own, false, &vec![]));
    assert!(!any_gated(&reg, &vec![], false, &gated));
}

#[test]
fn lazy_schemas_go_by_exposed_names() {
    let reg = vec![stub("read_file", ToolCategory::FilesystemRead)];
    assert_eq!(
        resolve_tool_call_name(&reg, "internal__read_file", true),
        ("read_file".to_string(), "internal__read_file".to_string())
    );
    assert_eq!(
        resolve_tool_call_name(&reg, "read_file", false).0,
        "read_file"
    );
}

#[test]
fn test_trusted_local_session_requires_cli_channel() {
    let msg = InboundMessage::new("telegram", "user", "chat", "hello")
        .with_metadata(INTERACTIVE_CLI_METADATA_KEY, "true")
        .with_metadata(TRUSTED_LOCAL_SESSION_METADATA_KEY, "true");
    assert!(!is_trusted_local_session(&msg));

    let msg = InboundMessage::new("cli", "user", "cli", "hello")
        .with_metadata(INTERACTIVE_CLI_METADATA_KEY, "true")
        .with_metadata(TRUSTED_LOCAL_SESSION_METADATA_KEY, "true");
    assert!(is_trusted_local_session(&msg));
}

#[test]
fn test_build_thinking_detail_final_answer_returns_none() {
    let response = LLMResponse::text("final answer to the user");
    assert!(
        build_thinking_detail(&response).is_none(),
        "final answer (no tool calls) is the reply, not a thought"
    );
}

#[test]
fn test_build_thinking_detail_intermediate_with_content() {
    let response = LLMResponse::with_tools(
        "let me check the file first",
        vec![LLMToolCall::new(
            "call_1",
            "read_file",
            r#"{"path":"a.txt"}"#,
        )],
    );
    let detail = build_thinking_detail(&response).expect("detail expected");
    assert!(detail.contains("Model draft:"));
    assert!(detail.contains("let me check the file first"));
}

#[test]
fn test_build_thinking_detail_tool_only_returns_none() {
    let response = LLMResponse::with_tools(
        "",
        vec![LLMToolCall::new(
            "call_1",
            "write_file",
            r#"{"path":"random_string.py","content":"print(1)"}"#,
        )],
    );
    assert!(
        build_thinking_detail(&response).is_none(),
        "tool-only response should not be shown as thought detail"
    );
}

#[test]
fn test_resolve_streamed_response_text_uses_delta_when_done_is_empty() {
    let resolved = resolve_streamed_response_text("xychart-beta\nbar [1,2,3]\n", "   ");
    assert!(resolved.contains("xychart-beta"));
    assert!(resolved.contains("bar [1,2,3]"));
}

#[test]
fn test_resolve_streamed_response_text_prefers_done_content_when_present() {
    let resolved = resolve_streamed_response_text("chunk-a chunk-b", "final body");
    assert_eq!(resolved, "final body");
}

#[test]
fn test_assistant_message_with_tool_calls_keeps_markup_out_of_content() {
    let tool_call = LLMToolCall::new("call_1", "internal__web_search", r#"{"query":"news"}"#);

    let message = assistant_message_with_tool_calls(&vec![tool_call]);

    assert_eq!(message.content, "");
    let calls = message.tool_calls.expect("tool calls should be preserved");
    assert_eq!(calls.len(), 1);
    assert_eq!(calls[0].id, "call_1");
    assert_eq!(calls[0].name, "internal__web_search");
    assert_eq!(calls[0].arguments, r#"{"query":"news"}"#);
}

#[test]
fn results_are_shortened_for_display() {
    assert_eq!(build_tool_result_preview("  \n "), None);
    assert_eq!(build_tool_result_preview(" short ").as_deref(), Some("short"));
    let long = "é".repeat(1500);
    let preview = build_tool_result_preview(&long).unwrap();
    assert_eq!(preview, format!("{}\n...", "é".repeat(1000)));
    let (result, preview) = build_tool_result_payload("fine".to_string());
    assert_eq!(result, "fine");
    assert_eq!(preview.as_deref(), Some("fine"));
}

#[test]
fn arguments_are_indented_where_they_can_be_read() {
    assert_eq!(
        prettify_tool_arguments(r#"{"b":1,"a":[true]}"#),
        "{\n  \"a\": [\n    true\n  ],\n  \"b\": 1\n}"
    );
    assert_eq!(prettify_tool_arguments("{oops"), "{oops");
}

#[test]
fn fractions_are_shown_as_they_were_read() {
    for raw in [
        "0.99932747939518927",
        "[1.5,-0.0,1e300,2.5e-7,123456789012345680000,0.1]",
        r#"{"x":{"y":3.141592653589793}}"#,
    ] {
        let value: serde_json::Value = serde_json::from_str(raw).unwrap();
        let pretty = serde_json::to_string_pretty(&value).unwrap();
        assert_eq!(prettify_tool_arguments(raw), pretty);
        let own = parse_json(raw).unwrap();
        assert_eq!(print_json_pretty(&own), pretty);
        assert_eq!(print_json(&own), value.to_string());
    }
}

// ---------------------------------------------------------------------------
// Files
// ---------------------------------------------------------------------------
fn context(channel: &str) -> ToolContext {
    ToolContext {
        channel: Some(channel.to_string()),
        chat_id: Some("chat_1".to_string()),
        workspace: Some("/ws".to_string()),
    }
}

fn candidate(raw_path: &str, existed_before: bool, operation: FileArtifactOperation) -> FileArtifactCandidate {
    FileArtifactCandidate {
        raw_path: raw_path.to_string(),
        existed_before,
        operation,
    }
}

fn note_payload() -> FileArtifactPayload {
    let candidate = candidate("note.md", false, FileArtifactOperation::Write);
    build_file_artifact_payload(&candidate, "/ws", "/ws/note.md", true, 5, 1).expect("payload")
}

#[test]
fn test_build_file_artifact_payload_created_for_new_write() {
    let payload = note_payload();
    assert_eq!(payload.path, "note.md");
    assert_eq!(payload.name, "note.md");
    assert_eq!(payload.operation, "created");
    assert_eq!(payload.size_bytes, 5);
    assert_eq!(payload.mime.as_deref(), Some("text/markdown"));
}

#[test]
fn test_build_file_artifact_payload_modified_for_edit() {
    let candidate = candidate("app.py", true, FileArtifactOperation::Edit);
    let payload = build_file_artifact_payload(&candidate, "/ws", "/ws/app.py", true, 9, 2)
        .expect("payload");
    assert_eq!(payload.path, "app.py");
    assert_eq!(payload.operation, "modified");
    assert_eq!(payload.mime.as_deref(), Some("text/x-python"));
}

#[test]
fn test_build_file_artifact_payload_rejects_outside_workspace() {
    let candidate = candidate("/other/secret.txt", false, FileArtifactOperation::Write);
    let payload =
        build_file_artifact_payload(&candidate, "/ws", "/other/secret.txt", true, 6, 3);
    assert!(payload.is_none(), "outside workspace path must be rejected");
    let beside = build_file_artifact_payload(&candidate, "/ws", "/wsx/secret.txt", true, 6, 3);
    assert!(beside.is_none());
    let directory = build_file_artifact_payload(&candidate, "/ws", "/ws/dir", false, 6, 3);
    assert!(directory.is_none());
}

fn artifact_event(channel: &str) -> Option<zeptoclaw::bus::OutboundMessage> {
    let payload = note_payload();
    let ctx = context(channel);
    let json = format!(
        r#"{{"path":"{}","name":"{}","operation":"{}","sizeBytes":{}}}"#,
        payload.path, payload.name, payload.operation, payload.size_bytes
    );
    build_custom_ui_event(
        ctx.channel.as_deref(),
        ctx.chat_id.as_deref(),
        agui_events::FILE_ARTIFACT,
        &json,
        Some(&file_artifact_summary(&payload)),
    )
}

#[test]
fn test_publish_file_artifact_event_emits_custom_outbound() {
    let outbound = artifact_event("acp_http").expect("missing outbound message");
    assert_eq!(outbound.kind, OutboundMessageKind::Custom);
    assert_eq!(
        outbound
            .metadata
            .get(OUTBOUND_CUSTOM_NAME_KEY)
            .map(String::as_str),
        Some(agui_events::FILE_ARTIFACT)
    );
    assert_eq!(
        outbound
            .metadata
            .get(OUTBOUND_CUSTOM_SUMMARY_KEY)
            .map(String::as_str),
        Some("[file] created note.md")
    );
    let payload_raw = outbound
        .metadata
        .get(OUTBOUND_CUSTOM_PAYLOAD_KEY)
        .expect("missing custom payload");
    let payload_json: serde_json::Value =
        serde_json::from_str(payload_raw).expect("custom payload must be json");
    assert_eq!(payload_json["path"], "note.md");
    assert_eq!(payload_json["name"], "note.md");
    assert_eq!(payload_json["operation"], "created");
    assert_eq!(payload_json["sizeBytes"], 5);
}

#[test]
fn test_publish_file_artifact_event_emits_custom_outbound_for_acp_stdio() {
    let outbound = artifact_event("acp").expect("missing outbound message");
    assert_eq!(outbound.kind, OutboundMessageKind::Custom);
    assert_eq!(outbound.channel, "acp");
    assert_eq!(
        outbound
            .metadata
            .get(OUTBOUND_CUSTOM_NAME_KEY)
            .map(String::as_str),
        Some(agui_events::FILE_ARTIFACT)
    );
}

#[test]
fn test_publish_file_artifact_event_skips_non_acp_http_channel() {
    let outbound = artifact_event("telegram");
    assert!(
        outbound.is_none(),
        "non-acp channel should not receive file artifact outbound"
    );
}

#[test]
fn only_writing_tools_have_a_target() {
    let args = parse_json(r#"{"path":"a/b.txt"}"#).unwrap();
    let target = prepare_file_artifact_candidate("write_file", &args, &context("acp")).unwrap();
    assert_eq!(target.raw_path, "a/b.txt");
    assert_eq!(target.full_path, "/ws/a/b.txt");
    assert_eq!(target.operation, FileArtifactOperation::Write);
    let target = prepare_file_artifact_candidate("edit_file", &args, &context("acp")).unwrap();
    assert_eq!(target.operation, FileArtifactOperation::Edit);
    assert!(prepare_file_artifact_candidate("read_file", &args, &context("acp")).is_none());
    assert!(prepare_file_artifact_candidate("write_file", &args, &context("discord")).is_none());
    let no_path = parse_json(r#"{"path":1}"#).unwrap();
    assert!(prepare_file_artifact_candidate("write_file", &no_path, &context("acp")).is_none());
}

#[test]
fn files_are_told_apart_by_their_endings() {
    assert_eq!(infer_file_mime("x/A.MD"), Some("text/markdown"));
    assert_eq!(infer_file_mime("x/unknown.zzz"), None);
    assert_eq!(infer_file_mime("x/.md"), None);
}

// ---------------------------------------------------------------------------
// Approvals
// ---------------------------------------------------------------------------
fn shell_args(cmd: &str) -> Json {
    Json::Object(vec![("command".to_string(), Json::Text(cmd.to_string()))])
}

fn rule(id: &str, reason: &str) -> Option<HardFloorRule> {
    Some(HardFloorRule {
        id: id.to_string(),
        reason: reason.to_string(),
    })
}

#[test]
fn hard_floor_forces_approval_even_when_gate_allows() {
    let floor = rule("rm_rf_root", "Wipes the filesystem root");
    let step = resolve_tool_approval(
        "shell",
        &shell_args("rm -rf /"),
        Some("discord"),
        Some("chat1"),
        None,
        &floor,
        false,
        true,
        "",
    );
    let req = match step {
        ApprovalStep::Ask(req) => req,
        _ => panic!("handler must be called"),
    };
    assert_eq!(req.tool_name, "shell");
    assert!(
        req.hard_floor_reason.is_some(),
        "ApprovalRequest must carry the HardFloor reason"
    );
    assert!(req
        .hard_floor_reason
        .as_deref()
        .unwrap()
        .to_lowercase()
        .contains("filesystem"));
    assert!(approval_refusal("shell", &floor, &ApprovalResponse::Approved).is_none());
}

#[test]
fn hard_floor_does_not_fire_for_safe_command() {
    let step = resolve_tool_approval(
        "shell",
        &shell_args("ls -la /tmp"),
        None,
        None,
        None,
        &None,
        false,
        true,
        "",
    );
    assert!(
        matches!(step, ApprovalStep::Run),
        "handler must NOT be called for non-HardFloor + AlwaysAllow"
    );
}

#[test]
fn hard_floor_timeout_collapses_to_denied() {
    let floor = rule("mkfs", "Formats a disk");
    let result = approval_refusal("shell", &floor, &ApprovalResponse::TimedOut)
        .expect("HardFloor TimedOut should produce a message");
    let lower = result.to_lowercase();
    assert!(
        lower.contains("denied") || lower.contains("hard floor") || lower.contains("hardfloor"),
        "HardFloor TimedOut should surface as a denial, got: {}",
        result
    );
    assert!(
        !lower.contains("approval timed out and was not executed"),
        "TimedOut path must not be reached for HardFloor: {}",
        result
    );
}

#[test]
fn non_hard_floor_timeout_stays_timed_out() {
    let result = approval_refusal("shell", &None, &ApprovalResponse::TimedOut)
        .expect("AlwaysRequire+TimedOut should produce a message");
    assert!(
        result.contains("timed out"),
        "non-HardFloor TimedOut must keep its timed-out message, got: {}",
        result
    );
}

#[test]
fn hard_floor_denied_propagates_user_reason() {
    let floor = rule("rm_rf_root", "Wipes the filesystem root");
    let result = approval_refusal("shell", &floor, &ApprovalResponse::Denied("nope".into()))
        .expect("denied → message");
    assert!(result.contains("denied"), "{}", result);
    assert!(result.contains("nope"), "{}", result);
}

#[test]
fn without_anybody_to_ask_a_call_is_refused() {
    let thread = ThreadKey::new("u", "a");
    let step = resolve_tool_approval(
        "shell",
        &shell_args("ls"),
        None,
        None,
        Some(&thread),
        &None,
        true,
        false,
        "Ask the operator.",
    );
    match step {
        ApprovalStep::Refuse(why) => assert_eq!(
            why,
            "Tool 'shell' requires user approval and was not executed. Ask the operator."
        ),
        _ => panic!("expected a refusal"),
    }
}

// ---------------------------------------------------------------------------
// One call
// ---------------------------------------------------------------------------
fn checks() -> CallChecks {
    CallChecks {
        validation_error: None,
        hook_block: None,
        permission: Some(CategoryPermission::Allowed),
        trusted: false,
        gated: false,
        mode: "assistant".to_string(),
        category: "shell".to_string(),
    }
}

#[test]
fn broken_arguments_become_a_note() {
    let args = tool_arguments("{bad json");
    let text = print_json(&args);
    assert!(text.starts_with(r#"{"_parse_error":"Invalid arguments JSON: "#), "{text}");
    assert_eq!(print_json(&tool_arguments("[1]")), "[1]");
}

#[test]
fn checks_come_in_order() {
    assert!(check_tool_call("c", "shell", &checks()).is_none());
    let all = CallChecks {
        validation_error: Some("bad args".to_string()),
        hook_block: Some("hook blocked".to_string()),
        permission: Some(CategoryPermission::Blocked),
        ..checks()
    };
    let first = check_tool_call("c", "shell", &all).unwrap();
    assert_eq!(first.content, "bad args");
    assert_eq!(first.kind, ToolObservationKind::SoftError);
    let hooked = CallChecks {
        validation_error: None,
        ..all
    };
    let second = check_tool_call("c", "shell", &hooked).unwrap();
    assert_eq!(second.content, "Tool 'shell' blocked by hook: hook blocked");
    assert_eq!(second.kind, ToolObservationKind::HardError);
    let blocked = CallChecks {
        hook_block: None,
        ..hooked
    };
    let third = check_tool_call("c", "shell", &blocked).unwrap();
    assert_eq!(
        third.content,
        "Tool 'shell' is blocked in assistant mode (category: shell)"
    );
    let asks = CallChecks {
        permission: Some(CategoryPermission::RequiresApproval),
        ..blocked
    };
    let fourth = check_tool_call("c", "shell", &asks).unwrap();
    assert_eq!(
        fourth.content,
        "Tool 'shell' requires approval in assistant mode (category: shell). Not executed."
    );
    assert_eq!(fourth.kind, ToolObservationKind::ApprovalRequired);
    assert_eq!(fourth.elapsed_ms, 0);
    let trusted = CallChecks {
        trusted: true,
        ..asks
    };
    assert!(check_tool_call("c", "shell", &trusted).is_none());
    let gated = CallChecks {
        trusted: false,
        gated: true,
        ..trusted
    };
    assert!(check_tool_call("c", "shell", &gated).is_none());
    let unknown = CallChecks {
        permission: None,
        ..checks()
    };
    assert!(check_tool_call("c", "nowhere", &unknown).is_none());
}

#[test]
fn approvals_come_before_dry_runs() {
    let refused = settle_before_run("c", "shell", false, Some("no"), true, "{}").unwrap();
    assert_eq!(refused.content, "no");
    assert_eq!(refused.kind, ToolObservationKind::ApprovalRequired);
    let described = settle_before_run("c", "shell", true, Some("no"), true, "{}").unwrap();
    assert_eq!(
        described.content,
        "[DRY RUN] Would execute tool 'shell' with arguments: {}"
    );
    assert_eq!(described.kind, ToolObservationKind::Success);
    assert!(settle_before_run("c", "shell", false, None, false, "{}").is_none());
    assert!(settle_before_run("c", "shell", true, Some("no"), false, "{}").is_none());
}

#[test]
fn executions_are_classified() {
    let ok = Execution::Output {
        for_llm: "fine".to_string(),
        is_error: false,
        pause_for_input: true,
    };
    assert_eq!(
        classify_execution(&ok, "t", 5),
        ("fine".to_string(), ToolObservationKind::Success, true)
    );
    let soft = Execution::Output {
        for_llm: "404".to_string(),
        is_error: true,
        pause_for_input: false,
    };
    assert_eq!(
        classify_execution(&soft, "t", 5),
        ("404".to_string(), ToolObservationKind::SoftError, false)
    );
    assert_eq!(
        classify_execution(&Execution::Failed("boom".to_string()), "t", 5),
        ("Error: boom".to_string(), ToolObservationKind::HardError, false)
    );
    assert_eq!(
        classify_execution(&Execution::Panicked, "t", 5).0,
        "Error: Tool 't' panicked during execution"
    );
    assert_eq!(
        classify_execution(&Execution::TimedOut, "t", 5).0,
        "Error: Tool 't' timed out after 5s"
    );
}

#[test]
fn rounds_and_timeouts() {
    assert!(runs_in_sequence(false, true, true, false));
    assert!(!runs_in_sequence(true, true, true, false));
    assert!(!runs_in_sequence(false, false, true, false));
    assert!(runs_in_sequence(true, false, false, true));
    assert_eq!(tool_timeout(7, 300), 7);
    assert_eq!(tool_timeout(0, 300), 300);
    assert_eq!(tool_timeout(0, 0), 1);
}

#[test]
fn tools_speak_to_the_user_while_the_agent_works() {
    let inbound = InboundMessage::new("telegram", "u", "c", "x")
        .with_metadata("telegram_thread_id", "7")
        .with_metadata("discord_message_id", "9");
    let out = tool_user_message(Some("telegram"), Some("c"), "half way", &inbound);
    assert_eq!(out.content, "half way");
    assert_eq!(out.metadata.get("telegram_thread_id").map(String::as_str), Some("7"));
    assert_eq!(out.metadata.get("keep_typing").map(String::as_str), Some("true"));
    assert!(out.metadata.get("discord_message_id").is_none());
    assert_eq!(tool_user_message(None, None, "x", &inbound).channel, "");
}

#[test]
fn thoughts_begin_and_end() {
    let (scope, payload, summary) = ThinkingScope::start("acp", "c", 4, 1000);
    assert_eq!(scope.token.thought_id, payload.thought_id);
    assert_eq!(payload.status, "thinking");
    assert_eq!(summary.as_deref(), Some("[thinking] started"));
    let (payload, summary) = scope.finish(1250, Some("draft"));
    assert_eq!(payload.elapsed_ms, Some(250));
    assert_eq!(payload.detail.as_deref(), Some("draft"));
    assert_eq!(summary.as_deref(), Some("[thinking] done (250ms)"));
    assert_eq!(
        thinking_status_event("t", "done", None, None).1.as_deref(),
        Some("[thinking] done")
    );
    assert_eq!(thinking_status_event("t", "else", None, None).1, None);
    let (payload, summary) = tool_call_started_event("c1", "shell", "{}");
    assert_eq!(payload.status, "started");
    assert_eq!(summary.as_deref(), Some("[tool] shell started"));
}

#[test]
fn trimmed_results_go_back_into_the_session() {
    let mut session = vec![
        Message::user("q"),
        Message::tool_result("c1", "a very long result"),
    ];
    let resolved = vec![Message::system("s"), Message::tool_result("c1", "short")];
    sync_trimmed_tool_results(&mut session, &resolved);
    assert_eq!(session[0].content, "q");
    assert_eq!(session[1].content, "short");
}
