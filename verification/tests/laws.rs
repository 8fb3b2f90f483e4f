//! What holds of several functions together, on concrete values.
use zeptoclaw::a2ui::{extract_a2ui_messages_from_response, normalize_a2ui_payload};
use zeptoclaw::acp_http::{AcpHttpChannel, ConnStep, RpcInputs, RpcStep};
use zeptoclaw::acp_protocol::JsonRpcRequest;
use zeptoclaw::acp_state::{
    AcpChannelConfig, AcpHttpConfig, BaseChannelConfig, ACP_HTTP_CHANNEL_NAME,
};
use zeptoclaw::agent_loop::{AgentConfig, AgentLoop, MessageQueueMode};
use zeptoclaw::approval::ApprovalResponse;
use zeptoclaw::bus::OutboundMessageKind;
use zeptoclaw::context::{
    current_day, format_message_envelope, ContextBuilder, PromptCapabilities, RuntimeContext,
};
use zeptoclaw::gateway::{approval_decision_label, approval_resolved_event};
use zeptoclaw::harness_state::{DisorderSignal, HarnessTurnState, ProposePlanArgs};
use zeptoclaw::inbound::resolve_images_to_base64;
use zeptoclaw::json::{parse_json, print_json, same_json, Json, MAX_NESTING};
use zeptoclaw::loop_events::{tool_call_finished_event, ToolCallOutcome};
use zeptoclaw::observations::{ToolObservation, ToolObservationKind};
use zeptoclaw::plan::{ProposedSubtask, TurnPlan};
use zeptoclaw::session::Message;
use zeptoclaw::tool_helpers::{ToolCategory, ToolEntry};

#[test]
fn plain_text_is_kept() {
    let mut surface: u64 = 0;
    let (text, messages) = extract_a2ui_messages_from_response("  just text \n", &mut surface);
    assert_eq!(text, "just text");
    assert!(messages.is_empty());
    assert_eq!(surface, 0);
}

#[test]
fn ui_messages_are_objects() {
    let mixed = parse_json(r#"[{"version":"v0.9","createSurface":{}},1,"x"]"#).unwrap();
    let found = normalize_a2ui_payload(mixed).unwrap();
    assert_eq!(found.len(), 1);
    assert!(matches!(found[0], Json::Object(_)));
    assert!(normalize_a2ui_payload(parse_json("[1]").unwrap()).is_none());
    assert!(normalize_a2ui_payload(Json::Null).is_none());
}

#[test]
fn a_new_day_keeps_the_prefix() {
    let ctx = RuntimeContext::new().with_channel("cli").with_current_time();
    let builder = ContextBuilder::new()
        .with_runtime_context(ctx)
        .with_memory_context("## Memory\n- k: v".to_string());
    let caps = PromptCapabilities::default();
    let today = builder
        .build_system_layered_on(caps, None, "Monday, June 1, 2026")
        .join();
    let tomorrow = builder
        .build_system_layered_on(caps, None, "Tuesday, June 2, 2026")
        .join();
    assert_ne!(today, tomorrow);
    let prefix = today.split("## Session Now").next().unwrap();
    assert!(prefix.contains("## Memory"));
    assert!(tomorrow.starts_with(prefix));
}

#[test]
fn summaries_can_be_given_for_one_call() {
    let builder = ContextBuilder::new().with_anchored_summary(Some("own".to_string()));
    let caps = PromptCapabilities::default();
    let history = vec![Message::user("hi")];
    let given = builder.build_messages_with_anchored_summary_override(
        &history,
        "",
        None,
        caps,
        Some("given"),
    );
    assert_eq!(given[1].content, "[Conversation Summary]\ngiven");
    let own = builder.build_messages_with_anchored_summary_override(&history, "", None, caps, None);
    assert_eq!(own[1].content, "own");
    assert_eq!(own.len(), 3);
}

#[test]
fn messages_without_stored_images_stay() {
    let mut message = Message::user("hi");
    resolve_images_to_base64(&mut message, &vec![]);
    assert_eq!(message.content, "hi");
    assert_eq!(message.content_parts.len(), 1);
}

fn subtask(description: &str, tool_budget: u32) -> ProposedSubtask {
    ProposedSubtask {
        description: description.to_string(),
        acceptance: "done".to_string(),
        tool_budget,
    }
}

#[test]
fn plans_stay_in_order() {
    let mut plan = TurnPlan::new(&vec![subtask("one", 2), subtask("two", 99), subtask("three", 0)]);
    assert!(!plan.record_tool_calls(1));
    assert!(plan.record_tool_calls(1), "the budget is used up");
    assert!(!plan.record_tool_calls(5), "and told of once");
    assert!(plan.render_budget_advisory().contains("budget 2"));
    plan.complete_current();
    let text = plan.render("Plan:");
    assert!(text.contains("[x] subtask 1: one"), "{text}");
    assert!(text.contains("[>] subtask 2 (0/15 tool calls used): two"), "{text}");
    assert!(plan.advance_to(2).is_ok());
    assert!(plan.render("Plan:").contains("[>] subtask 3"));
    assert!(plan.advance_to(3).is_err());
    assert!(plan.mark_blocked(0).is_ok());
    assert!(plan.mark_blocked(9).is_err());
    assert_eq!(plan.render("Plan:").lines().count(), 4);
}

#[test]
fn plans_have_at_most_eight_subtasks() {
    let many: Vec<ProposedSubtask> = (0..12).map(|i| subtask(&format!("s{i}"), 1)).collect();
    let plan = TurnPlan::new(&many);
    assert_eq!(plan.render("Plan:").lines().count(), 9);
}

#[test]
fn only_the_last_five_results_count() {
    let mut state = HarnessTurnState::default();
    let result = |kind| ToolObservation::pre_execution("c", "t", "x", kind);
    state.record_observations(&vec![
        result(ToolObservationKind::SoftError),
        result(ToolObservationKind::SoftError),
    ]);
    state.record_observations(&vec![
        result(ToolObservationKind::Success),
        result(ToolObservationKind::Success),
        result(ToolObservationKind::Success),
        result(ToolObservationKind::Success),
    ]);
    state.record_observations(&vec![result(ToolObservationKind::HardError)]);
    assert!(state.take_disorder_advisory().is_none());
    state.record_observations(&vec![
        result(ToolObservationKind::HardError),
        result(ToolObservationKind::HardError),
    ]);
    let (signal, _) = state.take_disorder_advisory().unwrap();
    assert_eq!(signal, DisorderSignal::ToolErrorRate);
    assert_eq!(signal.as_label(), "tool_error_rate");
    assert!(state.note_llm_response_after_advisory(false));
    assert!(!state.note_llm_response_after_advisory(false));
}

#[test]
fn without_a_plan_no_budget_is_charged() {
    let mut state = HarnessTurnState::default();
    let names: Vec<String> = (0..40).map(|i| format!("tool{i}")).collect();
    state.record_tool_calls(&names);
    assert!(state.take_disorder_advisory().is_none());
    state.handle_propose_plan(
        "c",
        Ok(ProposePlanArgs {
            subtasks: vec![subtask("one", 1)],
            rationale: None,
        }),
        1,
    );
    state.record_tool_calls(&names);
    assert_eq!(
        state.take_disorder_advisory().unwrap().0,
        DisorderSignal::SubtaskBudget
    );
}

fn channel() -> AcpHttpChannel {
    AcpHttpChannel::new(
        AcpChannelConfig::default(),
        AcpHttpConfig {
            bind: "127.0.0.1".to_string(),
            port: 1,
            auth_token: None,
        },
        BaseChannelConfig::new(ACP_HTTP_CHANNEL_NAME),
    )
}

#[test]
fn methods_are_read_in_any_case() {
    let ch = channel();
    let raw = "post /acp HTTP/1.1\r\ncontent-length: 2\r\n\r\n{}trailing";
    match ch.route_request(raw.as_bytes()) {
        ConnStep::Rpc(body) => assert_eq!(body, "{}"),
        _ => panic!("expected a call"),
    }
}

#[test]
fn prompts_belong_to_sessions() {
    let mut ch = channel();
    let call = |method: &str, params: &str| {
        Ok(JsonRpcRequest {
            jsonrpc: "2.0".to_string(),
            id: Some(Json::Unsigned(1)),
            method: method.to_string(),
            params: Some(parse_json(params).unwrap()),
        })
    };
    let inputs = |n: u64| RpcInputs {
        list_filter: Ok(None),
        fresh_id: format!("s{n}"),
        now: n,
        version: "1".to_string(),
    };
    ch.handle_rpc(call("session/new", r#"{"cwd":"/w"}"#), inputs(1));
    let prompt = r#"{"sessionId":"acph_s1","prompt":[{"type":"text","text":"hi"}]}"#;
    assert!(matches!(
        ch.handle_rpc(call("session/prompt", prompt), inputs(2)),
        RpcStep::Stream { .. }
    ));
    assert!(ch.state.sessions.contains_key("acph_s1"));
    assert!(ch.state.pending.contains_key("acph_s1"));
    assert!(matches!(
        ch.handle_rpc(call("session/prompt", prompt), inputs(3)),
        RpcStep::Respond(_)
    ));
    ch.handle_rpc(call("session/cancel", r#"{"sessionId":"acph_s1"}"#), inputs(4));
    assert!(ch.state.pending.get("acph_s1").unwrap().cancelled);
    ch.state.sweep_expired(5, 1);
    assert_eq!(ch.state.sessions.len(), 1, "a fresh session stays");
    ch.state.sweep_expired(u64::MAX, 1);
    assert_eq!(ch.state.sessions.len(), 0);
    assert_eq!(ch.state.pending.len(), 0, "a prompt goes with its session");
}

#[test]
fn tool_calls_end_with_an_event() {
    let (payload, summary) = tool_call_finished_event(
        "c1",
        "shell",
        ToolCallOutcome::Failed { raw_error: "boom" },
        7,
        "{}",
        "Error: boom",
        None,
    );
    assert_eq!(payload.status, "failed");
    assert_eq!(payload.error.as_deref(), Some("boom"));
    assert!(summary.unwrap().contains("shell"));
    let (payload, _) =
        tool_call_finished_event("c1", "shell", ToolCallOutcome::Done, 7, "{}", "ok", Some("ok"));
    assert_eq!(payload.status, "done");
    assert_eq!(payload.error, None);
}

#[test]
fn decisions_are_told_to_acp_clients() {
    let denied = ApprovalResponse::Denied("no".to_string());
    let event = approval_resolved_event("acp", "c", "r1", &denied).unwrap();
    assert_eq!(event.kind, OutboundMessageKind::Custom);
    assert!(approval_resolved_event("discord", "c", "r1", &denied).is_none());
    assert!(approval_resolved_event("acp", "c", "r1", &ApprovalResponse::TimedOut).is_none());
    assert_eq!(approval_decision_label(&denied), Some("deny"));
}

#[test]
fn tools_come_in_bulk() {
    let mut agent = AgentLoop::new(AgentConfig {
        model: "m".to_string(),
        streaming: true,
        agent_timeout_secs: 1,
        tool_timeout_secs: 1,
        message_queue_mode: MessageQueueMode::Collect,
        anchored_summary: false,
        anchor_step: 2,
        summary_tokens: 512,
        summary_model: None,
        pairing: false,
    });
    let tool = |name: &str| ToolEntry {
        tool_name: name.to_string(),
        exposed_name: name.to_string(),
        category: ToolCategory::Other,
    };
    agent.register_tool(tool("a"));
    agent.merge_kernel_tools(vec![tool("b"), tool("a"), tool("c")]);
    assert_eq!(agent.tool_names(), vec!["a", "b", "c"]);
}

#[test]
fn json_is_read_back() {
    let raw = r#"{"a":[1,-2,true,null,"é\n\"\u0001"],"b":{"c":{}}}"#;
    let value = parse_json(raw).unwrap();
    let text = print_json(&value);
    assert!(same_json(&parse_json(&text).unwrap(), &value));
    let deep = |n: usize| format!("{}{}", "[".repeat(n), "]".repeat(n));
    let most = MAX_NESTING as usize;
    let value = parse_json(&deep(most)).unwrap();
    assert_eq!(print_json(&value), deep(most));
    assert!(parse_json(&deep(most + 1)).is_err());
}

#[test]
fn days_and_moments_have_their_shape() {
    let day = current_day();
    let parts: Vec<&str> = day.split(", ").collect();
    assert_eq!(parts.len(), 3, "{day}");
    assert!(parts[0].ends_with("day"));
    let (month, number) = parts[1].split_once(' ').unwrap();
    assert!(month.chars().all(|c| c.is_ascii_alphabetic()));
    assert!((1..=31).contains(&number.parse::<u32>().unwrap()));
    assert!(parts[2].len() >= 4);
    assert!(!day.contains(':'));
    let envelope = format_message_envelope();
    let moment = envelope.trim_matches(|c| c == '[' || c == ']');
    let words: Vec<&str> = moment.split(' ').collect();
    assert_eq!(words.len(), 4, "{moment}");
    assert!(words[0].ends_with("day"));
    assert_eq!(words[1].split('-').count(), 3);
    assert_eq!(words[2].len(), 5);
    assert!(words[3].starts_with('+') || words[3].starts_with('-'));
    assert_eq!(words[3].len(), 6);
}

#[test]
fn fields_are_held_in_the_order_of_their_names() {
    let text = |s: &str| Json::Text(s.to_string());
    let value = Json::Object(vec![
        ("b".to_string(), text("1")),
        ("é".to_string(), text("2")),
        ("a".to_string(), Json::Negative(3)),
        ("b".to_string(), text("4")),
        ("ab".to_string(), Json::Null),
    ]);
    let once = print_json(&value);
    assert_eq!(once, r#"{"a":3,"ab":null,"b":"4","é":"2"}"#);
    assert_eq!(print_json(&parse_json(&once).unwrap()), once);
}

#[test]
fn a_budget_is_signalled_once_whatever_happens() {
    let mut plan = TurnPlan::new(&vec![subtask("one", 2), subtask("two", 3)]);
    let mut signals = [0, 0];
    let mut charge = |plan: &mut TurnPlan, n: u32| {
        let current = plan.current_subtask_idx;
        if plan.record_tool_calls(n) {
            signals[current] += 1;
        }
    };
    charge(&mut plan, 2);
    assert!(plan.advance_to(1).is_ok());
    charge(&mut plan, 1);
    assert!(plan.advance_to(0).is_ok());
    charge(&mut plan, 9);
    assert!(plan.mark_blocked(0).is_ok());
    charge(&mut plan, 2);
    charge(&mut plan, 2);
    plan.complete_current();
    charge(&mut plan, 1);
    assert_eq!(signals, [1, 1]);
}
