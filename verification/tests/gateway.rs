//! The gateway's decisions.
use zeptoclaw::approval::{ApprovalRequest, ApprovalResponse, ThreadKey};
use zeptoclaw::bus::{InboundMessage, OutboundMessageKind};
use zeptoclaw::gateway::{
    approval_card, approval_decision_label, approval_outcome, approval_prompt, configured_docker_binary, confirm_reply,
    degraded_tools, diff_hot_reload_sections, docker_unavailable, forbids_start, gateway_banner,
    handle_pending_confirm, handle_thread_command, heartbeat_target, image_missing, intercept,
    keeps_new_config,
    parse_approval_reply, parse_container_backend, parse_deliver_to, parse_thread_command,
    provider_complaints, reload_plan, require_reply, resolve_approval_timeout, route_approval, tunnel_provider,
    would_auto_approve, CommandStep, ConfirmOutcome, ContainerBackend,
    DiagnosticLevel, HotSections, InterceptStep, PendingConfirms, ThreadApprovalMode,
    ThreadApprovalState, ThreadCommand, ThreadModes,
};
use zeptoclaw::json::{parse_json, Json};

const SECOND: u64 = 1_000_000_000;

#[test]
fn test_parse_deliver_to_valid() {
    assert_eq!(
        parse_deliver_to("telegram:123456789"),
        Some(("telegram".to_string(), "123456789".to_string()))
    );
}

#[test]
fn test_parse_deliver_to_with_colon_in_chat_id() {
    assert_eq!(
        parse_deliver_to("discord:guild:123"),
        Some(("discord".to_string(), "guild:123".to_string()))
    );
}

#[test]
fn test_parse_deliver_to_invalid() {
    assert_eq!(parse_deliver_to("no-colon"), None);
    assert_eq!(parse_deliver_to(":empty_channel"), None);
    assert_eq!(parse_deliver_to("empty_chat:"), None);
}

#[test]
fn heartbeats_go_somewhere() {
    assert_eq!(
        heartbeat_target(Some("telegram:1")),
        ("telegram".to_string(), "1".to_string())
    );
    for target in [None, Some("odd")] {
        assert_eq!(
            heartbeat_target(target),
            ("heartbeat".to_string(), "system".to_string())
        );
    }
}

fn sections(safety_enabled: bool) -> HotSections {
    HotSections {
        providers: Some(Json::Object(vec![])),
        channels: Some(Json::Object(vec![])),
        safety: Some(Json::Object(vec![(
            "enabled".to_string(),
            Json::Bool(safety_enabled),
        )])),
        agents: None,
    }
}

#[test]
fn test_diff_hot_reload_sections() {
    let old = sections(true);
    let new = sections(false);
    let changed = diff_hot_reload_sections(&old, &new);
    assert!(changed.contains(&"safety".to_string()));
    assert!(!changed.contains(&"gateway".to_string()));
    assert!(diff_hot_reload_sections(&old, &sections(true)).is_empty());

    let plan = reload_plan(&old, &new, false);
    assert!(plan.apply && plan.rebuild_agent && !plan.rebuild_channels);
    let plan = reload_plan(&old, &new, true);
    assert!(plan.apply && !plan.rebuild_agent);
    assert!(!reload_plan(&old, &sections(true), false).apply);
    let plan = reload_plan(&old, &new, false);
    assert!(keeps_new_config(&plan, true, false), "channels were not asked for");
    assert!(!keeps_new_config(&plan, false, true));
    assert!(!keeps_new_config(&reload_plan(&old, &old, false), true, true));
}

#[test]
fn the_operator_is_told_how_it_runs() {
    assert_eq!(
        gateway_banner(false, false),
        vec!["Gateway is running. Press Ctrl+C to stop."]
    );
    let lines = gateway_banner(true, true);
    assert_eq!(lines.len(), 3);
    assert!(lines[0].contains("DEGRADED MODE"));
    assert!(lines[2].contains("containerized"));
    let text = |s: &str| Some(s.to_string());
    assert_eq!(tunnel_provider(text("a"), text("b")), text("a"));
    assert_eq!(tunnel_provider(None, text("b")), text("b"));
    assert_eq!(tunnel_provider(None, None), None);
}

#[test]
fn test_parse_approval_reply_variants() {
    assert_eq!(parse_approval_reply("yes"), Some(true));
    assert_eq!(parse_approval_reply("y"), Some(true));
    assert_eq!(parse_approval_reply("approve"), Some(true));
    assert_eq!(parse_approval_reply("no"), Some(false));
    assert_eq!(parse_approval_reply("n"), Some(false));
    assert_eq!(parse_approval_reply("deny"), Some(false));
    assert_eq!(parse_approval_reply("yes all"), None);
    assert_eq!(parse_approval_reply("no all"), None);
    assert_eq!(parse_approval_reply("approve all"), None);
    assert_eq!(parse_approval_reply("deny all"), None);
    assert_eq!(parse_approval_reply("maybe"), None);
}

#[test]
fn replies_are_read_in_any_case() {
    assert_eq!(parse_approval_reply("  YES \n"), Some(true));
    assert_eq!(parse_approval_reply("Deny"), Some(false));
}

#[test]
fn test_parse_thread_command_recognises_all_aliases() {
    assert_eq!(
        parse_thread_command("/skip-approval"),
        Some(ThreadCommand::SkipApproval)
    );
    assert_eq!(
        parse_thread_command("/skip_approval"),
        Some(ThreadCommand::SkipApproval)
    );
    assert_eq!(
        parse_thread_command("/require-approval"),
        Some(ThreadCommand::RequireApproval)
    );
    assert_eq!(
        parse_thread_command("/require_approval"),
        Some(ThreadCommand::RequireApproval)
    );
    assert_eq!(
        parse_thread_command("/approval-status"),
        Some(ThreadCommand::Status)
    );
    assert_eq!(
        parse_thread_command("/approval_status"),
        Some(ThreadCommand::Status)
    );
    assert_eq!(parse_thread_command("/help"), Some(ThreadCommand::Help));
    assert_eq!(parse_thread_command("/?"), Some(ThreadCommand::Help));
}

#[test]
fn test_parse_thread_command_is_case_insensitive() {
    assert_eq!(
        parse_thread_command("/SKIP-APPROVAL"),
        Some(ThreadCommand::SkipApproval)
    );
    assert_eq!(
        parse_thread_command("/Require-Approval"),
        Some(ThreadCommand::RequireApproval)
    );
}

#[test]
fn test_parse_thread_command_rejects_unknown() {
    assert_eq!(parse_thread_command(""), None);
    assert_eq!(parse_thread_command("skip-approval"), None);
    assert_eq!(parse_thread_command("/skip"), None);
    assert_eq!(parse_thread_command("/skip-approval please"), None);
    assert_eq!(parse_thread_command("hello"), None);
}

/// The modes, and the state that a command reads of them.
fn state_of(modes: &ThreadModes, thread: &ThreadKey) -> ThreadApprovalState {
    let auto = modes.is_auto_approve(thread);
    ThreadApprovalState {
        mode: if auto {
            ThreadApprovalMode::AutoApprove
        } else {
            ThreadApprovalMode::RequireApproval
        },
        updated_by: if auto { "discord" } else { "" }.to_string(),
        updated_at: "2026-01-02T03:04:05Z".to_string(),
    }
}

fn command(
    cmd: ThreadCommand,
    thread: &ThreadKey,
    modes: &ThreadModes,
    pending: &mut PendingConfirms,
    now: u64,
) -> CommandStep {
    let state = state_of(modes, thread);
    handle_thread_command(cmd, thread, "discord", "c1", &state, 0, pending, now)
}

#[test]
fn require_approval_flips_state_immediately() {
    let mut modes = ThreadModes::new();
    let mut pending = PendingConfirms::new();
    let t = ThreadKey::new("alice", "zc");
    modes.set(&t, ThreadApprovalMode::AutoApprove);
    assert!(modes.is_auto_approve(&t));

    let step = command(ThreadCommand::RequireApproval, &t, &modes, &mut pending, 0);
    match step {
        CommandStep::RequireApproval => modes.set(&t, ThreadApprovalMode::RequireApproval),
        other => panic!("expected the mode to change, got {other:?}"),
    }
    assert!(!modes.is_auto_approve(&t));
    assert!(require_reply(true).contains("Manual approval is back on"));
    assert!(require_reply(false).contains("Couldn't persist"));
}

#[test]
fn skip_approval_requires_confirm_within_60s() {
    let mut modes = ThreadModes::new();
    let mut pending = PendingConfirms::new();
    let t = ThreadKey::new("alice", "zc");

    command(ThreadCommand::SkipApproval, &t, &modes, &mut pending, 0);
    assert!(!modes.is_auto_approve(&t));
    assert_eq!(pending.len(), 1);

    let outcome = handle_pending_confirm(&mut pending, &t, "confirm", 59 * SECOND);
    match outcome {
        ConfirmOutcome::Consumed { channel, chat_id } => {
            assert_eq!(channel, "discord");
            assert_eq!(chat_id, "c1");
            modes.set(&t, ThreadApprovalMode::AutoApprove);
        }
        ConfirmOutcome::Fallthrough => panic!("expected the request to be confirmed"),
    }
    assert!(modes.is_auto_approve(&t));
    assert_eq!(pending.len(), 0);
    assert!(confirm_reply(true).contains("AutoApprove enabled"));
    assert!(confirm_reply(false).contains("Couldn't persist"));
}

#[test]
fn non_confirm_after_skip_request_cancels_pending() {
    let modes = ThreadModes::new();
    let mut pending = PendingConfirms::new();
    let t = ThreadKey::new("alice", "zc");

    command(ThreadCommand::SkipApproval, &t, &modes, &mut pending, 0);
    assert_eq!(pending.len(), 1);

    let outcome = handle_pending_confirm(&mut pending, &t, "hello", 1);
    assert!(matches!(outcome, ConfirmOutcome::Fallthrough));
    assert!(!modes.is_auto_approve(&t));
    assert_eq!(pending.len(), 0);
}

#[test]
fn expired_pending_confirm_is_dropped_silently() {
    let modes = ThreadModes::new();
    let mut pending = PendingConfirms::new();
    let t = ThreadKey::new("alice", "zc");
    pending.insert(&t, 9 * SECOND, "discord", "c1");

    let outcome = handle_pending_confirm(&mut pending, &t, "confirm", 10 * SECOND);
    assert!(matches!(outcome, ConfirmOutcome::Fallthrough));
    assert!(!modes.is_auto_approve(&t));
    assert_eq!(pending.len(), 0);
}

#[test]
fn approval_status_does_not_mutate_state() {
    let modes = ThreadModes::new();
    let mut pending = PendingConfirms::new();
    let t = ThreadKey::new("alice", "zc");

    let step = command(ThreadCommand::Status, &t, &modes, &mut pending, 0);
    match step {
        CommandStep::Reply(text) => assert!(text.contains("RequireApproval (default)")),
        other => panic!("expected a reply, got {other:?}"),
    }
    assert!(!modes.is_auto_approve(&t));
    assert_eq!(pending.len(), 0);
    let step = command(ThreadCommand::Help, &t, &modes, &mut pending, 0);
    match step {
        CommandStep::Reply(text) => assert!(text.contains("/skip-approval")),
        other => panic!("expected a reply, got {other:?}"),
    }
}

#[test]
fn handler_bypass_only_fires_when_auto_approve_and_no_hard_floor() {
    let mut modes = ThreadModes::new();
    let t = ThreadKey::new("alice", "zc");

    assert!(!would_auto_approve(modes.is_auto_approve(&t), false));
    assert!(!would_auto_approve(modes.is_auto_approve(&t), true));

    modes.set(&t, ThreadApprovalMode::AutoApprove);

    assert!(would_auto_approve(modes.is_auto_approve(&t), false));
    assert!(!would_auto_approve(modes.is_auto_approve(&t), true));
}

#[test]
fn handler_bypass_isolated_per_thread() {
    let mut modes = ThreadModes::new();
    modes.set(
        &ThreadKey::new("alice", "zc"),
        ThreadApprovalMode::AutoApprove,
    );
    let auto = |user: &str, agent: &str| {
        would_auto_approve(modes.is_auto_approve(&ThreadKey::new(user, agent)), false)
    };
    assert!(auto("alice", "zc"));
    assert!(!auto("alice", "other"));
    assert!(!auto("bob", "zc"));
}

#[test]
fn skip_when_already_auto_approve_is_idempotent() {
    let mut modes = ThreadModes::new();
    let mut pending = PendingConfirms::new();
    let t = ThreadKey::new("alice", "zc");
    modes.set(&t, ThreadApprovalMode::AutoApprove);
    command(ThreadCommand::SkipApproval, &t, &modes, &mut pending, 0);
    assert!(modes.is_auto_approve(&t));
    assert_eq!(pending.len(), 0);
}

fn inbound(content: &str) -> InboundMessage {
    InboundMessage::new("discord", "tester", "c1", content)
}

#[test]
fn messages_are_intercepted_in_order() {
    let mut pending = PendingConfirms::new();
    let t = ThreadKey::new("alice", "zc");
    assert!(matches!(
        intercept(&mut pending, &t, &inbound("hello"), 0),
        InterceptStep::Pass
    ));
    assert!(matches!(
        intercept(&mut pending, &t, &inbound(" /help "), 0),
        InterceptStep::Command(ThreadCommand::Help)
    ));
    assert!(matches!(
        intercept(&mut pending, &t, &inbound("yes"), 0),
        InterceptStep::ResolveOldest(true)
    ));
    let injected = inbound("no")
        .with_metadata("inject_kind", "approval_response")
        .with_metadata("request_id", "r1");
    match intercept(&mut pending, &t, &injected, 0) {
        InterceptStep::ResolveById(id, approved) => {
            assert_eq!(id, "r1");
            assert!(!approved);
        }
        other => panic!("expected one request, got {other:?}"),
    }
    let other_kind = inbound("no").with_metadata("inject_kind", "note");
    assert!(matches!(
        intercept(&mut pending, &t, &other_kind, 0),
        InterceptStep::Pass
    ));
    let no_id = inbound("no").with_metadata("inject_kind", "approval_response");
    assert!(matches!(
        intercept(&mut pending, &t, &no_id, 0),
        InterceptStep::Pass
    ));
    let empty_id = no_id.with_metadata("request_id", "");
    assert!(matches!(
        intercept(&mut pending, &t, &empty_id, 0),
        InterceptStep::ResolveOldest(false)
    ));
    pending.insert(&t, 5, "cli", "x");
    match intercept(&mut pending, &t, &inbound(" Confirm "), 4) {
        InterceptStep::Confirmed { channel, .. } => assert_eq!(channel, "cli"),
        other => panic!("expected a confirmation, got {other:?}"),
    }
}

fn approval(channel: Option<&str>, chat_id: Option<&str>) -> ApprovalRequest {
    ApprovalRequest {
        tool_name: "shell".to_string(),
        arguments: parse_json(r#"{"command":"ls -la"}"#).unwrap(),
        channel: channel.map(|s| s.to_string()),
        chat_id: chat_id.map(|s| s.to_string()),
        user_id: Some("alice".to_string()),
        agent_id: Some("zc".to_string()),
        hard_floor_reason: None,
    }
}

#[test]
fn approvals_need_somewhere_to_go() {
    let route = route_approval(&approval(Some("acp"), Some("c1"))).unwrap();
    assert_eq!(route.channel, "acp");
    assert_eq!(route.thread.unwrap().user, "alice");
    for (channel, chat_id) in [(None, Some("c1")), (Some("acp"), None), (Some("acp"), Some(""))] {
        assert!(matches!(
            route_approval(&approval(channel, chat_id)),
            Err(ApprovalResponse::Denied(_))
        ));
    }
}

#[test]
fn approvals_are_asked_for() {
    let request = approval(Some("discord"), Some("c1"));
    let prompt = approval_prompt(&request, 1, false);
    assert!(prompt.contains("Approval Required"));
    assert!(prompt.contains("ls -la"));
    assert!(prompt.contains("/skip-approval"));
    assert!(approval_prompt(&request, 3, false).contains("3 more approval(s) queued"));
    let floor = ApprovalRequest {
        hard_floor_reason: Some("wipes the disk".to_string()),
        ..approval(Some("discord"), Some("c1"))
    };
    assert!(approval_prompt(&floor, 1, true).contains("[HARD FLOOR]"));
    let card = approval_card(&request, "discord", "c1", "r1", &prompt);
    assert_eq!(card.kind, OutboundMessageKind::Full);
    assert_eq!(card.content, prompt);
    let card = approval_card(&request, "acp_http", "c1", "r1", &prompt);
    assert_eq!(card.kind, OutboundMessageKind::Custom);
    assert!(matches!(approval_outcome(Some(true)), ApprovalResponse::Approved));
    assert!(matches!(approval_outcome(Some(false)), ApprovalResponse::Denied(_)));
    assert!(matches!(approval_outcome(None), ApprovalResponse::TimedOut));
    assert_eq!(approval_decision_label(&ApprovalResponse::Approved), Some("approve"));
}

#[test]
fn the_container_is_chosen() {
    assert_eq!(configured_docker_binary(None), "docker");
    assert_eq!(configured_docker_binary(Some("  ")), "docker");
    assert_eq!(configured_docker_binary(Some(" podman ")), "podman");
    assert_eq!(parse_container_backend("auto", false), Ok(None));
    assert_eq!(
        parse_container_backend("Docker", false),
        Ok(Some(ContainerBackend::Docker))
    );
    assert_eq!(
        parse_container_backend("apple", false),
        Err("Unknown backend 'apple'. Use: docker".to_string())
    );
    assert_eq!(
        parse_container_backend("vm", true),
        Err("Unknown backend 'vm'. Use: docker or apple".to_string())
    );
    assert_eq!(
        docker_unavailable("docker"),
        "Docker is not available via 'docker'. Install Docker or run without --containerized."
    );
    assert_eq!(
        image_missing("img", "docker"),
        "Docker image 'img' not found (checked via 'docker')"
    );
}

#[test]
fn the_start_is_checked() {
    assert_eq!(resolve_approval_timeout(0), 120);
    assert_eq!(resolve_approval_timeout(7), 7);
    assert_eq!(degraded_tools(), vec!["shell", "write_file", "edit_file"]);
    assert!(!forbids_start(&vec![DiagnosticLevel::Warn, DiagnosticLevel::Fine]));
    assert!(forbids_start(&vec![DiagnosticLevel::Warn, DiagnosticLevel::Error]));
    let supported = vec!["anthropic".to_string(), "openai".to_string()];
    assert!(provider_complaints(true, &vec![], &supported, "p").is_none());
    let (first, second) = provider_complaints(false, &vec![], &supported, "\"/c\"").unwrap();
    assert!(first.starts_with("No AI provider configured."));
    assert_eq!(second, "or add your API key to \"/c\"");
    let odd = vec!["odd".to_string(), "even".to_string()];
    let (first, second) = provider_complaints(false, &odd, &supported, "p").unwrap();
    assert_eq!(
        first,
        "Configured provider(s) are not supported by this runtime: odd, even"
    );
    assert_eq!(
        second,
        "Currently supported runtime providers: anthropic, openai"
    );
}
