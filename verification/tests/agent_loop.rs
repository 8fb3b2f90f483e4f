//! The agent's switches, providers, tools and waiting messages.
use zeptoclaw::agent_loop::{
    drop_empty_user_messages, dry_run_result, memory_flush_calls, overflow_retry_urgency,
    summary_request, tenant_id, token_delta, AgentConfig, AgentLoop, CompactionUrgency,
    InboundStep, LoopEvent, MessageQueueMode, Session, MEMORY_FLUSH_PROMPT, MEMORY_FLUSH_TIMEOUT_SECS,
};
use zeptoclaw::approval::ThreadKey;
use zeptoclaw::bus::InboundMessage;
use zeptoclaw::context::ContextBuilder;
use zeptoclaw::json::Json;
use zeptoclaw::loop_events::STREAMING_CAPABLE_METADATA_KEY;
use zeptoclaw::providers::LLMToolCall;
use zeptoclaw::session::{Message, Role};
use zeptoclaw::tool_feedback::{ToolFeedback, ToolFeedbackPhase};
use zeptoclaw::tool_helpers::{ToolCategory, ToolEntry};

fn config() -> AgentConfig {
    AgentConfig {
        model: "default-model".to_string(),
        streaming: true,
        agent_timeout_secs: 300,
        tool_timeout_secs: 0,
        message_queue_mode: MessageQueueMode::Collect,
        anchored_summary: false,
        anchor_step: 2,
        summary_tokens: 512,
        summary_model: None,
        pairing: false,
    }
}

fn tool(name: &str, category: ToolCategory) -> ToolEntry {
    ToolEntry {
        tool_name: name.to_string(),
        exposed_name: name.to_string(),
        category,
    }
}

const OPENAI: u64 = 1;
const GROQ: u64 = 2;
const DEFAULT_PROVIDER: u64 = 3;

#[test]
fn test_agent_loop_creation() {
    let agent = AgentLoop::new(config());
    assert!(!agent.is_running());
}

#[test]
fn test_provider_registry_lookup() {
    let agent = AgentLoop::new(config());
    assert!(agent.get_provider_by_name("openai").is_none());
}

#[test]
fn test_provider_registry_set_and_get() {
    let mut agent = AgentLoop::new(config());
    agent.set_provider_in_registry("openai", OPENAI);
    let p = agent.get_provider_by_name("openai");
    assert!(p.is_some());
    assert_eq!(p.unwrap(), OPENAI);
    assert_eq!(agent.registered_provider_names(), vec!["openai"]);
}

#[test]
fn test_process_message_uses_model_override_metadata() {
    let agent = AgentLoop::new(config());
    let msg = InboundMessage::new("telegram", "user1", "chat1", "hello")
        .with_metadata("model_override", "gpt-5.1");
    let model = agent.resolve_model_for_message(&msg);
    assert_eq!(model, "gpt-5.1");
}

#[test]
fn the_default_model_answers_otherwise() {
    let mut config = config();
    config.model = "some-model-20250929".to_string();
    let agent = AgentLoop::new(config);
    let msg = InboundMessage::new("telegram", "user1", "chat1", "hello");
    let model = agent.resolve_model_for_message(&msg);
    assert_eq!(model, "some-model-20250929");
}

#[test]
fn an_empty_model_override_is_none() {
    let agent = AgentLoop::new(config());
    let msg = InboundMessage::new("telegram", "user1", "chat1", "hello")
        .with_metadata("model_override", "");
    assert_eq!(agent.resolve_model_for_message(&msg), "default-model");
}

#[test]
fn test_resolve_provider_infers_from_model_override() {
    let mut agent = AgentLoop::new(config());
    agent.set_provider_in_registry("openai", OPENAI);
    let msg = InboundMessage::new("cli", "user1", "chat1", "hello")
        .with_metadata("model_override", "gpt-5.4");
    let provider = agent.resolve_provider_for_message(&msg, Some("openai"));
    assert!(
        provider.is_some(),
        "should resolve provider from model name"
    );
    assert_eq!(provider.unwrap(), OPENAI);
}

#[test]
fn test_resolve_provider_explicit_override_takes_precedence() {
    let mut agent = AgentLoop::new(config());
    agent.set_provider_in_registry("openai", OPENAI);
    agent.set_provider_in_registry("groq", GROQ);
    let msg = InboundMessage::new("cli", "user1", "chat1", "hello")
        .with_metadata("model_override", "gpt-5.4")
        .with_metadata("provider_override", "groq");
    let provider = agent.resolve_provider_for_message(&msg, Some("openai"));
    assert_eq!(provider.unwrap(), GROQ);
}

#[test]
fn test_resolve_provider_falls_back_when_model_unknown() {
    let mut agent = AgentLoop::new(config());
    agent.set_provider(DEFAULT_PROVIDER);
    let msg = InboundMessage::new("cli", "user1", "chat1", "hello")
        .with_metadata("model_override", "some-unknown-model-xyz");
    let provider = agent.resolve_provider_for_message(&msg, None);
    assert_eq!(provider.unwrap(), DEFAULT_PROVIDER);
}

#[test]
fn an_unregistered_provider_override_falls_back() {
    let mut agent = AgentLoop::new(config());
    agent.set_provider(DEFAULT_PROVIDER);
    let msg = InboundMessage::new("cli", "user1", "chat1", "hello")
        .with_metadata("provider_override", "groq");
    assert_eq!(agent.resolve_provider_for_message(&msg, Some("groq")), Some(DEFAULT_PROVIDER));
}

#[test]
fn test_agent_loop_with_context_builder() {
    let context_builder = ContextBuilder::new().with_system_prompt("Custom prompt");
    let agent = AgentLoop::with_context_builder(config(), context_builder);
    assert!(!agent.is_running());
}

#[test]
fn test_agent_loop_tool_registration() {
    let mut agent = AgentLoop::new(config());
    assert_eq!(agent.tool_count(), 0);
    assert!(!agent.has_tool("echo"));

    agent.register_tool(tool("echo", ToolCategory::Other));

    assert_eq!(agent.tool_count(), 1);
    assert!(agent.has_tool("echo"));
}

#[test]
fn a_tool_takes_the_place_of_its_namesake() {
    let mut agent = AgentLoop::new(config());
    agent.register_tool(tool("echo", ToolCategory::Other));
    agent.register_tool(tool("shell", ToolCategory::Shell));
    agent.register_tool(tool("echo", ToolCategory::Memory));
    assert_eq!(agent.tool_names(), vec!["echo", "shell"]);
    assert_eq!(agent.tools()[0].category, ToolCategory::Memory);
}

#[test]
fn test_agent_loop_accessors() {
    let agent = AgentLoop::new(config());
    let _ = agent.config();
    assert_eq!(agent.provider(), None);
}

#[test]
fn the_first_thread_identity_stays() {
    let mut agent = AgentLoop::new(config());
    assert!(agent.thread_identity().is_none());
    agent.set_thread_identity(ThreadKey::new("u1", "a1"));
    agent.set_thread_identity(ThreadKey::new("u2", "a2"));
    assert_eq!(agent.thread_identity().unwrap().user, "u1");
}

#[test]
fn test_try_queue_or_process_returns_false_when_session_idle() {
    let mut agent = AgentLoop::new(config());
    let msg = InboundMessage::new("telegram", "user1", "chat1", "hello");
    let queued = agent.try_queue_or_process(&msg, false);
    assert!(!queued);
    assert!(agent.drain_pending_messages(&msg).is_empty());
}

#[test]
fn test_try_queue_or_process_queues_when_session_busy() {
    let mut config = config();
    config.message_queue_mode = MessageQueueMode::Followup;
    let mut agent = AgentLoop::new(config);
    let msg = InboundMessage::new("telegram", "user1", "chat1", "followup");
    let queued = agent.try_queue_or_process(&msg, true);
    assert!(queued);
    let queued_msgs = agent.drain_pending_messages(&msg);
    assert_eq!(queued_msgs.len(), 1);
    assert_eq!(queued_msgs[0].content, msg.content);
    assert!(agent.drain_pending_messages(&msg).is_empty());
}

#[test]
fn collected_messages_come_back_as_one() {
    let mut agent = AgentLoop::new(config());
    let first = InboundMessage::new("telegram", "user1", "chat1", "one")
        .with_metadata("telegram_thread_id", "7");
    let second = InboundMessage::new("telegram", "user1", "chat1", "two");
    assert!(agent.try_queue_or_process(&first, true));
    assert!(agent.try_queue_or_process(&second, true));
    let back = agent.drain_pending_messages(&first);
    assert_eq!(back.len(), 1);
    assert_eq!(
        back[0].content,
        "[Queued messages while I was busy]\n\n1. one\n2. two"
    );
    assert_eq!(back[0].session_key, "telegram:chat1");
    assert!(back[0].metadata.get("telegram_thread_id").is_none());
}

#[test]
fn followups_keep_their_order_and_other_sessions() {
    let mut config = config();
    config.message_queue_mode = MessageQueueMode::Followup;
    let mut agent = AgentLoop::new(config);
    let a = InboundMessage::new("telegram", "user1", "chat1", "one");
    let b = InboundMessage::new("telegram", "user1", "chat1", "two");
    let other = InboundMessage::new("telegram", "user2", "chat2", "elsewhere");
    for m in [&a, &other, &b] {
        agent.try_queue_or_process(m, true);
    }
    let back: Vec<String> = agent
        .drain_pending_messages(&a)
        .into_iter()
        .map(|m| m.content)
        .collect();
    assert_eq!(back, vec!["one", "two"]);
    assert_eq!(agent.drain_pending_messages(&other).len(), 1);
}

#[test]
fn test_agent_loop_start_stop() {
    let mut agent = AgentLoop::new(config());
    assert!(!agent.is_running());
    assert!(agent.start().is_ok());
    assert!(agent.is_running());
    agent.stop();
    let dummy = InboundMessage::new("test", "user", "chat", "dummy");
    agent.accept_inbound(&dummy, false, false);
    assert!(agent.after_event(LoopEvent::Served));
    assert!(!agent.is_running());
}

#[test]
fn test_agent_loop_graceful_shutdown() {
    let mut agent = AgentLoop::new(config());
    assert!(agent.start().is_ok());
    assert!(agent.is_running());
    agent.stop();
    assert!(agent.after_event(LoopEvent::StopSignal));
    assert!(!agent.is_running());
}

#[test]
fn runs_end_by_a_stop_or_a_closed_channel() {
    let mut agent = AgentLoop::new(config());
    assert!(agent.start().is_ok());
    for _ in 0..3 {
        assert!(!agent.after_event(LoopEvent::Served));
        assert!(agent.start().is_err());
        assert!(agent.is_running());
    }
    assert!(agent.after_event(LoopEvent::Closed));
    assert!(!agent.is_running());
    assert!(agent.start().is_ok());
    assert!(agent.after_event(LoopEvent::StopSignal));
    assert!(!agent.is_running());
}

#[test]
fn test_agent_loop_double_start() {
    let mut agent = AgentLoop::new(config());
    assert!(agent.start().is_ok());
    let result = agent.start();
    assert!(result.is_err());
    assert!(result.unwrap_err().to_string().contains("already running"));
    assert!(agent.is_running());
    agent.stop();
}

#[test]
fn test_agent_loop_can_restart_after_stop() {
    let mut agent = AgentLoop::new(config());
    assert!(agent.start().is_ok());
    agent.stop();
    assert!(!agent.is_running());
    assert!(agent.start().is_ok());
    assert!(agent.is_running());
    agent.stop();
    assert!(!agent.is_running());
}

#[test]
fn test_context_builder_standalone() {
    let builder = ContextBuilder::new();
    let system = builder.build_system_message();
    assert!(system.content.contains("ZeptoClaw"));
}

#[test]
fn test_build_messages_standalone() {
    let builder = ContextBuilder::new();
    let messages = builder.build_messages(&[], "Hello");
    assert_eq!(messages.len(), 2);
    assert!(messages[1].content == "Hello");
}

#[test]
fn test_agent_loop_streaming_flag_default() {
    let agent = AgentLoop::new(config());
    assert!(agent.is_streaming());
}

#[test]
fn test_agent_loop_set_streaming() {
    let mut agent = AgentLoop::new(config());
    agent.set_streaming(false);
    assert!(!agent.is_streaming());
}

#[test]
fn test_agent_loop_streaming_respects_config() {
    let mut config = config();
    config.streaming = true;
    let agent = AgentLoop::new(config);
    assert!(agent.is_streaming());
}

#[test]
fn streaming_can_be_configured_off() {
    let mut config = config();
    config.streaming = false;
    assert!(!AgentLoop::new(config).is_streaming());
}

#[test]
fn test_should_stream_requires_metadata_and_runtime_flag() {
    let mut config = config();
    config.streaming = true;
    let mut agent = AgentLoop::new(config);

    let plain = InboundMessage::new("acp_http", "u1", "c1", "hi");
    assert!(!agent.should_stream(&plain));

    let capable = InboundMessage::new("acp_http", "u1", "c1", "hi")
        .with_metadata(STREAMING_CAPABLE_METADATA_KEY, "true");
    assert!(agent.should_stream(&capable));

    agent.set_streaming(false);
    assert!(!agent.should_stream(&capable));

    agent.set_streaming(true);
    let mistyped = InboundMessage::new("acp_http", "u1", "c1", "hi")
        .with_metadata(STREAMING_CAPABLE_METADATA_KEY, "yes");
    assert!(!agent.should_stream(&mistyped));
}

#[test]
fn test_tool_feedback_debug() {
    let fb = ToolFeedback {
        tool_name: "shell".to_string(),
        phase: ToolFeedbackPhase::Starting,
        args_json: None,
    };
    let debug_str = format!("{:?}", fb);
    assert!(debug_str.contains("shell"));
    assert!(debug_str.contains("Starting"));
}

#[test]
fn test_tool_feedback_phases() {
    let starting = ToolFeedbackPhase::Starting;
    let done = ToolFeedbackPhase::Done { elapsed_ms: 1200 };
    let failed = ToolFeedbackPhase::Failed {
        elapsed_ms: 500,
        error: "timeout".to_string(),
    };
    assert!(format!("{:?}", starting).contains("Starting"));
    assert!(format!("{:?}", done).contains("1200"));
    assert!(format!("{:?}", failed).contains("timeout"));
}

#[test]
fn test_memory_flush_prompt_is_valid() {
    assert!(MEMORY_FLUSH_PROMPT.contains("long-term memory"));
    assert!(MEMORY_FLUSH_PROMPT.contains("longterm_memory"));
    assert!(MEMORY_FLUSH_PROMPT.contains("duplicates"));
}

#[test]
fn test_memory_flush_timeout_is_reasonable() {
    const { assert!(MEMORY_FLUSH_TIMEOUT_SECS > 0) };
    const { assert!(MEMORY_FLUSH_TIMEOUT_SECS <= 30) };
}

#[test]
fn test_memory_flush_no_provider() {
    let agent = AgentLoop::new(config());
    let messages = vec![Message::user("hello"), Message::assistant("hi")];
    assert!(agent.memory_flush(&messages).is_none());
}

#[test]
fn memory_flush_needs_the_tool_and_asks_for_it() {
    let mut agent = AgentLoop::new(config());
    agent.set_provider(DEFAULT_PROVIDER);
    let messages = vec![Message::user("hello"), Message::assistant("hi")];
    assert!(agent.memory_flush(&messages).is_none());
    agent.register_tool(tool("longterm_memory", ToolCategory::Memory));
    let request = agent.memory_flush(&messages).unwrap();
    assert_eq!(request.messages.len(), 4);
    assert_eq!(request.messages[0].role, Role::System);
    assert_eq!(
        request.messages[0].content,
        "You are a memory management assistant."
    );
    assert_eq!(request.messages[1].content, "hello");
    assert_eq!(request.messages[3].role, Role::User);
    assert_eq!(request.messages[3].content, MEMORY_FLUSH_PROMPT);
    assert_eq!(request.tools, vec!["longterm_memory"]);
    assert_eq!(request.model.as_deref(), Some("default-model"));
    assert_eq!(request.options.max_tokens, Some(1024));
}

#[test]
fn memory_flush_skips_arguments_that_cannot_be_read() {
    let calls = vec![
        LLMToolCall::new("1", "longterm_memory", r#"{"action":"set"}"#),
        LLMToolCall::new("2", "longterm_memory", "{bad"),
        LLMToolCall::new("3", "longterm_memory", "7"),
    ];
    let made = memory_flush_calls(&calls);
    assert_eq!(made.len(), 2);
    assert!(matches!(made[0].1, Json::Object(_)));
    assert!(matches!(made[1].1, Json::Unsigned(7)));
}

#[test]
fn test_dry_run_default_false() {
    let agent = AgentLoop::new(config());
    assert!(!agent.is_dry_run());
}

#[test]
fn test_set_dry_run() {
    let mut agent = AgentLoop::new(config());
    assert!(!agent.is_dry_run());
    agent.set_dry_run(true);
    assert!(agent.is_dry_run());
    agent.set_dry_run(false);
    assert!(!agent.is_dry_run());
}

#[test]
fn a_dry_run_tells_what_would_happen() {
    assert_eq!(
        dry_run_result("shell", "{\n  \"command\": \"ls\"\n}"),
        "[DRY RUN] Would execute tool 'shell' with arguments: {\n  \"command\": \"ls\"\n}"
    );
}

#[test]
fn retries_cut_harder() {
    assert_eq!(overflow_retry_urgency(0), CompactionUrgency::Normal);
    assert_eq!(overflow_retry_urgency(1), CompactionUrgency::Emergency);
    assert_eq!(overflow_retry_urgency(2), CompactionUrgency::Critical);
    assert_eq!(overflow_retry_urgency(9), CompactionUrgency::Critical);
}

#[test]
fn token_counts_never_go_below_zero() {
    assert_eq!(token_delta(Some((10, 5)), Some((25, 6))), (15, 1));
    assert_eq!(token_delta(Some((10, 5)), Some((4, 9))), (0, 4));
    assert_eq!(token_delta(None, Some((4, 9))), (0, 0));
    assert_eq!(token_delta(Some((4, 9)), None), (0, 0));
}

#[test]
fn tenants_come_before_chats() {
    let msg = InboundMessage::new("telegram", "u", "chat1", "x");
    assert_eq!(tenant_id(&msg), "chat1");
    let msg = msg.with_metadata("tenant_id", "");
    assert_eq!(tenant_id(&msg), "chat1");
    let msg = msg.with_metadata("tenant_id", "acme");
    assert_eq!(tenant_id(&msg), "acme");
}

#[test]
fn unpaired_devices_are_turned_away() {
    let mut config = config();
    config.pairing = true;
    let mut agent = AgentLoop::new(config);
    let msg = InboundMessage::new("telegram", "u", "chat1", "x")
        .with_metadata("telegram_thread_id", "7");
    match agent.accept_inbound(&msg, true, true) {
        InboundStep::Reject(reply) => {
            assert_eq!(
                reply.content,
                "Access denied: device not paired. Use `zeptoclaw pair new` to generate a pairing code."
            );
            assert_eq!(
                reply.metadata.get("telegram_thread_id").map(String::as_str),
                Some("7")
            );
        }
        other => panic!("expected a rejection, got {other:?}"),
    }
    assert!(agent.drain_pending_messages(&msg).is_empty());
    let paired = msg.with_metadata("auth_token", "t");
    assert!(matches!(
        agent.accept_inbound(&paired, false, false),
        InboundStep::Reject(_)
    ));
    assert!(matches!(
        agent.accept_inbound(&paired, true, false),
        InboundStep::Process
    ));
    assert!(matches!(
        agent.accept_inbound(&paired, true, true),
        InboundStep::Queued
    ));
    assert_eq!(agent.drain_pending_messages(&paired).len(), 1);
}

fn session(summary: Option<&str>) -> Session {
    Session {
        key: "cli:s".to_string(),
        messages: vec![
            Message::user("first user"),
            Message::assistant("ok"),
            Message::user("second user"),
            Message::assistant("ok"),
            Message::user("third user"),
        ],
        summary: summary.map(|s| s.to_string()),
    }
}

#[test]
fn a_summary_stands_for_what_it_covers() {
    let mut config = config();
    config.anchored_summary = true;
    let mut agent = AgentLoop::new(config);
    let mut summarized = session(None);
    agent.note_summary(&mut summarized, 2, Some("rolled summary".to_string()));
    let msg = InboundMessage::new("cli", "user", "s", "third user");
    let prompt = agent.build_prompt(&msg, &summarized, None);
    assert!(prompt
        .iter()
        .any(|m| m.content == "[Conversation Summary]\nrolled summary"));
    assert!(prompt.iter().any(|m| m.content.contains("second user")));
    assert!(prompt.iter().any(|m| m.content.contains("third user")));
    assert!(prompt.iter().all(|m| !m.content.contains("first user")));
    assert_eq!(prompt.len(), 5);
}

#[test]
fn without_summaries_the_whole_session_is_sent() {
    let mut agent = AgentLoop::new(config());
    let mut summarized = session(None);
    agent.note_summary(&mut summarized, 2, Some("rolled summary".to_string()));
    let msg = InboundMessage::new("cli", "user", "s", "third user");
    let prompt = agent.build_prompt(&msg, &summarized, None);
    assert_eq!(prompt.len(), 6);
    assert!(prompt
        .iter()
        .all(|m| !m.content.contains("[Conversation Summary]")));
}

/// A model call: whether it asks for a summary, and its messages, model and limit.
struct Call {
    is_summary: bool,
    messages: Vec<Message>,
    model: Option<String>,
    max_tokens: Option<u32>,
}

/// Plays turns in which the model answers "ok", with summaries where they are due.
fn play(agent: &mut AgentLoop, session: &mut Session, turns: &[&str], fail: bool) -> Vec<Call> {
    let mut calls = Vec::new();
    for content in turns {
        let msg = InboundMessage::new("cli", "user", &session.key, content);
        session.messages.push(Message::user(content));
        if let Some((request, taken)) = agent.due_summary_request(session) {
            assert_eq!(agent.summary_due(session), Some(taken));
            assert!(request.tools.is_empty());
            let asks = "Summarize the following conversation";
            calls.push(Call {
                is_summary: request.messages[0].content.contains(asks),
                messages: request.messages,
                model: request.model,
                max_tokens: request.options.max_tokens,
            });
            let answer = if fail { None } else { Some("rolled summary".to_string()) };
            agent.note_summary(session, taken, answer);
        }
        calls.push(Call {
            is_summary: false,
            messages: agent.build_prompt(&msg, session, None),
            model: None,
            max_tokens: None,
        });
        session.messages.push(Message::assistant("ok"));
    }
    calls
}

fn empty_session(key: &str) -> Session {
    Session {
        key: key.to_string(),
        messages: Vec::new(),
        summary: None,
    }
}

#[test]
fn test_anchored_summary_disabled_does_not_call_summary_provider() {
    let mut config = config();
    config.anchored_summary = false;
    config.anchor_step = 2;
    let mut agent = AgentLoop::new(config);
    let mut session = empty_session("cli:anchored-disabled");
    let calls = play(&mut agent, &mut session, &["one", "two", "three"], false);
    assert_eq!(calls.len(), 3);
    assert!(calls.iter().all(|call| !call.is_summary));
    assert!(calls
        .last()
        .unwrap()
        .messages
        .iter()
        .all(|m| !m.content.contains("[Conversation Summary]")));
    assert!(session.summary.is_none());
}

#[test]
fn test_anchored_summary_enabled_rolls_and_trims_prompt_prefix() {
    let mut config = config();
    config.anchored_summary = true;
    config.anchor_step = 2;
    config.summary_tokens = 77;
    config.summary_model = Some("summary-model".into());
    let mut agent = AgentLoop::new(config);
    let mut session = empty_session("cli:anchored-enabled");
    let turns = ["first user", "second user", "third user"];
    let calls = play(&mut agent, &mut session, &turns, false);
    let summary_calls: Vec<_> = calls.iter().filter(|call| call.is_summary).collect();
    assert_eq!(summary_calls.len(), 1);
    assert_eq!(summary_calls[0].model.as_deref(), Some("summary-model"));
    assert_eq!(summary_calls[0].max_tokens, Some(77));
    assert!(summary_calls[0].messages[0].content.contains("first user"));
    assert!(!summary_calls[0].messages[0].content.contains("third user"));
    let last_main = calls
        .iter()
        .rev()
        .find(|call| !call.is_summary)
        .expect("main call recorded");
    let sent = |s: &str| last_main.messages.iter().any(|m| m.content.contains(s));
    assert!(last_main
        .messages
        .iter()
        .any(|m| m.content == "[Conversation Summary]\nrolled summary"));
    assert!(sent("second user"));
    assert!(sent("third user"));
    assert!(!sent("first user"));
    assert_eq!(session.summary.as_deref(), Some("rolled summary"));
}

#[test]
fn test_anchored_summary_provider_failure_keeps_full_history() {
    let mut config = config();
    config.anchored_summary = true;
    config.anchor_step = 2;
    let mut agent = AgentLoop::new(config);
    let mut session = empty_session("cli:anchored-failure");
    let turns = ["first user", "second user", "third user"];
    let calls = play(&mut agent, &mut session, &turns, true);
    assert_eq!(calls.iter().filter(|call| call.is_summary).count(), 1);
    let last_main = calls
        .iter()
        .rev()
        .find(|call| !call.is_summary)
        .expect("main call recorded");
    let sent = |s: &str| last_main.messages.iter().any(|m| m.content.contains(s));
    assert!(!sent("[Conversation Summary]"));
    assert!(sent("first user"));
    assert!(session.summary.is_none());
}

#[test]
fn summaries_roll_on_as_a_conversation_grows() {
    for fail in [false, true] {
        let mut config = config();
        config.anchored_summary = true;
        config.anchor_step = 4;
        let mut agent = AgentLoop::new(config);
        let mut session = empty_session("cli:long");
        let calls = play(&mut agent, &mut session, &["u"; 10], fail);
        assert_eq!(calls.iter().filter(|call| call.is_summary).count(), 3);
        assert_eq!(session.messages.len(), 20);
        let expected = if fail { 20 } else { 9 };
        assert_eq!(calls.last().unwrap().messages.len(), expected);
    }
}

#[test]
fn a_summary_request_holds_the_conversation() {
    let messages = [Message::user("a?"), Message::assistant("b")];
    let request = summary_request(&messages, None, 9);
    assert_eq!(request.messages.len(), 1);
    assert!(request.messages[0].content.ends_with(":\n\nuser: a?\nassistant: b"));
    assert_eq!(request.model, None);
    assert_eq!(request.options.max_tokens, Some(9));
}

#[test]
fn only_ui_channels_are_told_of_surfaces() {
    let agent = AgentLoop::new(config());
    let on = InboundMessage::new("acp_http", "user", "s", "x");
    let off = InboundMessage::new("discord", "user", "s", "x");
    assert!(agent.build_prompt(&on, &session(None), None)[0]
        .content
        .contains("```a2ui"));
    assert!(!agent.build_prompt(&off, &session(None), None)[0]
        .content
        .contains("```a2ui"));
}

#[test]
fn empty_user_messages_are_dropped() {
    let kept = drop_empty_user_messages(vec![
        Message::system(""),
        Message::user(""),
        Message::user("hi"),
        Message::assistant(""),
    ]);
    let roles: Vec<Role> = kept.iter().map(|m| m.role).collect();
    assert_eq!(roles, vec![Role::System, Role::User, Role::Assistant]);
    assert_eq!(kept[1].content, "hi");
}
