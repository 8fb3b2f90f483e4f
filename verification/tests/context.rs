//! The prompts of model calls.
use zeptoclaw::context::{
    format_message_envelope, ContextBuilder, PromptCapabilities, RuntimeContext,
    A2UI_RENDERING_PROMPT_SUFFIX, DEFAULT_SYSTEM_PROMPT, FIRST_RUN_PERSONA_PROMPT,
};
use zeptoclaw::session::{Message, Role, ToolCall};

#[test]
fn test_context_builder_new() {
    let builder = ContextBuilder::new();
    assert!(builder.system_prompt().contains("ZeptoClaw"));
    assert!(!builder.has_skills());
}

#[test]
fn test_context_builder_default() {
    let builder = ContextBuilder::default();
    assert!(builder.system_prompt().contains("ZeptoClaw"));
}

#[test]
fn test_context_builder_custom_system_prompt() {
    let builder = ContextBuilder::new().with_system_prompt("Custom prompt here");
    assert_eq!(builder.system_prompt(), "Custom prompt here");
}

#[test]
fn test_context_builder_with_skills() {
    let builder = ContextBuilder::new().with_skills("- /test: Test skill");
    assert!(builder.has_skills());

    let system = builder.build_system_message();
    assert!(system.content.contains("Available Skills"));
    assert!(system.content.contains("/test"));
}

#[test]
fn test_build_system_message() {
    let builder = ContextBuilder::new();
    let system = builder.build_system_message();

    assert_eq!(system.role, Role::System);
    assert!(system.content.contains("ZeptoClaw"));
}

#[test]
fn test_build_messages_empty_input() {
    let builder = ContextBuilder::new();
    let messages = builder.build_messages(&[], "");

    assert_eq!(messages.len(), 1);
    assert_eq!(messages[0].role, Role::System);
}

#[test]
fn test_build_messages_with_input() {
    let builder = ContextBuilder::new();
    let messages = builder.build_messages(&[], "Hello");

    assert_eq!(messages.len(), 2);
    assert_eq!(messages[0].role, Role::System);
    assert_eq!(messages[1].role, Role::User);
    assert_eq!(messages[1].content, "Hello");
}

#[test]
fn test_build_messages_with_history() {
    let builder = ContextBuilder::new();
    let history = vec![
        Message::user("Previous message"),
        Message::assistant("Previous response"),
    ];
    let messages = builder.build_messages(&history, "New message");

    assert_eq!(messages.len(), 4);
    assert_eq!(messages[0].role, Role::System);
    assert_eq!(messages[1].role, Role::User);
    assert_eq!(messages[1].content, "Previous message");
    assert_eq!(messages[2].role, Role::Assistant);
    assert_eq!(messages[3].role, Role::User);
    assert_eq!(messages[3].content, "New message");
}

#[test]
fn test_build_messages_preserves_history_order() {
    let builder = ContextBuilder::new();
    let history = vec![
        Message::user("First"),
        Message::assistant("Second"),
        Message::user("Third"),
        Message::assistant("Fourth"),
    ];
    let messages = builder.build_messages(&history, "");

    assert_eq!(messages.len(), 5);
    assert_eq!(messages[1].content, "First");
    assert_eq!(messages[2].content, "Second");
    assert_eq!(messages[3].content, "Third");
    assert_eq!(messages[4].content, "Fourth");
}

#[test]
fn test_context_builder_with_soul() {
    let builder = ContextBuilder::new().with_soul("You are a pirate captain.");
    assert!(builder.has_soul());

    let system = builder.build_system_message();
    assert!(system.content.starts_with("You are a pirate captain."));
    assert!(system.content.contains("ZeptoClaw"));
}

#[test]
fn test_soul_prepended_before_system_prompt() {
    let builder = ContextBuilder::new()
        .with_soul("SOUL: Be kind.")
        .with_system_prompt("SYSTEM: Do tasks.");
    let system = builder.build_system_message();

    let soul_pos = system.content.find("SOUL: Be kind.").unwrap();
    let system_pos = system.content.find("SYSTEM: Do tasks.").unwrap();
    assert!(soul_pos < system_pos);
}

#[test]
fn test_soul_with_skills() {
    let builder = ContextBuilder::new()
        .with_soul("Identity: helper")
        .with_skills("- /test: Test");
    let system = builder.build_system_message();

    assert!(system.content.starts_with("Identity: helper"));
    assert!(system.content.contains("ZeptoClaw"));
    assert!(system.content.contains("Available Skills"));
    assert!(system.content.contains("/test"));
}

#[test]
fn test_no_soul_by_default() {
    let builder = ContextBuilder::new();
    assert!(!builder.has_soul());

    let system = builder.build_system_message();
    assert!(system.content.starts_with("You are ZeptoClaw"));
}

#[test]
fn test_context_builder_chaining() {
    let builder = ContextBuilder::new()
        .with_system_prompt("Custom prompt")
        .with_skills("- /skill1: Do something");

    let system = builder.build_system_message();
    assert!(system.content.contains("Custom prompt"));
    assert!(system.content.contains("/skill1"));
}

#[test]
fn test_build_messages_with_tool_calls_in_history() {
    let builder = ContextBuilder::new();
    let history = vec![
        Message::user("Search for rust"),
        Message::assistant_with_tools(
            "Let me search for that.",
            vec![ToolCall::new("call_1", "search", r#"{"q": "rust"}"#)],
        ),
        Message::tool_result("call_1", "Found 100 results"),
        Message::assistant("I found 100 results about Rust."),
    ];
    let messages = builder.build_messages(&history, "Thanks!");

    assert_eq!(messages.len(), 6);
    assert!(messages[2].has_tool_calls());
    assert!(messages[3].is_tool_result());
}

#[test]
fn test_runtime_context_empty() {
    let ctx = RuntimeContext::new();
    assert!(ctx.is_empty());
    assert!(ctx.render().is_none());
}

#[test]
fn test_runtime_context_default() {
    let ctx = RuntimeContext::default();
    assert!(ctx.is_empty());
    assert!(ctx.channel.is_none());
    assert!(ctx.available_tools.is_empty());
    assert!(ctx.timezone.is_none());
    assert!(ctx.workspace.is_none());
    assert!(ctx.os_info.is_none());
}

#[test]
fn test_runtime_context_with_channel() {
    let ctx = RuntimeContext::new().with_channel("telegram");
    assert!(!ctx.is_empty());
    let rendered = ctx.render().unwrap();
    assert!(rendered.contains("Channel: telegram"));
}

#[test]
fn test_runtime_context_with_tools() {
    let ctx =
        RuntimeContext::new().with_tools(vec!["shell".to_string(), "web_search".to_string()]);
    assert!(!ctx.is_empty());
    let rendered = ctx.render().unwrap();
    assert!(rendered.contains("shell, web_search"));
}

#[test]
fn test_runtime_context_with_empty_tools() {
    let ctx = RuntimeContext::new().with_tools(vec![]);
    assert!(ctx.is_empty());
    assert!(ctx.render().is_none());
}

#[test]
fn test_runtime_context_with_timezone() {
    let ctx = RuntimeContext::new().with_timezone("Asia/Kuala_Lumpur");
    assert!(!ctx.is_empty());
    let rendered = ctx.render().unwrap();
    assert!(
        rendered.contains("Today is:"),
        "should emit day-granular label: {}",
        rendered
    );
    assert!(
        !rendered.contains("Current time:"),
        "must NOT emit minute-level Current time line (cache-killer): {}",
        rendered
    );
    assert!(
        !rendered.contains("Timezone:"),
        "must NOT emit Timezone offset line (cache-killer): {}",
        rendered
    );
}

#[test]
fn test_runtime_context_with_utc_label() {
    let ctx = RuntimeContext::new().with_timezone("UTC");
    let rendered = ctx.render().unwrap();
    assert!(rendered.contains("Today is:"));
    assert!(!rendered.contains("Current time:"));
    assert!(!rendered.contains("Timezone:"));
}

#[test]
fn test_runtime_context_time_format() {
    let ctx = RuntimeContext::new().with_timezone("UTC");
    let rendered = ctx.render().unwrap();
    let today_line = rendered
        .lines()
        .find(|l| l.contains("Today is:"))
        .expect("render should emit a Today is: line when timezone is set");
    assert!(
        today_line.contains("202"),
        "today line should contain year: {}",
        today_line
    );
}

#[test]
fn test_runtime_context_today_label_present() {
    let ctx = RuntimeContext::new().with_timezone("local");
    let rendered = ctx.render().unwrap();
    assert!(
        rendered.contains("Today is:"),
        "should emit Today is: label: {}",
        rendered
    );
    assert!(
        !rendered.contains("Current time:"),
        "must NOT emit Current time: (cache-killer): {}",
        rendered
    );
    assert!(
        !rendered.contains("Timezone:"),
        "must NOT emit Timezone: (cache-killer): {}",
        rendered
    );
}

#[test]
fn test_runtime_context_cache_friendly_render() {
    let ctx = RuntimeContext::new()
        .with_channel("cli")
        .with_timezone("Asia/Kuala_Lumpur")
        .with_workspace("/tmp/ws")
        .with_os_info("linux", "x86_64");
    let rendered = ctx.render().unwrap();

    let has_minute_marker = rendered.as_bytes().windows(5).any(|w| {
        w.len() == 5
            && w[0].is_ascii_digit()
            && w[1].is_ascii_digit()
            && w[2] == b':'
            && w[3].is_ascii_digit()
            && w[4].is_ascii_digit()
    });
    assert!(
        !has_minute_marker,
        "render() must not contain HH:MM minute markers: {}",
        rendered
    );

    let has_offset_pattern = rendered.as_bytes().windows(6).any(|w| {
        (w[0] == b'+' || w[0] == b'-')
            && w[1].is_ascii_digit()
            && w[2].is_ascii_digit()
            && w[3] == b':'
            && w[4].is_ascii_digit()
            && w[5].is_ascii_digit()
    });
    assert!(
        !has_offset_pattern,
        "render() must not contain timezone offset like +HH:MM: {}",
        rendered
    );

    assert!(
        rendered.contains("Today is:"),
        "render() should still emit Today is: label: {}",
        rendered
    );
}

#[test]
fn test_runtime_context_with_os_info() {
    let ctx = RuntimeContext::new().with_os_info("linux", "x86_64");
    assert!(!ctx.is_empty());
    let rendered = ctx.render().unwrap();
    assert!(rendered.contains("Platform:"));
    assert!(rendered.contains("linux"));
}

#[test]
fn test_runtime_context_with_workspace() {
    let ctx = RuntimeContext::new().with_workspace("/home/user/project");
    assert!(!ctx.is_empty());
    let rendered = ctx.render().unwrap();
    assert!(rendered.contains("Workspace: /home/user/project"));
    assert!(rendered.contains("Workspace path rules:"));
    assert!(rendered.contains("Prefer relative paths"));
}

#[test]
fn test_runtime_context_full() {
    let ctx = RuntimeContext::new()
        .with_channel("whatsapp")
        .with_tools(vec!["shell".to_string()])
        .with_workspace("/tmp/test")
        .with_os_info("linux", "x86_64");
    let rendered = ctx.render().unwrap();
    assert!(rendered.contains("## Runtime Context"));
    assert!(rendered.contains("Channel: whatsapp"));
    assert!(rendered.contains("Available tools: shell"));
    assert!(rendered.contains("Workspace: /tmp/test"));
    assert!(rendered.contains("Platform:"));
}

#[test]
fn test_runtime_context_render_ordering() {
    let ctx = RuntimeContext::new()
        .with_channel("cli")
        .with_tools(vec!["echo".to_string()])
        .with_workspace("/work");
    let rendered = ctx.render().unwrap();
    let channel_pos = rendered.find("Channel:").unwrap();
    let tools_pos = rendered.find("Available tools:").unwrap();
    let workspace_pos = rendered.find("Workspace:").unwrap();
    assert!(channel_pos < tools_pos);
    assert!(tools_pos < workspace_pos);
}

#[test]
fn test_runtime_context_clone() {
    let ctx = RuntimeContext::new()
        .with_channel("discord")
        .with_workspace("/tmp");
    let cloned = ctx.clone();
    assert_eq!(ctx.channel, cloned.channel);
    assert_eq!(ctx.workspace, cloned.workspace);
}

#[test]
fn p3_render_stable_excludes_today_line() {
    let ctx = RuntimeContext::new()
        .with_channel("cli")
        .with_tools(vec!["echo".to_string()])
        .with_workspace("/work")
        .with_timezone("UTC");
    let stable = ctx
        .render_stable()
        .expect("stable section should render with channel/tools/workspace");
    assert!(stable.starts_with("## Runtime Context"));
    assert!(stable.contains("Channel: cli"));
    assert!(stable.contains("Available tools: echo"));
    assert!(stable.contains("Workspace: /work"));
    assert!(
        !stable.contains("Today is:"),
        "stable section must NOT contain Today (cache-killer if reused across days): {}",
        stable
    );
}

#[test]
fn p3_render_stable_none_when_only_timezone() {
    let ctx = RuntimeContext::new().with_timezone("UTC");
    assert!(ctx.render_stable().is_none());
}

#[test]
fn p3_render_volatile_only_emits_today_line() {
    let ctx = RuntimeContext::new()
        .with_channel("cli")
        .with_workspace("/work")
        .with_timezone("UTC");
    let volatile = ctx
        .render_volatile()
        .expect("volatile should render when timezone is set");
    assert!(volatile.starts_with("## Session Now"));
    assert!(volatile.contains("Today is:"));
    assert!(
        !volatile.contains("Channel:"),
        "volatile must NOT contain Channel (channel lives in L2 stable): {}",
        volatile
    );
    assert!(
        !volatile.contains("Workspace:"),
        "volatile must NOT contain Workspace (workspace is L2 stable): {}",
        volatile
    );
}

#[test]
fn p3_render_volatile_none_without_timezone() {
    let ctx = RuntimeContext::new()
        .with_channel("cli")
        .with_workspace("/work");
    assert!(ctx.render_volatile().is_none());
}

#[test]
fn p3_layered_join_order_l1_l2_l3_l4() {
    let ctx = RuntimeContext::new()
        .with_channel("cli")
        .with_workspace("/work")
        .with_timezone("UTC");
    let builder = ContextBuilder::new()
        .with_soul("SOUL_ANCHOR")
        .with_skills("- /help: show help")
        .with_runtime_context(ctx)
        .with_memory_context("## Memory\n\n### Pinned\n- mem:anchor".to_string());
    let layered = builder.build_system_layered(PromptCapabilities::default(), None);

    assert!(layered.l1_base.contains("SOUL_ANCHOR"));
    assert!(layered.l1_base.contains("ZeptoClaw"));
    let l2 = layered.l2_semi_static.as_ref().expect("L2 should exist");
    assert!(l2.contains("## Available Skills"));
    assert!(l2.contains("## Runtime Context"));
    assert!(l2.contains("Channel: cli"));
    assert!(l2.contains("Workspace: /work"));
    assert!(!l2.contains("Today is:"));
    let l3 = layered.l3_memory.as_ref().expect("L3 should exist");
    assert!(l3.contains("mem:anchor"));
    let l4 = layered.l4_volatile.as_ref().expect("L4 should exist");
    assert!(l4.contains("Today is:"));

    let joined = layered.join();
    let soul_pos = joined.find("SOUL_ANCHOR").unwrap();
    let skills_pos = joined.find("## Available Skills").unwrap();
    let runtime_pos = joined.find("## Runtime Context").unwrap();
    let memory_pos = joined.find("## Memory").unwrap();
    let today_pos = joined.find("Today is:").unwrap();
    assert!(soul_pos < skills_pos, "SOUL before Skills");
    assert!(skills_pos < runtime_pos, "Skills before Runtime Context");
    assert!(runtime_pos < memory_pos, "Runtime Context before Memory");
    assert!(memory_pos < today_pos, "Memory before Today is:");
}

#[test]
fn p3_built_system_message_places_today_after_memory() {
    let ctx = RuntimeContext::new()
        .with_channel("discord")
        .with_timezone("Asia/Kuala_Lumpur");
    let builder = ContextBuilder::new()
        .with_runtime_context(ctx)
        .with_memory_context("## Memory\n\n### Pinned\n- k: v".to_string());
    let system = builder.build_system_message();
    let memory_pos = system.content.find("## Memory").unwrap();
    let today_pos = system.content.find("Today is:").unwrap();
    assert!(
        memory_pos < today_pos,
        "Today is: must come AFTER memory section. \
         memory_pos={} today_pos={} content=\n{}",
        memory_pos,
        today_pos,
        system.content
    );
}

#[test]
fn p3_built_system_message_no_today_in_stable_runtime_block() {
    let ctx = RuntimeContext::new()
        .with_channel("cli")
        .with_workspace("/work")
        .with_timezone("UTC");
    let builder = ContextBuilder::new().with_runtime_context(ctx);
    let system = builder.build_system_message();
    let rc_start = system.content.find("## Runtime Context").unwrap();
    let tail = &system.content[rc_start..];
    let rc_end = tail[1..]
        .find("\n## ")
        .map(|p| rc_start + 1 + p)
        .unwrap_or(system.content.len());
    let runtime_block = &system.content[rc_start..rc_end];
    assert!(
        !runtime_block.contains("Today is:"),
        "stable L2 Runtime Context block must NOT contain Today is:. \
         block=\n{}",
        runtime_block
    );
}

#[test]
fn p3_layered_optional_layers_collapse_cleanly() {
    let builder = ContextBuilder::new();
    let layered = builder.build_system_layered(PromptCapabilities::default(), None);
    assert!(layered.l1_base.contains("ZeptoClaw"));
    assert!(layered.l2_semi_static.is_none());
    assert!(layered.l3_memory.is_none());
    assert!(layered.l4_volatile.is_none());
    let joined = layered.join();
    assert_eq!(joined.trim_end(), joined);
}

#[test]
fn p3_layered_memory_override_empty_suppresses_l3() {
    let builder = ContextBuilder::new()
        .with_memory_context("## Memory\n\n- stored".to_string());
    let layered = builder.build_system_layered(PromptCapabilities::default(), Some(""));
    assert!(
        layered.l3_memory.is_none(),
        "Some(\"\") override must collapse L3 to None"
    );
}

#[test]
fn p3_layered_a2ui_lives_in_l1() {
    let builder = ContextBuilder::new();
    let layered = builder.build_system_layered(PromptCapabilities::with_a2ui(), None);
    assert!(
        layered.l1_base.contains("A2UI"),
        "L1 should carry A2UI suffix when channel is A2UI-capable"
    );
}

#[test]
fn test_message_envelope_format() {
    let envelope = format_message_envelope();
    assert!(envelope.starts_with('['));
    assert!(envelope.ends_with(']'));
    assert!(envelope.contains("202"), "should contain year");
    assert!(
        envelope.contains('+') || envelope.contains('-'),
        "should contain UTC offset sign"
    );
}

#[test]
fn test_message_envelope_contains_time_components() {
    let envelope = format_message_envelope();
    assert!(envelope.contains(':'), "should contain time separator");
    assert!(envelope.len() > 10, "envelope should not be empty");
}

#[test]
fn test_build_messages_with_timezone_envelope() {
    let ctx = RuntimeContext::new().with_timezone("UTC");
    let builder = ContextBuilder::new().with_runtime_context(ctx);
    let messages = builder.build_messages(&[], "Hello");
    assert_eq!(messages.len(), 2);
    assert!(messages[1].content.starts_with('['));
    assert!(messages[1].content.contains("] Hello"));
}

#[test]
fn test_build_messages_without_timezone_no_envelope() {
    let ctx = RuntimeContext::new().with_channel("cli");
    let builder = ContextBuilder::new().with_runtime_context(ctx);
    let messages = builder.build_messages(&[], "Hello");
    assert_eq!(messages[1].content, "Hello");
}

#[test]
fn test_context_builder_with_runtime_context() {
    let ctx = RuntimeContext::new().with_channel("discord");
    let builder = ContextBuilder::new().with_runtime_context(ctx);
    let system = builder.build_system_message();
    assert!(system.content.contains("Runtime Context"));
    assert!(system.content.contains("discord"));
}

#[test]
fn test_context_builder_empty_runtime_context_adds_nothing() {
    let ctx = RuntimeContext::new();
    let builder = ContextBuilder::new().with_runtime_context(ctx);
    let system = builder.build_system_message();
    assert!(!system.content.contains("Runtime Context"));
}

#[test]
fn test_context_builder_all_sections() {
    let ctx = RuntimeContext::new().with_channel("cli");
    let builder = ContextBuilder::new()
        .with_skills("- /help: Show help")
        .with_runtime_context(ctx);
    let system = builder.build_system_message();
    assert!(system.content.contains("ZeptoClaw"));
    assert!(system.content.contains("Available Skills"));
    assert!(system.content.contains("## Runtime Context"));
    assert!(system.content.contains("cli"));
}

#[test]
fn test_context_builder_section_ordering() {
    let ctx = RuntimeContext::new().with_channel("slack");
    let builder = ContextBuilder::new()
        .with_skills("- /deploy: Deploy app")
        .with_runtime_context(ctx);
    let system = builder.build_system_message();
    let skills_pos = system.content.find("Available Skills").unwrap();
    let runtime_pos = system.content.find("Runtime Context").unwrap();
    assert!(skills_pos < runtime_pos);
}

#[test]
fn test_context_builder_runtime_context_in_messages() {
    let ctx = RuntimeContext::new()
        .with_channel("telegram")
        .with_os_info("linux", "x86_64");
    let builder = ContextBuilder::new().with_runtime_context(ctx);
    let messages = builder.build_messages(&[], "Hello");
    assert_eq!(messages.len(), 2);
    assert!(messages[0].content.contains("Runtime Context"));
    assert!(messages[0].content.contains("telegram"));
}

#[test]
fn test_context_builder_with_memory_context() {
    let builder = ContextBuilder::new()
        .with_memory_context("## Memory\n\n### Pinned\n- user:name: Alice".to_string());
    let system = builder.build_system_message();
    assert!(system.content.contains("## Memory"));
    assert!(system.content.contains("user:name: Alice"));
}

#[test]
fn test_context_builder_empty_memory_context_skipped() {
    let builder = ContextBuilder::new().with_memory_context(String::new());
    let system = builder.build_system_message();
    assert!(!system.content.contains("## Memory"));
}

#[test]
fn test_context_builder_memory_after_runtime() {
    let ctx = RuntimeContext::new().with_channel("cli");
    let builder = ContextBuilder::new()
        .with_runtime_context(ctx)
        .with_memory_context("## Memory\n\n### Pinned\n- k: v".to_string());
    let system = builder.build_system_message();
    let runtime_pos = system.content.find("Runtime Context").unwrap();
    let memory_pos = system.content.find("## Memory").unwrap();
    assert!(runtime_pos < memory_pos);
}

#[test]
fn test_build_messages_with_memory_override_some() {
    let builder = ContextBuilder::new()
        .with_memory_context("## Memory\n\n### Pinned\n- old: data".to_string());
    let override_ctx =
        "## Memory\n\n### Pinned\n- user:name: Alice\n\n### Relevant\n- fact:project: ZeptoClaw";
    let messages =
        builder.build_messages_with_memory_override(&[], "Hello", Some(override_ctx));
    assert!(messages[0].content.contains("fact:project: ZeptoClaw"));
    assert!(!messages[0].content.contains("old: data"));
    assert_eq!(messages.len(), 2);
}

#[test]
fn test_build_messages_with_memory_override_none_falls_back() {
    let builder = ContextBuilder::new()
        .with_memory_context("## Memory\n\n### Pinned\n- stored: value".to_string());
    let messages = builder.build_messages_with_memory_override(&[], "Hello", None);
    assert!(messages[0].content.contains("stored: value"));
}

#[test]
fn test_build_messages_with_memory_override_empty_string() {
    let builder = ContextBuilder::new()
        .with_memory_context("## Memory\n\n### Pinned\n- old: data".to_string());
    let messages = builder.build_messages_with_memory_override(&[], "Hello", Some(""));
    assert!(!messages[0].content.contains("## Memory"));
}

#[test]
fn test_system_prompt_mentions_memory() {
    assert!(
        DEFAULT_SYSTEM_PROMPT.contains("longterm_memory"),
        "DEFAULT_SYSTEM_PROMPT should mention longterm_memory tool"
    );
}

#[test]
fn test_system_prompt_mentions_save_and_recall() {
    assert!(
        DEFAULT_SYSTEM_PROMPT.contains("Save") || DEFAULT_SYSTEM_PROMPT.contains("save"),
        "DEFAULT_SYSTEM_PROMPT should mention saving facts"
    );
    assert!(
        DEFAULT_SYSTEM_PROMPT.contains("Recall") || DEFAULT_SYSTEM_PROMPT.contains("recall"),
        "DEFAULT_SYSTEM_PROMPT should mention recalling information"
    );
}

#[test]
fn test_system_prompt_memory_instructions_in_built_message() {
    let builder = ContextBuilder::new();
    let system = builder.build_system_message();
    assert!(
        system.content.contains("longterm_memory"),
        "Built system message should contain longterm_memory instructions"
    );
}

#[test]
fn test_system_prompt_contains_reminder_guidance() {
    assert!(
        DEFAULT_SYSTEM_PROMPT.contains("Reminder:"),
        "System prompt must instruct how to handle cron-delivered 'Reminder:' messages"
    );
}

#[test]
fn test_system_prompt_contains_heartbeat_guidance() {
    assert!(
        DEFAULT_SYSTEM_PROMPT.contains("HEARTBEAT_OK"),
        "System prompt must instruct how to handle heartbeat messages"
    );
}

#[test]
fn test_a2ui_suffix_contains_full_guidance() {
    assert!(
        A2UI_RENDERING_PROMPT_SUFFIX.contains("A2UI"),
        "A2UI suffix must include rendering guidance"
    );
    assert!(
        A2UI_RENDERING_PROMPT_SUFFIX.contains("Do NOT output Mermaid"),
        "A2UI suffix must discourage Mermaid fallback for UI rendering requests"
    );
    assert!(
        A2UI_RENDERING_PROMPT_SUFFIX.contains("```a2ui"),
        "A2UI suffix must include a valid ```a2ui shape example"
    );
    assert!(
        A2UI_RENDERING_PROMPT_SUFFIX.contains("Do NOT call `shell`"),
        "A2UI suffix must forbid using shell/python tools to render charts"
    );
}

#[test]
fn test_default_prompt_excludes_a2ui_guidance() {
    assert!(
        !DEFAULT_SYSTEM_PROMPT.contains("```a2ui"),
        "Default prompt must not contain the A2UI block — gate it on capability instead"
    );
    assert!(
        !DEFAULT_SYSTEM_PROMPT.contains("A2UI Rendering (HARD RULE)"),
        "Default prompt must not contain the HARD RULE A2UI section"
    );
}

#[test]
fn test_default_prompt_keeps_text_only_visual_guidance() {
    assert!(
        DEFAULT_SYSTEM_PROMPT.contains("text-only channel"),
        "Default prompt must include the text-only visual rendering note"
    );
}

#[test]
fn test_prompt_size_budgets() {
    assert!(
        DEFAULT_SYSTEM_PROMPT.len() <= 768,
        "DEFAULT_SYSTEM_PROMPT is {} bytes; keep it <= 768",
        DEFAULT_SYSTEM_PROMPT.len()
    );
    assert!(
        A2UI_RENDERING_PROMPT_SUFFIX.len() <= 1700,
        "A2UI_RENDERING_PROMPT_SUFFIX is {} bytes; keep it <= 1700",
        A2UI_RENDERING_PROMPT_SUFFIX.len()
    );
}

#[test]
fn test_build_messages_with_a2ui_capability_includes_suffix() {
    let builder = ContextBuilder::new();
    let messages = builder.build_messages_with_overrides(
        &[],
        "draw a chart",
        None,
        PromptCapabilities::with_a2ui(),
    );
    assert!(messages[0].content.contains("```a2ui"));
    assert!(messages[0].content.contains("A2UI Rendering (HARD RULE)"));
}

#[test]
fn test_build_messages_without_capability_omits_suffix() {
    let builder = ContextBuilder::new();
    let messages = builder.build_messages_with_overrides(
        &[],
        "draw a chart",
        None,
        PromptCapabilities::default(),
    );
    assert!(!messages[0].content.contains("```a2ui"));
    assert!(!messages[0].content.contains("A2UI Rendering (HARD RULE)"));
}

#[test]
fn test_legacy_build_messages_with_memory_override_omits_a2ui() {
    let builder = ContextBuilder::new();
    let messages = builder.build_messages_with_memory_override(&[], "Hello", None);
    assert!(!messages[0].content.contains("```a2ui"));
}

#[test]
fn test_with_system_prompt_suffix() {
    let builder = ContextBuilder::new().with_system_prompt_suffix("\n\nExtra instructions.");
    let system = builder.build_system_message();
    assert!(system.content.contains("ZeptoClaw"));
    assert!(system.content.contains("Extra instructions."));
}

#[test]
fn test_first_run_persona_prompt_content() {
    assert!(FIRST_RUN_PERSONA_PROMPT.contains("First Conversation Setup"));
    assert!(FIRST_RUN_PERSONA_PROMPT.contains("concise"));
    assert!(FIRST_RUN_PERSONA_PROMPT.contains("persona_pref"));
}

#[test]
fn p5_anchored_summary_default_is_none() {
    let builder = ContextBuilder::new();
    assert!(builder.anchored_summary().is_none());
}

#[test]
fn p5_with_anchored_summary_sets_and_clears() {
    let builder = ContextBuilder::new().with_anchored_summary(Some("sum-text".into()));
    assert_eq!(builder.anchored_summary(), Some("sum-text"));

    let cleared = builder.with_anchored_summary(None);
    assert!(cleared.anchored_summary().is_none());
}

#[test]
fn p5_build_with_overrides_none_summary_matches_baseline() {
    let history = vec![Message::user("hi"), Message::assistant("hello")];
    let baseline = ContextBuilder::new().build_messages_with_overrides(
        &history,
        "next",
        None,
        PromptCapabilities::default(),
    );
    let with_none = ContextBuilder::new()
        .with_anchored_summary(None)
        .build_messages_with_overrides(
            &history,
            "next",
            None,
            PromptCapabilities::default(),
        );

    assert_eq!(baseline.len(), with_none.len());
    for (a, b) in baseline.iter().zip(with_none.iter()) {
        assert_eq!(a.role, b.role);
        assert_eq!(a.content, b.content);
    }
}

#[test]
fn p5_build_with_overrides_inserts_summary_between_system_and_history() {
    let history = vec![Message::user("hi"), Message::assistant("hello")];
    let messages = ContextBuilder::new()
        .with_anchored_summary(Some("[summary] previous turns covered X, Y, Z.".into()))
        .build_messages_with_overrides(
            &history,
            "next",
            None,
            PromptCapabilities::default(),
        );

    assert_eq!(messages.len(), 5);
    assert_eq!(messages[0].role, Role::System);
    assert_eq!(messages[1].role, Role::System);
    assert_eq!(
        messages[1].content,
        "[summary] previous turns covered X, Y, Z."
    );
    assert_eq!(messages[2].role, Role::User);
    assert_eq!(messages[2].content, "hi");
    assert_eq!(messages[3].role, Role::Assistant);
    assert_eq!(messages[4].role, Role::User);
    assert!(messages[4].content.ends_with("next"));
}

#[test]
fn p5_legacy_build_messages_ignores_summary() {
    let history = vec![Message::user("hi")];
    let messages = ContextBuilder::new()
        .with_anchored_summary(Some("ignored in legacy path".into()))
        .build_messages(&history, "next");

    assert_eq!(messages.len(), 3);
    assert_eq!(messages[0].role, Role::System);
    assert_eq!(messages[1].role, Role::User);
    assert_eq!(messages[1].content, "hi");
    assert_eq!(messages[2].role, Role::User);
    assert!(messages[2].content.ends_with("next"));
}
