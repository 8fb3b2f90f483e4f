//! Whole turns, played against scripted models.
use zeptoclaw::agent_loop::CompactionUrgency;
use zeptoclaw::harness::{
    Harness, ModelCall, Stage, ToolCallLimit, TurnAction, TurnEvent, TurnLimits, FALLBACK_ANSWER,
};
use zeptoclaw::harness_state::{HarnessTurnState, ProposePlanArgs};
use zeptoclaw::intake::{
    audit_event, begin_turn, cache_system_prompt, cacheable, context_cut, flushes_memory, injection_audit_line,
    preflight_cut, require_provider, scan_inbound, InboundScan, PreflightAction,
    INJECTION_REJECTED,
};
use zeptoclaw::bus::InboundMessage;
use zeptoclaw::json::{find_field, Json};
use zeptoclaw::observations::{ToolObservation, ToolObservationKind};
use zeptoclaw::plan::{default_tool_budget, ProposedSubtask};
use zeptoclaw::providers::{LLMResponse, LLMToolCall, Usage};
use zeptoclaw::session::{Message, Role};
use zeptoclaw::stream_guard::StreamGuard;
use zeptoclaw::synthesis::{final_synthesis_request, ChatOptions, SYNTHESIS_INSTRUCTION};
use zeptoclaw::tool_calls::{route_call, with_plan_prompt, CallRoute};
use zeptoclaw::tool_helpers::LoopGuardAction;

fn limits() -> TurnLimits {
    TurnLimits {
        max_tool_iterations: 20,
        overflow_retries: 3,
        compaction: true,
        loop_guard: false,
        final_synthesis_on_empty: true,
        final_synthesis_on_tool_limit: true,
    }
}

fn turn(limits: TurnLimits) -> Harness {
    Harness::new(limits, None, vec![Message::user("run a tool")])
}

fn call(id: &str, name: &str, arguments: &str) -> LLMToolCall {
    LLMToolCall::new(id, name, arguments)
}

fn answer(text: &str) -> TurnEvent {
    TurnEvent::Answered(LLMResponse::text(text))
}

fn asks(calls: Vec<LLMToolCall>) -> TurnEvent {
    TurnEvent::Answered(LLMResponse::with_tools("", calls))
}

fn reads_file() -> TurnEvent {
    asks(vec![call("call_1", "read_file", "{}")])
}

/// Runs every tool call of the round successfully.
fn tools_ran(turn: &Harness) -> TurnEvent {
    let observations = turn
        .tool_calls()
        .iter()
        .map(|c| ToolObservation::new(&c.id, &c.name, "ok", ToolObservationKind::Success, 1, false))
        .collect();
    TurnEvent::ToolsRan {
        observations,
        budget_exceeded: false,
    }
}

/// Plays a turn in which every tool succeeds: the answer, its metadata, whether it
/// was plain text, and how many tool calls were made.
fn play<F: FnMut(usize) -> TurnEvent>(
    turn: &mut Harness,
    mut model: F,
) -> (String, Json, bool, usize) {
    let mut calls = 1;
    let mut tools = 0;
    let mut action = turn.step(model(calls));
    loop {
        match action {
            TurnAction::CallModel(_) | TurnAction::CutAndRetry { .. } => {
                calls += 1;
                action = turn.step(model(calls));
            }
            TurnAction::RunTools => {
                tools += turn.tool_calls().len();
                let event = tools_ran(turn);
                action = turn.step(event);
            }
            TurnAction::Finish { content, implicit } => {
                return (content, last_metadata(turn), implicit, tools)
            }
            other => panic!("unexpected action {other:?}"),
        }
    }
}

/// The metadata of the last message.
fn last_metadata(turn: &Harness) -> Json {
    turn.session()
        .last()
        .expect("the answer should be recorded")
        .metadata
        .clone()
}

fn text_of<'a>(metadata: &'a Json, name: &str) -> Option<&'a str> {
    match metadata {
        Json::Object(fields) => match find_field(fields, name) {
            Some(Json::Text(t)) => Some(t.as_str()),
            _ => None,
        },
        _ => None,
    }
}

fn number_of(metadata: &Json, name: &str) -> Option<u64> {
    match metadata {
        Json::Object(fields) => match find_field(fields, name) {
            Some(Json::Unsigned(n)) => Some(*n),
            _ => None,
        },
        _ => None,
    }
}

fn flag_of(metadata: &Json, name: &str) -> Option<bool> {
    match metadata {
        Json::Object(fields) => match find_field(fields, name) {
            Some(Json::Bool(b)) => Some(*b),
            _ => None,
        },
        _ => None,
    }
}

fn final_answer(id: &str, content: &str, status: &str) -> TurnEvent {
    asks(vec![call(
        id,
        "final_answer",
        &format!(r#"{{"content":"{content}","status":"{status}"}}"#),
    )])
}

#[test]
fn test_process_message_returns_phase0_fallback_for_synthesis_markup() {
    let mut turn = turn(TurnLimits {
        max_tool_iterations: 1,
        ..limits()
    });
    let (content, metadata, _, _) = play(&mut turn, |n| {
        if n <= 2 {
            reads_file()
        } else {
            answer("<minimax:tool_call>{}</minimax:tool_call>")
        }
    });

    assert!(content.starts_with("Sorry, I could not produce a displayable final answer"));
    assert_eq!(text_of(&metadata, "harness_fallback"), Some("phase0"));
    assert_eq!(text_of(&metadata, "fallback_reason"), Some("synthesis_markup"));
    assert_eq!(number_of(&metadata, "iterations"), Some(1));
    assert_eq!(number_of(&metadata, "tool_calls_total"), Some(1));
    assert_eq!(flag_of(&metadata, "tool_limit_hit"), Some(true));
    assert_eq!(turn.session().last().unwrap().content, content);
}

#[test]
fn test_process_message_streaming_returns_phase0_fallback_for_markup() {
    let mut turn = turn(TurnLimits {
        final_synthesis_on_empty: false,
        ..limits()
    });
    let (content, _, _, _) = play(&mut turn, |n| {
        if n == 1 {
            reads_file()
        } else {
            answer("<minimax:tool_call>{}</minimax:tool_call>")
        }
    });
    assert!(content.starts_with("Sorry, I could not produce a displayable final answer"));
}

#[test]
fn test_process_message_streaming_returns_phase0_fallback_for_empty() {
    let mut turn = turn(TurnLimits {
        final_synthesis_on_empty: false,
        ..limits()
    });
    let (content, _, _, _) = play(&mut turn, |n| if n == 1 { reads_file() } else { answer("") });
    assert!(content.starts_with("Sorry, I could not produce a displayable final answer"));
}

#[test]
fn test_process_message_delivers_structured_final_answer_after_tool_loop() {
    let mut turn = turn(limits());
    let (content, metadata, _, tools) = play(&mut turn, |n| {
        if n == 1 {
            reads_file()
        } else {
            final_answer("call_final", "done via final_answer", "complete")
        }
    });
    assert_eq!(content, "done via final_answer");
    assert_eq!(tools, 1);
    assert_eq!(text_of(&metadata, "final_answer_status"), Some("complete"));
    assert_eq!(turn.session().last().unwrap().content, content);
}

#[test]
fn test_process_message_ignores_concurrent_tools_when_final_answer_present() {
    let mut turn = turn(limits());
    let (content, _, _, tools) = play(&mut turn, |_| {
        asks(vec![
            call(
                "call_final",
                "final_answer",
                r#"{"content":"done from final tool","status":"complete"}"#,
            ),
            call("call_read", "read_file", "{}"),
        ])
    });
    assert_eq!(content, "done from final tool");
    assert_eq!(tools, 0);
}

#[test]
fn test_process_message_streaming_delivers_structured_final_answer_after_tool_loop() {
    let mut turn = turn(limits());
    let (content, metadata, _, tools) = play(&mut turn, |n| {
        if n == 1 {
            reads_file()
        } else {
            final_answer("call_final", "stream done via final_answer", "partial")
        }
    });
    assert_eq!(content, "stream done via final_answer");
    assert_eq!(tools, 1);
    assert_eq!(text_of(&metadata, "final_answer_status"), Some("partial"));
}

#[test]
fn test_process_message_intercepts_propose_plan_and_injects_plan_prompt() {
    assert_eq!(route_call("propose_plan"), CallRoute::ProposePlan);
    assert_eq!(route_call("revise_plan"), CallRoute::RevisePlan);
    assert_eq!(route_call("read_file"), CallRoute::Tool);

    let mut state = HarnessTurnState::default();
    let observation = state.handle_propose_plan(
        "call_plan",
        Ok(ProposePlanArgs {
            subtasks: vec![
                ProposedSubtask {
                    description: "Search sources".to_string(),
                    acceptance: "At least two sources found".to_string(),
                    tool_budget: 2,
                },
                ProposedSubtask {
                    description: "Compare products".to_string(),
                    acceptance: "Comparison table ready".to_string(),
                    tool_budget: default_tool_budget(),
                },
            ],
            rationale: Some("The user asked for a multi-product research comparison.".to_string()),
        }),
        1,
    );
    let mut turn = turn(limits());
    let plan = asks(vec![call("call_plan", "propose_plan", "{}")]);
    assert!(matches!(turn.step(plan), TurnAction::RunTools));
    let next = turn.step(TurnEvent::ToolsRan {
        observations: vec![observation],
        budget_exceeded: false,
    });
    assert!(matches!(next, TurnAction::CallModel(ModelCall::ToolLoop)));
    let prompt = state.render_plan_prompt();
    let messages = with_plan_prompt(vec![Message::system("base")], prompt.as_deref());
    assert!(
        messages
            .iter()
            .any(|message| message.role == Role::System
                && message.content.contains("Current plan:")
                && message.content.contains("Search sources")),
        "second provider call should include the plan prompt"
    );
    match turn.step(final_answer("call_final", "planned final answer", "complete")) {
        TurnAction::Finish { content, .. } => assert_eq!(content, "planned final answer"),
        other => panic!("expected an answer, got {other:?}"),
    }
}

#[test]
fn without_a_plan_the_messages_stay() {
    assert_eq!(with_plan_prompt(vec![Message::system("base")], None).len(), 1);
}

#[test]
fn test_process_message_reprompts_invalid_final_answer_successfully() {
    let mut turn = turn(limits());
    let (content, metadata, _, tools) = play(&mut turn, |n| match n {
        1 => reads_file(),
        2 => final_answer(
            "call_final_bad",
            "<minimax:tool_call>{}</minimax:tool_call>",
            "complete",
        ),
        _ => final_answer("call_final_reprompt", "reprompt success", "complete"),
    });
    assert_eq!(content, "reprompt success");
    assert_eq!(tools, 1);
    assert_eq!(text_of(&metadata, "final_answer_status"), Some("complete"));
}

#[test]
fn test_process_message_reprompt_invalid_final_answer_falls_back() {
    let mut turn = turn(limits());
    let (content, metadata, _, tools) = play(&mut turn, |n| match n {
        1 => reads_file(),
        2 => final_answer("call_final_bad", "", "complete"),
        _ => final_answer("call_final_reprompt", "", "complete"),
    });
    assert!(content.starts_with("Sorry, I could not produce a displayable final answer"));
    assert_eq!(tools, 1);
    assert_eq!(text_of(&metadata, "harness_fallback"), Some("phase0"));
    assert_eq!(text_of(&metadata, "fallback_reason"), Some("synthesis_empty"));
}

#[test]
fn test_process_message_records_implicit_termination_metric() {
    let mut turn = turn(limits());
    let (content, _, implicit, tools) =
        play(&mut turn, |n| if n == 1 { reads_file() } else { answer("done") });
    assert_eq!(content, "done");
    assert_eq!(tools, 1);
    assert!(implicit);
}

#[test]
fn a_final_answer_that_cannot_be_read_is_asked_for_again() {
    let mut turn = turn(limits());
    let bad = asks(vec![call("c", "final_answer", "{bad")]);
    assert!(matches!(
        turn.step(bad),
        TurnAction::CallModel(ModelCall::Reprompt)
    ));
    match turn.step(TurnEvent::CallFailed {
        overflow: false,
        error: "down".to_string(),
    }) {
        TurnAction::Finish { content, .. } => {
            assert_eq!(content, FALLBACK_ANSWER);
            assert_eq!(
                text_of(&last_metadata(&turn), "fallback_reason"),
                Some("synthesis_empty")
            );
        }
        other => panic!("expected the fallback, got {other:?}"),
    }
}

#[test]
fn an_empty_answer_gets_one_call_without_tools() {
    let mut turn = turn(limits());
    match turn.step(answer("  \n")) {
        TurnAction::CallModel(call) => {
            assert_eq!(call, ModelCall::FinalSynthesis);
            assert!(!call.with_tools());
        }
        other => panic!("expected a model call, got {other:?}"),
    }
    match turn.step(answer("the answer")) {
        TurnAction::Finish { content, implicit, .. } => {
            assert_eq!(content, "the answer");
            assert!(implicit);
        }
        other => panic!("expected an answer, got {other:?}"),
    }
    assert_eq!(turn.stage(), Stage::Over);
    assert!(matches!(turn.step(answer("late")), TurnAction::Nothing));
}

#[test]
fn a_failed_synthesis_leaves_the_text_there_was() {
    let mut turn = turn(TurnLimits {
        max_tool_iterations: 1,
        ..limits()
    });
    turn.step(reads_file());
    let event = tools_ran(&turn);
    turn.step(event);
    let still_asking = TurnEvent::Answered(LLMResponse::with_tools(
        "so far so good",
        vec![call("c2", "read_file", "{}")],
    ));
    assert!(matches!(
        turn.step(still_asking),
        TurnAction::CallModel(ModelCall::FinalSynthesis)
    ));
    match turn.step(TurnEvent::CallFailed {
        overflow: true,
        error: "too long".to_string(),
    }) {
        TurnAction::Finish { content, .. } => assert_eq!(content, "so far so good"),
        other => panic!("expected an answer, got {other:?}"),
    }
}

#[test]
fn overflows_are_cut_and_tried_again() {
    let mut turn = turn(TurnLimits {
        overflow_retries: 2,
        ..limits()
    });
    let overflow = || TurnEvent::CallFailed {
        overflow: true,
        error: "context overflow".to_string(),
    };
    for expected in [CompactionUrgency::Normal, CompactionUrgency::Emergency] {
        match turn.step(overflow()) {
            TurnAction::CutAndRetry {
                urgency,
                keep_recent,
                call,
            } => {
                assert_eq!(urgency, expected);
                assert_eq!(keep_recent, 8);
                assert_eq!(call, ModelCall::Initial);
            }
            other => panic!("expected a cut, got {other:?}"),
        }
    }
    turn.replace_session(vec![Message::user("short")]);
    match turn.step(overflow()) {
        TurnAction::Fail(error) => assert_eq!(error, "context overflow"),
        other => panic!("expected a failure, got {other:?}"),
    }
    assert_eq!(turn.session().len(), 1);
}

#[test]
fn other_failures_are_not_tried_again() {
    let mut plain = turn(limits());
    assert!(matches!(
        plain.step(TurnEvent::CallFailed {
            overflow: false,
            error: "down".to_string()
        }),
        TurnAction::Fail(_)
    ));
    let mut uncut = turn(TurnLimits {
        compaction: false,
        ..limits()
    });
    assert!(matches!(
        uncut.step(TurnEvent::CallFailed {
            overflow: true,
            error: "long".to_string()
        }),
        TurnAction::Fail(_)
    ));
}

#[test]
fn the_tool_call_limit_cuts_a_round_short() {
    let mut turn = Harness::new(limits(), Some(2), vec![Message::user("go")]);
    let round = asks(vec![
        call("a", "read_file", "{}"),
        call("b", "read_file", "{}"),
        call("c", "read_file", "{}"),
    ]);
    assert!(matches!(turn.step(round), TurnAction::RunTools));
    assert_eq!(turn.tool_calls().len(), 2);
    let recorded = turn.session()[1].tool_calls.as_ref().unwrap();
    assert_eq!(recorded.len(), 2);
    let event = tools_ran(&turn);
    assert!(matches!(
        turn.step(event),
        TurnAction::CallModel(ModelCall::LimitSynthesis)
    ));
    assert_eq!(turn.session().len(), 4);
    match turn.step(TurnEvent::CallFailed {
        overflow: true,
        error: "long".to_string(),
    }) {
        TurnAction::CutAndRetry { keep_recent, .. } => assert_eq!(keep_recent, 5),
        other => panic!("expected a cut, got {other:?}"),
    }
    match turn.step(answer("two files read")) {
        TurnAction::Finish { content, .. } => assert_eq!(content, "two files read"),
        other => panic!("expected an answer, got {other:?}"),
    }
}

#[test]
fn no_tool_calls_at_all_may_be_allowed() {
    let mut turn = Harness::new(
        TurnLimits {
            final_synthesis_on_empty: false,
            ..limits()
        },
        Some(0),
        vec![Message::user("go")],
    );
    match turn.step(reads_file()) {
        TurnAction::Finish { content, .. } => {
            let metadata = last_metadata(&turn);
            assert_eq!(content, FALLBACK_ANSWER);
            assert_eq!(flag_of(&metadata, "tool_limit_hit"), Some(true));
            assert_eq!(number_of(&metadata, "tool_calls_total"), Some(0));
        }
        other => panic!("expected the fallback, got {other:?}"),
    }
    assert!(turn.session().iter().all(|m| m.tool_calls.is_none()));
}

#[test]
fn used_up_tokens_end_the_rounds() {
    let mut limited = Harness::new(limits(), Some(1), vec![Message::user("go")]);
    limited.step(reads_file());
    let observations = vec![ToolObservation::new(
        "call_1",
        "read_file",
        "ok",
        ToolObservationKind::Success,
        1,
        false,
    )];
    match limited.step(TurnEvent::ToolsRan {
        observations: observations.clone(),
        budget_exceeded: true,
    }) {
        TurnAction::Finish { content, .. } => {
            assert_eq!(content, "Tool call limit reached. Token budget exceeded.")
        }
        other => panic!("expected an answer, got {other:?}"),
    }
    let mut unlimited = turn(limits());
    unlimited.step(reads_file());
    assert!(matches!(
        unlimited.step(TurnEvent::ToolsRan {
            observations,
            budget_exceeded: true,
        }),
        TurnAction::CallModel(ModelCall::FinalSynthesis)
    ));
}

#[test]
fn a_tool_may_ask_to_wait_for_the_user() {
    let mut turn = turn(limits());
    let question = TurnEvent::Answered(LLMResponse::with_tools(
        "Which one do you mean?",
        vec![call("q", "ask_clarification", "{}")],
    ));
    turn.step(question);
    match turn.step(TurnEvent::ToolsRan {
        observations: vec![ToolObservation::new(
            "q",
            "ask_clarification",
            "asked",
            ToolObservationKind::Success,
            1,
            true,
        )],
        budget_exceeded: false,
    }) {
        TurnAction::Finish { content, .. } => assert_eq!(content, "Which one do you mean?"),
        other => panic!("expected an answer, got {other:?}"),
    }
}

#[test]
fn the_loop_guard_stops_a_turn() {
    let guarded = TurnLimits {
        loop_guard: true,
        final_synthesis_on_tool_limit: false,
        ..limits()
    };
    let mut turn1 = turn(guarded);
    turn1.step(reads_file());
    let event = tools_ran(&turn1);
    assert!(matches!(turn1.step(event), TurnAction::AskGuard));
    let stop = LoopGuardAction::Block {
        reason: "same call".to_string(),
    };
    match turn1.step(TurnEvent::GuardSaid(stop)) {
        TurnAction::Finish { content, .. } => assert_eq!(
            content,
            "Stopped tool loop due to repeated tool-call pattern."
        ),
        other => panic!("expected an answer, got {other:?}"),
    }

    let mut turn2 = turn(guarded);
    turn2.step(reads_file());
    let event = tools_ran(&turn2);
    turn2.step(event);
    match turn2.step(TurnEvent::GuardSaid(LoopGuardAction::Allow)) {
        TurnAction::AskOutcomes(probes) => {
            assert_eq!(probes.len(), 1);
            assert_eq!(probes[0].name, "read_file");
            assert_eq!(probes[0].prefix, "ok");
        }
        other => panic!("expected a question, got {other:?}"),
    }
    let trip = LoopGuardAction::CircuitBreak { total_repetitions: 9 };
    match turn2.step(TurnEvent::OutcomesSaid(vec![None, Some(trip)])) {
        TurnAction::Finish { content, .. } => assert_eq!(
            content,
            "Stopped tool loop due to repeated identical outcomes."
        ),
        other => panic!("expected an answer, got {other:?}"),
    }
    let notes: Vec<&str> = turn2
        .session()
        .iter()
        .filter(|m| m.role == Role::System)
        .map(|m| m.content.as_str())
        .collect();
    assert_eq!(
        notes,
        vec!["[LoopGuard] circuit breaker tripped (9 total repetitions)."]
    );

    let mut turn3 = turn(guarded);
    turn3.step(reads_file());
    let event = tools_ran(&turn3);
    turn3.step(event);
    turn3.step(TurnEvent::GuardSaid(LoopGuardAction::Warn {
        reason: "again".to_string(),
        suggested_delay_ms: Some(5),
    }));
    assert!(matches!(
        turn3.step(TurnEvent::OutcomesSaid(vec![None])),
        TurnAction::CallModel(ModelCall::ToolLoop)
    ));
    assert_eq!(turn3.iteration(), 1);
}

#[test]
fn events_out_of_turn_change_nothing() {
    let mut turn = turn(limits());
    assert!(matches!(
        turn.step(TurnEvent::GuardSaid(LoopGuardAction::Allow)),
        TurnAction::Nothing
    ));
    assert!(matches!(
        turn.step(TurnEvent::OutcomesSaid(vec![])),
        TurnAction::Nothing
    ));
    assert!(matches!(
        turn.step(TurnEvent::ToolsRan {
            observations: vec![],
            budget_exceeded: false
        }),
        TurnAction::Nothing
    ));
    assert_eq!(turn.stage(), Stage::Calling(ModelCall::Initial));
}

#[test]
fn tool_calls_are_counted_up_to_the_limit() {
    let mut limit = ToolCallLimit::new(Some(3));
    assert_eq!(limit.remaining(), Some(3));
    limit.increment(2);
    assert!(!limit.is_exceeded());
    assert_eq!(limit.remaining(), Some(1));
    limit.increment(5);
    assert!(limit.is_exceeded());
    assert_eq!(limit.remaining(), Some(0));
    let mut open = ToolCallLimit::new(None);
    open.increment(usize::MAX);
    assert_eq!(open.count, u32::MAX);
    assert!(!open.is_exceeded());
    assert_eq!(open.remaining(), None);
}

#[test]
fn synthesis_passes_empty_tools_catalog() {
    let request = final_synthesis_request(
        vec![Message::user("anything")],
        None,
        ChatOptions { max_tokens: None },
    );
    assert_eq!(request.tools.len(), 0, "synthesis must disable tools");
}

#[test]
fn synthesis_appends_instruction_to_messages() {
    let request = final_synthesis_request(
        vec![
            Message::user("first user message"),
            Message::assistant("assistant turn"),
        ],
        None,
        ChatOptions { max_tokens: None },
    );
    assert_eq!(request.messages.len(), 3, "instruction should be appended");
    let last = request.messages.last().expect("last message present");
    assert!(
        last.content
            .starts_with("You are producing the final user-facing answer."),
        "last message should be the synthesis instruction, got: {}",
        last.content
    );
    assert_eq!(last.content, SYNTHESIS_INSTRUCTION);
}

#[test]
fn synthesis_passes_model_and_options() {
    let request = final_synthesis_request(
        vec![Message::user("q")],
        Some("custom-model".to_string()),
        ChatOptions {
            max_tokens: Some(1234),
        },
    );
    assert_eq!(request.model, Some("custom-model".to_string()));
    assert_eq!(request.options.max_tokens, Some(1234));
}

#[test]
fn injections_are_blocked_from_webhooks_alone() {
    assert_eq!(scan_inbound(true, true, true, "webhook"), InboundScan::Blocked);
    assert_eq!(scan_inbound(true, true, true, "telegram"), InboundScan::Warned);
    assert_eq!(scan_inbound(false, true, true, "webhook"), InboundScan::Clean);
    assert_eq!(scan_inbound(true, false, true, "webhook"), InboundScan::Clean);
    assert_eq!(scan_inbound(true, true, false, "webhook"), InboundScan::Clean);
    assert_eq!(
        INJECTION_REJECTED,
        "Message rejected: potential prompt injection detected"
    );
    assert_eq!(audit_event(InboundScan::Clean), None);
    assert_eq!(
        audit_event(InboundScan::Warned),
        Some("inbound_injection_warned")
    );
    assert_eq!(
        audit_event(InboundScan::Blocked),
        Some("inbound_injection_blocked")
    );
    let msg = InboundMessage::new("webhook", "u7", "c", "x");
    assert_eq!(injection_audit_line(&msg), "Channel: webhook, sender: u7");
}

#[test]
fn test_process_message_no_provider() {
    let result = require_provider(None);
    assert!(result.is_err());
    assert!(result
        .unwrap_err()
        .to_string()
        .contains("No provider configured"));
    assert_eq!(require_provider(Some(4)), Ok(4));
}

#[test]
fn tokens_that_are_used_up_end_a_turn() {
    let mut fresh = turn(limits());
    match fresh.step(TurnEvent::BudgetSpent("2/2".to_string())) {
        TurnAction::Fail(error) => assert_eq!(error, "Token budget exceeded: 2/2"),
        other => panic!("expected a failure, got {other:?}"),
    }
    let mut later = turn(limits());
    later.step(reads_file());
    assert!(matches!(
        later.step(TurnEvent::BudgetSpent("2/2".to_string())),
        TurnAction::Nothing
    ));
}

#[test]
fn cached_answers_need_no_model() {
    let mut fresh = turn(limits());
    match fresh.step(TurnEvent::CacheHit("known".to_string())) {
        TurnAction::Finish { content, .. } => assert_eq!(content, "known"),
        other => panic!("expected an answer, got {other:?}"),
    }
    assert_eq!(fresh.session().last().unwrap().content, "known");
    assert_eq!(fresh.stage(), Stage::Over);
}

#[test]
fn cached_texts_that_cannot_be_shown_are_no_hits() {
    let markup = "<tool_call>{}</tool_call>";
    for text in ["", " \n", markup] {
        let mut fresh = turn(limits());
        assert!(matches!(
            fresh.step(TurnEvent::CacheHit(text.to_string())),
            TurnAction::Nothing
        ));
        assert_eq!(fresh.stage(), Stage::Calling(ModelCall::Initial));
        assert_eq!(fresh.session().len(), 1);
        assert_eq!(cacheable(&LLMResponse::text(text)), None);
    }
}

#[test]
fn blocked_messages_begin_no_turn() {
    assert_eq!(begin_turn(InboundScan::Clean, Some(3)), Ok(3));
    assert_eq!(begin_turn(InboundScan::Warned, Some(3)), Ok(3));
    assert_eq!(
        begin_turn(InboundScan::Blocked, None),
        Err(INJECTION_REJECTED.to_string())
    );
    assert_eq!(
        begin_turn(InboundScan::Clean, None),
        Err("No provider configured".to_string())
    );
}

#[test]
fn only_text_answers_are_cached() {
    let mut response = LLMResponse::text("hello");
    assert_eq!(cacheable(&response), Some(("hello", 0)));
    response.usage = Some(Usage {
        prompt_tokens: 3,
        completion_tokens: 5,
    });
    assert_eq!(cacheable(&response), Some(("hello", 5)));
    response.tool_calls.push(call("c", "t", "{}"));
    assert_eq!(cacheable(&response), None);
}

#[test]
fn the_cache_goes_by_the_system_prompt() {
    assert_eq!(
        cache_system_prompt(&vec![Message::system("base"), Message::user("q")]),
        "base"
    );
    assert_eq!(cache_system_prompt(&vec![Message::user("q")]), "");
    assert_eq!(cache_system_prompt(&vec![]), "");
}

#[test]
fn conversations_are_cut_where_they_are_too_long() {
    assert_eq!(preflight_cut(PreflightAction::Fits), None);
    assert_eq!(preflight_cut(PreflightAction::Trimmed), None);
    let cut = preflight_cut(PreflightAction::NeedsCompaction).unwrap();
    assert_eq!(cut.urgency, CompactionUrgency::Emergency);
    assert_eq!(cut.keep_recent, 5);
    assert_eq!(context_cut(CompactionUrgency::Critical).keep_recent, 8);
    assert!(flushes_memory(CompactionUrgency::Normal));
    assert!(!flushes_memory(CompactionUrgency::Emergency));
}

#[test]
fn markup_is_held_back_until_it_is_known() {
    let mut guard = StreamGuard::new();
    assert_eq!(guard.on_delta("  "), "");
    assert_eq!(guard.on_delta("<tool"), "");
    assert_eq!(guard.on_delta("_call>"), "");
    assert_eq!(guard.held(), "  <tool_call>");
    let mut plain = StreamGuard::new();
    assert_eq!(plain.on_delta(" "), "");
    assert_eq!(plain.on_delta("Hi"), " Hi");
    assert_eq!(plain.on_delta("<b>"), "<b>");
    assert_eq!(plain.held(), "");
}
