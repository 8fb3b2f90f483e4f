//! Plans and advisories of a turn.
use zeptoclaw::harness_state::{
    DisorderSignal, HarnessTurnState, ProposePlanArgs, ReviseDecision, RevisePlanArgs,
};
use zeptoclaw::json::{parse_json, Json};
use zeptoclaw::observations::{ToolObservation, ToolObservationKind};
use zeptoclaw::plan::{default_tool_budget, ProposedSubtask};
use zeptoclaw::providers::{LLMResponse, LLMToolCall};

fn field<'a>(value: &'a Json, name: &str) -> Option<&'a Json> {
    match value {
        Json::Object(fields) => fields.iter().find(|f| f.0 == name).map(|f| &f.1),
        _ => None,
    }
}

fn text_field(value: &Json, name: &str) -> Result<String, String> {
    match field(value, name) {
        Some(Json::Text(t)) => Ok(t.clone()),
        _ => Err(format!("missing field `{name}`")),
    }
}

fn subtasks(value: &Json) -> Result<Vec<ProposedSubtask>, String> {
    let items = match value {
        Json::Array(items) => items,
        _ => return Err("invalid type".to_string()),
    };
    items
        .iter()
        .map(|item| {
            Ok(ProposedSubtask {
                description: text_field(item, "description")?,
                acceptance: text_field(item, "acceptance")?,
                tool_budget: match field(item, "tool_budget") {
                    Some(Json::Unsigned(n)) => *n as u32,
                    _ => default_tool_budget(),
                },
            })
        })
        .collect()
}

fn proposal(raw: &str) -> Result<ProposePlanArgs, String> {
    let value = parse_json(raw)?;
    match field(&value, "subtasks") {
        Some(items) => Ok(ProposePlanArgs {
            subtasks: subtasks(items)?,
            rationale: text_field(&value, "rationale").ok(),
        }),
        None => Err("missing field `subtasks`".to_string()),
    }
}

fn revision(raw: &str) -> Result<RevisePlanArgs, String> {
    let value = parse_json(raw)?;
    let decision = match text_field(&value, "decision")?.as_str() {
        "complete_current" => ReviseDecision::CompleteCurrent,
        "advance_to" => ReviseDecision::AdvanceTo,
        "mark_blocked" => ReviseDecision::MarkBlocked,
        "replace_plan" => ReviseDecision::ReplacePlan,
        other => return Err(format!("unknown variant `{other}`")),
    };
    let target_subtask_idx = match field(&value, "target_subtask_idx") {
        Some(Json::Unsigned(n)) => Some(*n as usize),
        _ => None,
    };
    let new_subtasks = match field(&value, "new_subtasks") {
        Some(items) => Some(subtasks(items)?),
        None => None,
    };
    Ok(RevisePlanArgs {
        decision,
        target_subtask_idx,
        new_subtasks,
        reason: text_field(&value, "reason")?,
    })
}

#[test]
fn propose_plan_creates_renderable_plan() {
    let mut state = HarnessTurnState::default();
    let obs = state.handle_propose_plan(
        "call_plan",
        proposal(r#"{"subtasks":[{"description":"Search sources","acceptance":"Sources collected","tool_budget":2},{"description":"Compare","acceptance":"Table ready"}]}"#),
        1,
    );

    assert_eq!(obs.kind, ToolObservationKind::Success);
    let prompt = state.render_plan_prompt().expect("plan should render");
    assert!(prompt.contains("Current plan:"));
    assert!(prompt.contains("[>] subtask 1 (0/2 tool calls used): Search sources"));
    assert!(prompt.contains("[ ] subtask 2: Compare"));
}

#[test]
fn revise_plan_complete_current_advances() {
    let mut state = HarnessTurnState::default();
    state.handle_propose_plan(
        "call_plan",
        proposal(r#"{"subtasks":[{"description":"One","acceptance":"Done"},{"description":"Two","acceptance":"Done"}]}"#),
        1,
    );

    let obs = state.handle_revise_plan(
        "call_revise",
        revision(r#"{"decision":"complete_current","reason":"first done"}"#),
        2,
    );

    assert_eq!(obs.kind, ToolObservationKind::Success);
    let prompt = state.render_plan_prompt().expect("plan should render");
    assert!(prompt.contains("[x] subtask 1: One"));
    assert!(prompt.contains("[>] subtask 2 (0/5 tool calls used): Two"));
}

#[test]
fn revise_plan_replace_plan_rebuilds_subtasks() {
    let mut state = HarnessTurnState::default();
    state.handle_propose_plan(
        "call_plan",
        proposal(r#"{"subtasks":[{"description":"Old","acceptance":"Done"}]}"#),
        1,
    );

    let obs = state.handle_revise_plan(
        "call_revise",
        revision(r#"{"decision":"replace_plan","new_subtasks":[{"description":"New first","acceptance":"Ready","tool_budget":3},{"description":"New second","acceptance":"Ready"}],"reason":"direction changed"}"#),
        2,
    );

    assert_eq!(obs.kind, ToolObservationKind::Success);
    let prompt = state.render_plan_prompt().expect("plan should render");
    assert!(!prompt.contains("Old"));
    assert!(prompt.contains("[>] subtask 1 (0/3 tool calls used): New first"));
    assert!(prompt.contains("[ ] subtask 2: New second"));
}

#[test]
fn consecutive_same_tool_marks_advisory() {
    let mut state = HarnessTurnState::default();
    for _ in 0..4 {
        state.record_tool_calls(&vec!["web_search".to_string()]);
    }

    let advisory = state
        .take_disorder_advisory()
        .expect("disorder advisory should be pending");
    assert_eq!(advisory.0, DisorderSignal::ConsecutiveSameTool);
    assert!(advisory.1.contains("informational"));
}

#[test]
fn tool_error_rate_marks_advisory() {
    let mut state = HarnessTurnState::default();
    let observations = vec![
        ToolObservation::pre_execution(
            "call_1",
            "web_fetch",
            "ok",
            ToolObservationKind::Success,
        ),
        ToolObservation::pre_execution(
            "call_2",
            "web_fetch",
            "error",
            ToolObservationKind::SoftError,
        ),
        ToolObservation::pre_execution(
            "call_3",
            "web_fetch",
            "error",
            ToolObservationKind::HardError,
        ),
        ToolObservation::pre_execution(
            "call_4",
            "web_fetch",
            "ok",
            ToolObservationKind::Success,
        ),
        ToolObservation::pre_execution(
            "call_5",
            "web_fetch",
            "approval",
            ToolObservationKind::ApprovalRequired,
        ),
    ];

    state.record_observations(&observations);

    assert_eq!(
        state
            .take_disorder_advisory()
            .expect("tool error rate should trigger")
            .0,
        DisorderSignal::ToolErrorRate
    );
}

#[test]
fn plan_stagnation_marks_advisory() {
    let mut state = HarnessTurnState::default();
    state.handle_propose_plan(
        "call_plan",
        proposal(r#"{"subtasks":[{"description":"Search","acceptance":"Done"}]}"#),
        1,
    );

    state.check_plan_stagnation(7);

    assert_eq!(
        state
            .take_disorder_advisory()
            .expect("plan stagnation should trigger")
            .0,
        DisorderSignal::PlanStagnation
    );
}

#[test]
fn subtask_budget_marks_advisory_when_plan_is_active() {
    let mut state = HarnessTurnState::default();
    state.handle_propose_plan(
        "call_plan",
        proposal(r#"{"subtasks":[{"description":"Search","acceptance":"Sources found","tool_budget":2}]}"#),
        1,
    );

    state.record_tool_calls(&vec!["web_search".to_string()]);
    assert!(state.take_disorder_advisory().is_none());

    state.record_tool_calls(&vec!["web_fetch".to_string()]);

    let advisory = state
        .take_disorder_advisory()
        .expect("subtask budget should trigger");
    assert_eq!(advisory.0, DisorderSignal::SubtaskBudget);
    assert!(advisory.1.contains("Subtask \"Search\""));
    assert!(advisory.1.contains("budget 2"));
    assert!(advisory.1.contains("suggestion, not a restriction"));
}

#[test]
fn subtask_budget_does_not_repeat_for_same_subtask() {
    let mut state = HarnessTurnState::default();
    state.handle_propose_plan(
        "call_plan",
        proposal(r#"{"subtasks":[{"description":"Search","acceptance":"Sources found","tool_budget":1}]}"#),
        1,
    );

    state.record_tool_calls(&vec!["web_search".to_string()]);
    state.record_tool_calls(&vec!["web_fetch".to_string()]);

    assert_eq!(
        state
            .take_disorder_advisory()
            .expect("subtask budget should trigger once")
            .0,
        DisorderSignal::SubtaskBudget
    );
    assert!(state.take_disorder_advisory().is_none());
}

#[test]
fn next_subtask_budget_starts_at_zero_after_complete_current() {
    let mut state = HarnessTurnState::default();
    state.handle_propose_plan(
        "call_plan",
        proposal(r#"{"subtasks":[{"description":"Search","acceptance":"Sources found","tool_budget":1},{"description":"Compare","acceptance":"Table ready","tool_budget":3}]}"#),
        1,
    );

    state.record_tool_calls(&vec!["web_search".to_string()]);
    state.handle_revise_plan(
        "call_revise",
        revision(r#"{"decision":"complete_current","reason":"sources found"}"#),
        2,
    );

    let prompt = state.render_plan_prompt().expect("plan should render");
    assert!(prompt.contains("[x] subtask 1: Search"));
    assert!(prompt.contains("[>] subtask 2 (0/3 tool calls used): Compare"));
}

#[test]
fn subtask_budget_is_inactive_without_plan() {
    let mut state = HarnessTurnState::default();
    state.record_tool_calls(&vec!["web_search".to_string(), "web_fetch".to_string()]);

    assert!(state.take_disorder_advisory().is_none());
}

#[test]
fn advisory_is_only_injected_once_per_turn() {
    let mut state = HarnessTurnState::default();
    for _ in 0..4 {
        state.record_tool_calls(&vec!["web_search".to_string()]);
    }

    assert!(state.take_disorder_advisory().is_some());
    state.record_loop_guard_signal();
    state.record_model_content("actually, wait");

    assert!(state.take_disorder_advisory().is_none());
}

#[test]
fn self_doubt_matching_is_conservative() {
    let mut state = HarnessTurnState::default();
    state.record_model_content("I'm not sure if this URL is correct.");
    assert!(state.take_disorder_advisory().is_none());

    state.record_model_content("Actually, wait, let me reconsider the plan.");
    assert_eq!(
        state
            .take_disorder_advisory()
            .expect("self doubt should trigger")
            .0,
        DisorderSignal::SelfDoubt
    );
}

#[test]
fn self_doubt_matching_supports_chinese_phrases() {
    let mut state = HarnessTurnState::default();
    state.record_model_content("\u{6211}\u{4e0d}\u{77e5}\u{9053}\u{4e0b}\u{4e00}\u{6b65}");

    assert_eq!(
        state
            .take_disorder_advisory()
            .expect("Chinese self-doubt should trigger")
            .0,
        DisorderSignal::SelfDoubt
    );
}

#[test]
fn a_plan_is_proposed_once() {
    let mut state = HarnessTurnState::default();
    let raw = r#"{"subtasks":[{"description":"One","acceptance":"Done"}]}"#;
    assert_eq!(
        state.handle_propose_plan("c1", proposal(raw), 1).kind,
        ToolObservationKind::Success
    );
    let again = state.handle_propose_plan("c2", proposal(raw), 2);
    assert_eq!(again.kind, ToolObservationKind::SoftError);
    assert!(state.render_plan_prompt().unwrap().contains("One"));
}

#[test]
fn unreadable_arguments_change_nothing() {
    let mut state = HarnessTurnState::default();
    let obs = state.handle_propose_plan("c1", proposal("{"), 1);
    assert_eq!(obs.kind, ToolObservationKind::SoftError);
    assert!(state.render_plan_prompt().is_none());
    let obs = state.handle_revise_plan(
        "c2",
        revision(r#"{"decision":"complete_current","reason":"x"}"#),
        2,
    );
    assert_eq!(obs.kind, ToolObservationKind::SoftError);
}

#[test]
fn a_revision_out_of_range_is_refused() {
    let mut state = HarnessTurnState::default();
    state.handle_propose_plan(
        "c1",
        proposal(r#"{"subtasks":[{"description":"One","acceptance":"Done"}]}"#),
        1,
    );
    let before = state.render_plan_prompt();
    for raw in [
        r#"{"decision":"advance_to","target_subtask_idx":4,"reason":"x"}"#,
        r#"{"decision":"advance_to","reason":"x"}"#,
        r#"{"decision":"mark_blocked","target_subtask_idx":4,"reason":"x"}"#,
        r#"{"decision":"replace_plan","reason":"x"}"#,
    ] {
        let obs = state.handle_revise_plan("c2", revision(raw), 2);
        assert_eq!(obs.kind, ToolObservationKind::SoftError, "{raw}");
        assert_eq!(state.render_plan_prompt(), before);
    }
}

#[test]
fn the_first_signal_stays() {
    let mut state = HarnessTurnState::default();
    state.record_loop_guard_signal();
    state.record_model_content("Actually, wait, let me reconsider the plan.");
    let (signal, _) = state.take_disorder_advisory().unwrap();
    assert_eq!(signal, DisorderSignal::LoopGuard);
}

fn answer(content: &str, names: &[&str]) -> LLMResponse {
    let calls = names
        .iter()
        .map(|name| LLMToolCall::new("call", name, "{}"))
        .collect();
    LLMResponse::with_tools(content, calls)
}

#[test]
fn answers_count_for_the_plan_but_plan_calls_do_not() {
    let mut state = HarnessTurnState::default();
    let raw = r#"{"subtasks":[{"description":"Search","acceptance":"done","tool_budget":9}]}"#;
    state.handle_propose_plan("call_plan", proposal(raw), 1);
    assert!(!state.note_answer(&answer("", &["web_search", "revise_plan", "read_file"])));
    let prompt = state.render_plan_prompt().unwrap();
    assert!(prompt.contains("(2/9 tool calls used)"), "{prompt}");
}

#[test]
fn an_answer_may_ignore_the_advisory() {
    for (names, ignores) in [(vec!["a"], true), (vec!["a", "propose_plan"], false)] {
        let mut state = HarnessTurnState::default();
        assert!(!state.note_answer(&answer("I'm stuck", &[])));
        let (signal, _) = state.take_disorder_advisory().unwrap();
        assert_eq!(signal, DisorderSignal::SelfDoubt);
        assert_eq!(state.note_answer(&answer("", &names)), ignores);
        assert!(!state.note_answer(&answer("", &names)));
    }
}

#[test]
fn four_calls_of_one_tool_in_an_answer_are_a_signal() {
    let mut state = HarnessTurnState::default();
    state.note_answer(&answer("", &["a", "propose_plan", "a", "a", "a"]));
    let (signal, _) = state.take_disorder_advisory().unwrap();
    assert_eq!(signal, DisorderSignal::ConsecutiveSameTool);
}
