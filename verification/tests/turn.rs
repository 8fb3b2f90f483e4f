//! What an answer amounts to.
use zeptoclaw::providers::{LLMResponse, LLMToolCall};
use zeptoclaw::turn::{
    classify_final_content, classify_turn_outcome, looks_like_provider_tool_markup, TurnOutcome,
};

fn response_text(content: &str) -> LLMResponse {
    LLMResponse::text(content)
}

fn response_with_tools(content: &str, tool_calls: Vec<LLMToolCall>) -> LLMResponse {
    LLMResponse::with_tools(content, tool_calls)
}

#[test]
fn classify_tool_calls_takes_priority_over_content() {
    let tc = LLMToolCall::new("c1", "web_search", r#"{"query":"x"}"#);
    let r = response_with_tools("ignored", vec![tc.clone()]);
    match classify_turn_outcome(&r) {
        TurnOutcome::ToolCalls(calls) => {
            assert_eq!(calls.len(), 1);
            assert_eq!(calls[0].id, "c1");
            assert_eq!(calls[0].name, "web_search");
        }
        other => panic!("expected ToolCalls, got {other:?}"),
    }
}

#[test]
fn classify_empty_response_returns_empty_answer() {
    assert!(matches!(
        classify_turn_outcome(&response_text("\n\n\n")),
        TurnOutcome::EmptyAnswer
    ));
}

#[test]
fn classify_blank_content_returns_empty_answer() {
    assert!(matches!(
        classify_turn_outcome(&response_text("   \t  ")),
        TurnOutcome::EmptyAnswer
    ));
}

#[test]
fn classify_provider_markup_only_response() {
    let r = response_text("<minimax:tool_call>{\"name\":\"x\"}</minimax:tool_call>");
    assert!(matches!(
        classify_turn_outcome(&r),
        TurnOutcome::ProviderMarkupOnly
    ));
}

#[test]
fn classify_plain_text_returns_final_answer() {
    let r = response_text("Hello, here is the answer.");
    match classify_turn_outcome(&r) {
        TurnOutcome::FinalAnswer(text) => {
            assert_eq!(text, "Hello, here is the answer.");
        }
        other => panic!("expected FinalAnswer, got {other:?}"),
    }
}

#[test]
fn classify_preserves_original_content_with_surrounding_whitespace() {
    let r = response_text("\n\n  real answer  \n");
    match classify_turn_outcome(&r) {
        TurnOutcome::FinalAnswer(text) => {
            assert_eq!(text, "\n\n  real answer  \n");
        }
        other => panic!("expected FinalAnswer, got {other:?}"),
    }
}

#[test]
fn classify_final_content_empty() {
    assert!(matches!(
        classify_final_content(""),
        TurnOutcome::EmptyAnswer
    ));
    assert!(matches!(
        classify_final_content("   \n"),
        TurnOutcome::EmptyAnswer
    ));
}

#[test]
fn classify_final_content_provider_markup() {
    assert!(matches!(
        classify_final_content("<tool_call>{\"name\":\"x\"}</tool_call>"),
        TurnOutcome::ProviderMarkupOnly
    ));
}

#[test]
fn classify_final_content_plain_text() {
    match classify_final_content("plain answer") {
        TurnOutcome::FinalAnswer(text) => assert_eq!(text, "plain answer"),
        other => panic!("expected FinalAnswer, got {other:?}"),
    }
}

#[test]
fn markup_detector_rejects_empty_and_whitespace() {
    assert!(!looks_like_provider_tool_markup(""));
    assert!(!looks_like_provider_tool_markup("   "));
    assert!(!looks_like_provider_tool_markup("\n\t  \n"));
}

#[test]
fn markup_detector_rejects_plain_text() {
    assert!(!looks_like_provider_tool_markup("Hello world"));
    assert!(!looks_like_provider_tool_markup("Answer: 42."));
}

#[test]
fn markup_detector_rejects_text_with_embedded_tag() {
    assert!(!looks_like_provider_tool_markup(
        "Here is what <tool_call> means: ..."
    ));
    assert!(!looks_like_provider_tool_markup(
        "See the `<minimax:tool_call>` element."
    ));
}

#[test]
fn markup_detector_rejects_unknown_xml_tag() {
    assert!(!looks_like_provider_tool_markup("<note>hello</note>"));
    assert!(!looks_like_provider_tool_markup("<p>paragraph</p>"));
}

#[test]
fn markup_detector_accepts_minimax_tag() {
    assert!(looks_like_provider_tool_markup(
        "<minimax:tool_call>{\"name\":\"web_search\"}</minimax:tool_call>"
    ));
}

#[test]
fn markup_detector_case_insensitive() {
    assert!(looks_like_provider_tool_markup(
        "<MINIMAX:TOOL_CALL>{}</MINIMAX:TOOL_CALL>"
    ));
    assert!(looks_like_provider_tool_markup("<Tool_Call>{}</Tool_Call>"));
}

#[test]
fn markup_detector_accepts_known_alternates() {
    assert!(looks_like_provider_tool_markup("<tool_call>{}</tool_call>"));
    assert!(looks_like_provider_tool_markup("<tool_use>{}</tool_use>"));
    assert!(looks_like_provider_tool_markup(
        "<function_call>{}</function_call>"
    ));
}

#[test]
fn markup_detector_tolerates_leading_whitespace() {
    assert!(looks_like_provider_tool_markup(
        "  \n<minimax:tool_call>{}</minimax:tool_call>\n"
    ));
}
