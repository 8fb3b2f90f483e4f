//! What one answer of a model amounts to.
use vstd::prelude::*;

use crate::providers::{copy_calls, LLMResponse, LLMToolCall, ResponseV};
use crate::session::CallV;
use crate::text::{
    contains, contains_text, is_space, law_blank_texts, law_trim_drops_white_space,
    law_trimmed_texts_stay, lower, lower_char, occurs_at, starts_with_text, text, to_lower, trim,
    trim_text,
};

verus! {

/// What one answer of a model amounts to.
#[derive(Debug)]
pub enum TurnOutcome {
    /// The model asks for tool calls.
    ToolCalls(Vec<LLMToolCall>),
    /// The model gave an answer that the user can read.
    FinalAnswer(String),
    /// The model gave neither tool calls nor text.
    EmptyAnswer,
    /// The model gave no tool calls, and its text is tool markup that only its
    /// provider understands.
    ProviderMarkupOnly,
}

/// The model of a [`TurnOutcome`].
#[verifier::ext_equal]
pub enum OutcomeV {
    ToolCalls(Seq<CallV>),
    FinalAnswer(Seq<char>),
    EmptyAnswer,
    ProviderMarkupOnly,
}

impl DeepView for TurnOutcome {
    type V = OutcomeV;

    open spec fn deep_view(&self) -> OutcomeV {
        match self {
            TurnOutcome::ToolCalls(calls) => OutcomeV::ToolCalls(calls.deep_view()),
            TurnOutcome::FinalAnswer(text) => OutcomeV::FinalAnswer(text@),
            TurnOutcome::EmptyAnswer => OutcomeV::EmptyAnswer,
            TurnOutcome::ProviderMarkupOnly => OutcomeV::ProviderMarkupOnly,
        }
    }
}

impl Clone for TurnOutcome {
    fn clone(&self) -> (r: Self)
        ensures
            r.deep_view() == self.deep_view(),
    {
        match self {
            TurnOutcome::ToolCalls(calls) => TurnOutcome::ToolCalls(copy_calls(calls)),
            TurnOutcome::FinalAnswer(text) => TurnOutcome::FinalAnswer(text.clone()),
            TurnOutcome::EmptyAnswer => TurnOutcome::EmptyAnswer,
            TurnOutcome::ProviderMarkupOnly => TurnOutcome::ProviderMarkupOnly,
        }
    }
}

/// Whether a text is tool markup of a provider: it starts with `<` and holds one
/// of the known tags, in any case.
pub open spec fn is_tool_markup(s: Seq<char>) -> bool {
    let t = trim(s);
    let low = lower(t);
    &&& t.len() > 0 && t[0] == '<'
    &&& {
        ||| contains(low, "<minimax:tool_call"@)
        ||| contains(low, "</minimax:tool_call"@)
        ||| contains(low, "<tool_call"@)
        ||| contains(low, "</tool_call"@)
        ||| contains(low, "<tool_use"@)
        ||| contains(low, "</tool_use"@)
        ||| contains(low, "<function_call"@)
        ||| contains(low, "</function_call"@)
    }
}

/// What a final text amounts to.
pub open spec fn content_outcome(content: Seq<char>) -> OutcomeV {
    if trim(content).len() == 0 {
        OutcomeV::EmptyAnswer
    } else if is_tool_markup(trim(content)) {
        OutcomeV::ProviderMarkupOnly
    } else {
        OutcomeV::FinalAnswer(content)
    }
}

/// What an answer amounts to: tool calls come before text.
pub open spec fn response_outcome(response: ResponseV) -> OutcomeV {
    if response.tool_calls.len() > 0 {
        OutcomeV::ToolCalls(response.tool_calls)
    } else {
        content_outcome(response.content)
    }
}

/// What an answer amounts to.
pub fn classify_turn_outcome(response: &LLMResponse) -> (r: TurnOutcome)
    ensures
        r.deep_view() == response_outcome(response.deep_view()),
{
    if response.tool_calls.len() > 0 {
        return TurnOutcome::ToolCalls(copy_calls(&response.tool_calls));
    }
    classify_final_content(response.content.as_str())
}

/// What a final text amounts to.
pub fn classify_final_content(content: &str) -> (r: TurnOutcome)
    ensures
        r.deep_view() == content_outcome(content@),
{
    let trimmed = trim_text(content);
    if trimmed.as_str().is_empty() {
        return TurnOutcome::EmptyAnswer;
    }
    if looks_like_provider_tool_markup(trimmed.as_str()) {
        return TurnOutcome::ProviderMarkupOnly;
    }
    TurnOutcome::FinalAnswer(text(content))
}

/// Whether a text is tool markup of a provider that leaked into an answer.
///
/// An answer that only mentions such a tag does not start with `<`, and markup
/// other than the known tags is left alone.
pub fn looks_like_provider_tool_markup(text: &str) -> (r: bool)
    ensures
        r == is_tool_markup(text@),
{
    let trimmed = trim_text(text);
    proof {
        reveal_strlit("<");
        let t = trim(text@);
        if t.len() > 0 {
            assert(t.subrange(0, 1) =~= seq![t[0]]);
            assert("<"@ =~= seq!['<']);
            assert(seq![t[0]][0] == t[0]);
        }
    }
    if trimmed.as_str().is_empty() || !starts_with_text(trimmed.as_str(), "<") {
        return false;
    }
    let lowered = to_lower(trimmed.as_str());
    let low = lowered.as_str();
    contains_text(low, "<minimax:tool_call") || contains_text(low, "</minimax:tool_call")
        || contains_text(low, "<tool_call") || contains_text(low, "</tool_call") || contains_text(
        low,
        "<tool_use",
    ) || contains_text(low, "</tool_use") || contains_text(low, "<function_call") || contains_text(
        low,
        "</function_call",
    )
}

/// An answer with tool calls is never taken for a final one, and a final answer
/// is the model's text, unchanged and not blank.
pub proof fn law_final_answer_is_the_text(response: ResponseV)
    ensures
        response_outcome(response) is ToolCalls <==> response.tool_calls.len() > 0,
        response_outcome(response) matches OutcomeV::FinalAnswer(t) ==> t == response.content
            && trim(t).len() > 0 && !is_tool_markup(trim(t)),
{
}

/// A text of nothing but white space is no answer, and every other text is one
/// unless its first character that is not white space is `<`. An answer is the text
/// itself.
pub proof fn law_plain_texts_are_answers(content: Seq<char>, i: int)
    requires
        0 <= i < content.len(),
        !is_space(content[i]),
        forall|k: int| 0 <= k < i ==> is_space(#[trigger] content[k]),
    ensures
        !(content_outcome(content) is EmptyAnswer),
        !(content_outcome(content) is ToolCalls),
        content[i] != '<' ==> content_outcome(content) == OutcomeV::FinalAnswer(content),
        content_outcome(content) matches OutcomeV::FinalAnswer(t) ==> t == content,
{
    let (a, b) = law_trim_drops_white_space(content);
    law_blank_texts(content);
    if a < i {
        assert(is_space(content[a]));
        assert(a >= b);
        assert(is_space(content[i]));
    }
    if a > i {
        assert(is_space(content[i]));
    }
    let t = trim(content);
    assert(t.len() > 0 && t[0] == content[i]);
    law_trimmed_texts_stay(t);
}

/// A text of nothing but white space is empty.
pub proof fn law_blank_texts_are_no_answers(content: Seq<char>)
    ensures
        content_outcome(content) is EmptyAnswer <==> forall|k: int|
            0 <= k < content.len() ==> is_space(#[trigger] content[k]),
{
    law_blank_texts(content);
}

/// The tags by which providers mark up tool calls.
pub open spec fn is_known_tag(tag: Seq<char>) -> bool {
    ||| tag == "<tool_call"@
    ||| tag == "</tool_call"@
    ||| tag == "<tool_use"@
    ||| tag == "</tool_use"@
    ||| tag == "<function_call"@
    ||| tag == "</function_call"@
    ||| tag == "<minimax:tool_call"@
    ||| tag == "</minimax:tool_call"@
}

/// A text that begins with a tag by which providers mark up tool calls, written in
/// whatever case, is no answer, whatever follows.
pub proof fn law_markup_is_no_answer(tag: Seq<char>, rest: Seq<char>)
    requires
        is_known_tag(lower(tag)),
    ensures
        content_outcome(tag + rest) is ProviderMarkupOnly,
        is_tool_markup(tag + rest),
{
    reveal_strlit("<tool_call");
    reveal_strlit("</tool_call");
    reveal_strlit("<tool_use");
    reveal_strlit("</tool_use");
    reveal_strlit("<function_call");
    reveal_strlit("</function_call");
    reveal_strlit("<minimax:tool_call");
    reveal_strlit("</minimax:tool_call");
    let low = lower(tag);
    let n = tag.len() as int;
    assert(low.len() == tag.len());
    assert(low[0] == '<');
    assert(low[0] == lower_char(tag[0]));
    assert(tag[0] == '<');
    assert(low[n - 1] == 'l' || low[n - 1] == 'e');
    assert(low[n - 1] == lower_char(tag[n - 1]));
    assert(!is_space(tag[n - 1]));
    let s = tag + rest;
    assert(s[0] == tag[0]);
    assert(s[n - 1] == tag[n - 1]);
    let (a, b) = law_trim_drops_white_space(s);
    if a > 0 {
        assert(is_space(s[0]));
    }
    if b < n {
        assert(is_space(s[n - 1]));
    }
    let t = trim(s);
    assert(t.len() >= n);
    assert(lower(t).subrange(0, n) =~= low) by {
        assert forall|k: int| 0 <= k < n implies lower(t)[k] == low[k] by {
            assert(t[k] == tag[k]);
        }
    }
    assert(occurs_at(lower(t), low, 0));
    assert(contains(lower(t), low));
    law_trimmed_texts_stay(t);
}

/// Other markup is left alone: a text that holds none of the tags, in whatever case,
/// and is not blank is an answer.
pub proof fn law_other_markup_is_an_answer(content: Seq<char>)
    requires
        exists|k: int| 0 <= k < content.len() && !is_space(#[trigger] content[k]),
        forall|tag: Seq<char>, i: int|
            is_known_tag(tag) && 0 <= i && i + tag.len() <= content.len() ==> #[trigger] lower(
                content,
            ).subrange(i, i + tag.len()) != tag,
    ensures
        content_outcome(content) == OutcomeV::FinalAnswer(content),
{
    law_blank_texts(content);
    let (a, b) = law_trim_drops_white_space(content);
    let t = trim(content);
    law_trimmed_texts_stay(t);
    let whole = lower(content);
    assert forall|tag: Seq<char>| is_known_tag(tag) implies !contains(lower(t), tag) by {
        if contains(lower(t), tag) {
            let i = choose|i: int| #[trigger] occurs_at(lower(t), tag, i);
            assert(lower(t) =~= whole.subrange(a, b));
            assert(whole.subrange(a + i, a + i + tag.len()) =~= lower(t).subrange(
                i,
                i + tag.len(),
            ));
        }
    }
    assert(is_known_tag("<tool_call"@));
    assert(is_known_tag("</tool_call"@));
    assert(is_known_tag("<tool_use"@));
    assert(is_known_tag("</tool_use"@));
    assert(is_known_tag("<function_call"@));
    assert(is_known_tag("</function_call"@));
    assert(is_known_tag("<minimax:tool_call"@));
    assert(is_known_tag("</minimax:tool_call"@));
}

/// What an answer amounts to holds what its model holds.
pub proof fn law_outcomes_hold_their_text(outcome: TurnOutcome)
    ensures
        match outcome {
            TurnOutcome::ToolCalls(calls) => outcome.deep_view() matches OutcomeV::ToolCalls(v)
                && v.len() == calls@.len(),
            TurnOutcome::FinalAnswer(text) => outcome.deep_view() == OutcomeV::FinalAnswer(text@),
            TurnOutcome::EmptyAnswer => outcome.deep_view() is EmptyAnswer,
            TurnOutcome::ProviderMarkupOnly => outcome.deep_view() is ProviderMarkupOnly,
        },
{
}

} // verus!
