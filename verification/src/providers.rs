//! What a language model answers.
use vstd::prelude::*;

use crate::session::CallV;
use crate::text::text;

verus! {

/// A tool call that a model asks for.
#[derive(Debug)]
pub struct LLMToolCall {
    pub id: String,
    pub name: String,
    /// The arguments as JSON text.
    pub arguments: String,
}

impl DeepView for LLMToolCall {
    type V = CallV;

    open spec fn deep_view(&self) -> CallV {
        CallV { id: self.id@, name: self.name@, arguments: self.arguments@ }
    }
}

impl LLMToolCall {
    /// A tool call with the given fields.
    pub fn new(id: &str, name: &str, arguments: &str) -> (r: Self)
        ensures
            r.deep_view() == (CallV { id: id@, name: name@, arguments: arguments@ }),
    {
        LLMToolCall { id: text(id), name: text(name), arguments: text(arguments) }
    }
}

impl Clone for LLMToolCall {
    fn clone(&self) -> (r: Self)
        ensures
            r.deep_view() == self.deep_view(),
    {
        LLMToolCall {
            id: self.id.clone(),
            name: self.name.clone(),
            arguments: self.arguments.clone(),
        }
    }
}

/// Copies of tool calls.
pub fn copy_calls(calls: &Vec<LLMToolCall>) -> (r: Vec<LLMToolCall>)
    ensures
        r.deep_view() == calls.deep_view(),
{
    let r = calls.clone();
    proof {
        assert(r.deep_view() =~= calls.deep_view());
    }
    r
}

/// The tokens that a call used.
#[derive(Debug, Clone, Copy, PartialEq, Eq, Structural)]
pub struct Usage {
    pub prompt_tokens: u32,
    pub completion_tokens: u32,
}

/// What a model answers.
#[derive(Debug)]
pub struct LLMResponse {
    pub content: String,
    pub tool_calls: Vec<LLMToolCall>,
    pub usage: Option<Usage>,
}

/// The model of an [`LLMResponse`].
pub struct ResponseV {
    pub content: Seq<char>,
    pub tool_calls: Seq<CallV>,
    pub usage: Option<Usage>,
}

impl DeepView for LLMResponse {
    type V = ResponseV;

    open spec fn deep_view(&self) -> ResponseV {
        ResponseV {
            content: self.content@,
            tool_calls: self.tool_calls.deep_view(),
            usage: self.usage,
        }
    }
}

impl LLMResponse {
    /// An answer of text alone.
    pub fn text(content: &str) -> (r: Self)
        ensures
            r.deep_view() == (ResponseV { content: content@, tool_calls: seq![], usage: None }),
    {
        let tool_calls: Vec<LLMToolCall> = Vec::new();
        proof {
            assert(tool_calls.deep_view() =~= Seq::<CallV>::empty());
        }
        LLMResponse { content: text(content), tool_calls, usage: None }
    }

    /// An answer with tool calls.
    pub fn with_tools(content: &str, tool_calls: Vec<LLMToolCall>) -> (r: Self)
        ensures
            r.deep_view() == (ResponseV {
                content: content@,
                tool_calls: tool_calls.deep_view(),
                usage: None,
            }),
    {
        LLMResponse { content: text(content), tool_calls, usage: None }
    }

    /// Whether the model asks for tool calls.
    pub fn has_tool_calls(&self) -> (r: bool)
        ensures
            r == (self.deep_view().tool_calls.len() > 0),
    {
        self.tool_calls.len() > 0
    }
}

/// An answer and its tool calls hold what their models hold.
pub proof fn law_answers_hold_what_models_said(response: LLMResponse, i: int)
    ensures
        response.deep_view().content == response.content@,
        response.deep_view().usage == response.usage,
        response.deep_view().tool_calls.len() == response.tool_calls@.len(),
        0 <= i < response.tool_calls@.len() ==> response.deep_view().tool_calls[i] == (CallV {
            id: response.tool_calls@[i].id@,
            name: response.tool_calls@[i].name@,
            arguments: response.tool_calls@[i].arguments@,
        }),
{
}

} // verus!
