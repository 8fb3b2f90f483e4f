//! The last call of a turn whose tools gave no answer: it must not use tools.
use vstd::prelude::*;

use crate::session::{text_message, Message, Role};

verus! {

/// What the model is told before it writes the final answer.
pub const SYNTHESIS_INSTRUCTION: &'static str =
    "You are producing the final user-facing answer. Do not call tools. Use only the existing tool results and conversation context. If evidence is incomplete or a source could not be fetched, say so explicitly. Return a concise answer that directly satisfies the user's request.";

/// Options of a model call.
#[derive(Debug, Clone, Copy, PartialEq, Eq, Structural)]
pub struct ChatOptions {
    pub max_tokens: Option<u32>,
}

/// A model call.
#[derive(Debug)]
pub struct ChatRequest {
    pub messages: Vec<Message>,
    /// The names of the tools that the model may use.
    pub tools: Vec<String>,
    pub model: Option<String>,
    pub options: ChatOptions,
}

/// The call for the final answer: the conversation with the instruction at its
/// end, and no tools, so that the model cannot go on calling them.
pub fn final_synthesis_request(
    messages: Vec<Message>,
    model: Option<String>,
    options: ChatOptions,
) -> (r: ChatRequest)
    ensures
        r.messages.deep_view() == messages.deep_view().push(
            text_message(Role::System, SYNTHESIS_INSTRUCTION@),
        ),
        r.tools@.len() == 0,
        r.model == model,
        r.options == options,
{
    let mut all = messages;
    all.push(Message::system(SYNTHESIS_INSTRUCTION));
    proof {
        assert(all.deep_view() =~= messages.deep_view().push(
            text_message(Role::System, SYNTHESIS_INSTRUCTION@),
        ));
    }
    ChatRequest { messages: all, tools: Vec::new(), model, options }
}

} // verus!
