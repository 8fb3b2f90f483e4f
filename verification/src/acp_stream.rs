//! Streaming a reply to an ACP client.
use vstd::prelude::*;

use crate::acp_http::AcpHttpChannel;
use crate::acp_protocol::{
    answers_with_error, custom_update, error_body, json_rpc_error, json_rpc_result,
    law_answers_echo_the_id, law_answers_hold_what_they_answer, law_error_marks_are_dropped,
    law_updates_carry_what_came, lemma_error_answers, notifies_of_event, notifies_of_text,
    result_body, result_envelope, session_custom_update, session_text_update,
    strip_agent_error_prefix, text_update, update_envelope, without_error_mark,
    JSONRPC_INTERNAL_ERROR, JSONRPC_SERVER_ERROR,
};
use crate::http::{sse, sse_text, stream_head, stream_head_text};
use crate::json::{at, inner, json_text, no_fields, object, put_text, says, Json, JsonV};
use crate::text::text;

verus! {

/// A piece of a reply on its way to the stream's writer.
#[derive(Debug)]
pub enum PromptFragment {
    /// A piece of text; more follows.
    Chunk(String),
    /// A complete reply.
    Full { content: String, cancelled: bool },
    /// The end of a reply that came in pieces.
    End { cancelled: bool },
    /// The words of a failure.
    Error(String),
    /// A custom event; more follows.
    Custom { name: String, payload: Json },
}

/// The model of a [`PromptFragment`].
pub enum FragmentV {
    Chunk(Seq<char>),
    Full(Seq<char>, bool),
    End(bool),
    Error(Seq<char>),
    Custom(Seq<char>, JsonV),
}

impl View for PromptFragment {
    type V = FragmentV;

    open spec fn view(&self) -> FragmentV {
        match self {
            PromptFragment::Chunk(s) => FragmentV::Chunk(s@),
            PromptFragment::Full { content, cancelled } => FragmentV::Full(content@, *cancelled),
            PromptFragment::End { cancelled } => FragmentV::End(*cancelled),
            PromptFragment::Error(s) => FragmentV::Error(s@),
            PromptFragment::Custom { name, payload } => FragmentV::Custom(name@, payload@),
        }
    }
}

/// What a stream's writer waits for.
#[derive(Debug)]
pub enum StreamEvent {
    /// A piece of the reply came.
    Fragment(PromptFragment),
    /// Nobody can send pieces any more.
    SendersGone,
    /// The time for the reply is over.
    DeadlinePassed,
    /// The stream was silent for a while.
    HeartbeatDue,
}

/// The model of a [`StreamEvent`].
pub enum EventV {
    Fragment(FragmentV),
    SendersGone,
    DeadlinePassed,
    HeartbeatDue,
}

impl View for StreamEvent {
    type V = EventV;

    open spec fn view(&self) -> EventV {
        match self {
            StreamEvent::Fragment(f) => EventV::Fragment(f@),
            StreamEvent::SendersGone => EventV::SendersGone,
            StreamEvent::DeadlinePassed => EventV::DeadlinePassed,
            StreamEvent::HeartbeatDue => EventV::HeartbeatDue,
        }
    }
}

/// The answer to a prompt whose reply is complete.
pub open spec fn stop_result(cancelled: bool) -> JsonV {
    JsonV::Object(
        Seq::empty().push(
            (
                "stopReason"@,
                JsonV::Text(
                    if cancelled {
                        "cancelled"@
                    } else {
                        "end_turn"@
                    },
                ),
            ),
        ),
    )
}

/// What is written to a stream for an event, piece by piece.
pub open spec fn frames_for(session_id: Seq<char>, id: Option<Json>, event: EventV) -> Seq<
    Seq<char>,
> {
    match event {
        EventV::Fragment(FragmentV::Chunk(content)) => seq![
            sse(
                json_text(update_envelope(session_id, text_update("agent_message_chunk"@, content))),
            ),
        ],
        EventV::Fragment(FragmentV::Custom(name, payload)) => seq![
            sse(json_text(update_envelope(session_id, custom_update(name, payload)))),
        ],
        EventV::Fragment(FragmentV::Full(content, cancelled)) => seq![
            sse(json_text(update_envelope(session_id, text_update("agent_message"@, content)))),
            sse(result_body(id, stop_result(cancelled))),
        ],
        EventV::Fragment(FragmentV::End(cancelled)) => seq![
            sse(result_body(id, stop_result(cancelled))),
        ],
        EventV::Fragment(FragmentV::Error(content)) => seq![
            sse(error_body(id, JSONRPC_SERVER_ERROR, without_error_mark(content))),
        ],
        EventV::SendersGone => seq![
            sse(error_body(id, JSONRPC_INTERNAL_ERROR, "agent session closed"@)),
        ],
        EventV::DeadlinePassed => seq![
            sse(error_body(id, JSONRPC_INTERNAL_ERROR, "session/prompt timed out"@)),
        ],
        EventV::HeartbeatDue => seq![":ka\n\n"@],
    }
}

/// Whether an event ends a stream.
pub open spec fn ends_stream(event: EventV) -> bool {
    match event {
        EventV::Fragment(FragmentV::Chunk(_)) => false,
        EventV::Fragment(FragmentV::Custom(_, _)) => false,
        EventV::HeartbeatDue => false,
        _ => true,
    }
}

/// What is written to a stream for an event, and whether the stream then ends. A
/// piece that cannot be written ends it too.
#[derive(Debug)]
pub struct StreamStep {
    pub frames: Vec<String>,
    pub done: bool,
}

fn stop_text(id: &Option<Json>, cancelled: bool) -> (r: String)
    ensures
        r@ == sse(result_body(*id, stop_result(cancelled))),
{
    let mut result = no_fields();
    put_text(
        &mut result,
        "stopReason",
        if cancelled {
            "cancelled"
        } else {
            "end_turn"
        },
    );
    let body = json_rpc_result(id, object(result));
    sse_text(body.as_str())
}

fn error_text(id: &Option<Json>, code: i64, message: &str) -> (r: String)
    ensures
        r@ == sse(error_body(*id, code, message@)),
{
    let body = json_rpc_error(id, code, message);
    sse_text(body.as_str())
}

impl AcpHttpChannel {
    /// The head of the stream that carries a reply.
    pub fn stream_start(&self) -> (r: String)
        ensures
            r@ == stream_head(self.cors()),
    {
        stream_head_text(self.http_config.auth_token.is_none())
    }

    /// What is written to a stream for an event, and whether the stream then ends.
    pub fn stream_prompt_response(
        session_id: &str,
        id: &Option<Json>,
        event: StreamEvent,
    ) -> (r: StreamStep)
        ensures
            r.frames.deep_view() == frames_for(session_id@, *id, event@),
            r.done == ends_stream(event@),
    {
        let mut frames: Vec<String> = Vec::new();
        let done = match event {
            StreamEvent::Fragment(PromptFragment::Chunk(content)) => {
                let update = session_text_update(
                    session_id,
                    "agent_message_chunk",
                    content.as_str(),
                );
                frames.push(sse_text(update.as_str()));
                false
            },
            StreamEvent::Fragment(PromptFragment::Custom { name, payload }) => {
                let update = session_custom_update(session_id, name.as_str(), &payload);
                frames.push(sse_text(update.as_str()));
                false
            },
            StreamEvent::Fragment(PromptFragment::Full { content, cancelled }) => {
                let update = session_text_update(session_id, "agent_message", content.as_str());
                frames.push(sse_text(update.as_str()));
                frames.push(stop_text(id, cancelled));
                true
            },
            StreamEvent::Fragment(PromptFragment::End { cancelled }) => {
                frames.push(stop_text(id, cancelled));
                true
            },
            StreamEvent::Fragment(PromptFragment::Error(content)) => {
                let words = strip_agent_error_prefix(content.as_str());
                frames.push(error_text(id, JSONRPC_SERVER_ERROR, words.as_str()));
                true
            },
            StreamEvent::SendersGone => {
                frames.push(error_text(id, JSONRPC_INTERNAL_ERROR, "agent session closed"));
                true
            },
            StreamEvent::DeadlinePassed => {
                frames.push(error_text(id, JSONRPC_INTERNAL_ERROR, "session/prompt timed out"));
                true
            },
            StreamEvent::HeartbeatDue => {
                frames.push(text(":ka\n\n"));
                false
            },
        };
        proof {
            assert(frames.deep_view() =~= frames_for(session_id@, *id, event@));
        }
        StreamStep { frames, done }
    }
}

// ---------------------------------------------------------------------------
// Laws
// ---------------------------------------------------------------------------
/// A piece of a reply reaches the client as it is: one event, with the notification
/// that this text came in this session.
pub proof fn law_pieces_reach_the_client(
    session_id: Seq<char>,
    id: Option<Json>,
    content: Seq<char>,
)
    ensures
        ({
            let frames = frames_for(session_id, id, EventV::Fragment(FragmentV::Chunk(content)));
            &&& frames.len() == 1
            &&& exists|u: JsonV| #[trigger]
                notifies_of_text(u, session_id, "agent_message_chunk"@, content) && frames[0]
                    == "data: "@ + json_text(u) + "\n\n"@
        }),
        !ends_stream(EventV::Fragment(FragmentV::Chunk(content))),
{
    law_updates_carry_what_came(session_id, "agent_message_chunk"@, content, ""@, JsonV::Null);
    let u = update_envelope(session_id, text_update("agent_message_chunk"@, content));
    assert(notifies_of_text(u, session_id, "agent_message_chunk"@, content));
}

/// A custom event reaches the client as it is, and the stream goes on.
pub proof fn law_events_reach_the_client(
    session_id: Seq<char>,
    id: Option<Json>,
    name: Seq<char>,
    payload: JsonV,
)
    ensures
        ({
            let event = EventV::Fragment(FragmentV::Custom(name, payload));
            let frames = frames_for(session_id, id, event);
            &&& !ends_stream(event)
            &&& frames.len() == 1
            &&& exists|u: JsonV| #[trigger]
                notifies_of_event(u, session_id, name, payload) && frames[0] == "data: "@
                    + json_text(u) + "\n\n"@
        }),
{
    law_updates_carry_what_came(session_id, ""@, ""@, name, payload);
    let u = update_envelope(session_id, custom_update(name, payload));
    assert(notifies_of_event(u, session_id, name, payload));
}

/// Whether a value answers a request with why its reply ended.
pub open spec fn answers_with_stop(u: JsonV, id: Option<Json>, cancelled: bool) -> bool {
    &&& at(u, "id"@) == Some(
        match id {
            Some(j) => j@,
            None => JsonV::Null,
        },
    )
    &&& at(u, "error"@) is None
    &&& says(
        inner(u, "result"@),
        "stopReason"@,
        if cancelled {
            "cancelled"@
        } else {
            "end_turn"@
        },
    )
}

/// A reply that comes whole reaches the client as its text and then as the answer to
/// the prompt, which says why the reply ended; the end of one that came in pieces is
/// that answer alone. Both end the stream.
pub proof fn law_whole_replies_reach_the_client(
    session_id: Seq<char>,
    id: Option<Json>,
    content: Seq<char>,
    cancelled: bool,
)
    ensures
        ({
            let event = EventV::Fragment(FragmentV::Full(content, cancelled));
            let frames = frames_for(session_id, id, event);
            &&& ends_stream(event)
            &&& frames.len() == 2
            &&& exists|u: JsonV| #[trigger]
                notifies_of_text(u, session_id, "agent_message"@, content) && frames[0] == "data: "@
                    + json_text(u) + "\n\n"@
            &&& exists|u: JsonV| #[trigger]
                answers_with_stop(u, id, cancelled) && frames[1] == "data: "@ + json_text(u)
                    + "\n\n"@
        }),
        ({
            let event = EventV::Fragment(FragmentV::End(cancelled));
            let frames = frames_for(session_id, id, event);
            &&& ends_stream(event)
            &&& frames.len() == 1
            &&& exists|u: JsonV| #[trigger]
                answers_with_stop(u, id, cancelled) && frames[0] == "data: "@ + json_text(u)
                    + "\n\n"@
        }),
{
    law_updates_carry_what_came(session_id, "agent_message"@, content, ""@, JsonV::Null);
    let u = update_envelope(session_id, text_update("agent_message"@, content));
    assert(notifies_of_text(u, session_id, "agent_message"@, content));
    let stop = stop_result(cancelled);
    law_answers_hold_what_they_answer(id, stop, 0, ""@);
    law_answers_echo_the_id(id, stop, 0, ""@);
    let a = result_envelope(id, stop);
    let reason = if cancelled {
        "cancelled"@
    } else {
        "end_turn"@
    };
    assert(says(stop, "stopReason"@, reason));
    assert(answers_with_stop(a, id, cancelled));
    assert(frames_for(session_id, id, EventV::Fragment(FragmentV::End(cancelled)))[0] == "data: "@
        + json_text(a) + "\n\n"@);
    assert(frames_for(session_id, id, EventV::Fragment(FragmentV::Full(content, cancelled)))[1]
        == "data: "@ + json_text(a) + "\n\n"@);
}

/// A failure, a reply that nobody can finish, and one that takes too long are answered
/// with an error, and the stream ends; a silent stream is kept open by a comment.
pub proof fn law_failures_reach_the_client(
    session_id: Seq<char>,
    id: Option<Json>,
    words: Seq<char>,
)
    ensures
        ({
            let event = EventV::Fragment(FragmentV::Error("Error: "@ + words));
            let frames = frames_for(session_id, id, event);
            &&& ends_stream(event)
            &&& frames.len() == 1
            &&& exists|u: JsonV| #[trigger]
                answers_with_error(u, id, -32000, words) && frames[0] == "data: "@ + json_text(u)
                    + "\n\n"@
        }),
        ({
            let frames = frames_for(session_id, id, EventV::SendersGone);
            &&& ends_stream(EventV::SendersGone)
            &&& frames.len() == 1
            &&& exists|u: JsonV| #[trigger]
                answers_with_error(u, id, -32603, "agent session closed"@) && frames[0]
                    == "data: "@ + json_text(u) + "\n\n"@
        }),
        ({
            let frames = frames_for(session_id, id, EventV::DeadlinePassed);
            &&& ends_stream(EventV::DeadlinePassed)
            &&& frames.len() == 1
            &&& exists|u: JsonV| #[trigger]
                answers_with_error(u, id, -32603, "session/prompt timed out"@) && frames[0]
                    == "data: "@ + json_text(u) + "\n\n"@
        }),
        !ends_stream(EventV::HeartbeatDue),
        frames_for(session_id, id, EventV::HeartbeatDue) == seq![":ka\n\n"@],
{
    law_error_marks_are_dropped(words);
    lemma_error_answers(id, JSONRPC_SERVER_ERROR, words);
    lemma_error_answers(id, JSONRPC_INTERNAL_ERROR, "agent session closed"@);
    lemma_error_answers(id, JSONRPC_INTERNAL_ERROR, "session/prompt timed out"@);
}

/// What a stream is told holds what its model holds.
pub proof fn law_stream_events_hold_what_came(event: StreamEvent)
    ensures
        match event {
            StreamEvent::Fragment(PromptFragment::Chunk(s)) => event@ == EventV::Fragment(
                FragmentV::Chunk(s@),
            ),
            StreamEvent::Fragment(PromptFragment::Full { content, cancelled }) => event@
                == EventV::Fragment(FragmentV::Full(content@, cancelled)),
            StreamEvent::Fragment(PromptFragment::End { cancelled }) => event@ == EventV::Fragment(
                FragmentV::End(cancelled),
            ),
            StreamEvent::Fragment(PromptFragment::Error(s)) => event@ == EventV::Fragment(
                FragmentV::Error(s@),
            ),
            StreamEvent::Fragment(PromptFragment::Custom { name, payload }) => event@
                == EventV::Fragment(FragmentV::Custom(name@, payload@)),
            StreamEvent::SendersGone => event@ is SendersGone,
            StreamEvent::DeadlinePassed => event@ is DeadlinePassed,
            StreamEvent::HeartbeatDue => event@ is HeartbeatDue,
        },
{
}

} // verus!
