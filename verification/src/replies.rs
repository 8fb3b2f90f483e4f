//! The messages by which a run of the agent answers its channel, whole or piece
//! by piece.
use vstd::prelude::*;

use crate::a2ui::{extract_a2ui_messages_from_response, extracted, next_surface, takes_surface};
use crate::agui_events::A2UI;
use crate::bus::{
    outbound_views, plain_outbound, InboundMessage, InboundV, OutboundMessage, OutboundMessageKind,
    OutboundV, OUTBOUND_ERROR_KEY,
};
use crate::format::resolve_streamed_response_text;
use crate::json::{items_view, json_text, Json, JsonV};
use crate::loop_events::{a2ui_event, custom_event, shows_custom_events, supports_custom_ui_channel};
use crate::number::{decimal, decimal_text};
use crate::text::{is_space, law_blank_texts, put, text, trim};
use crate::tool_helpers::{propagate_routing_metadata, routed};

verus! {

/// How a run ended.
#[derive(Debug)]
pub enum RunOutcome {
    /// With a reply.
    Reply(String),
    /// With an error.
    Failed(String),
    /// It took too long.
    TimedOut,
}

/// The model of a [`RunOutcome`].
pub enum RunV {
    Reply(Seq<char>),
    Failed(Seq<char>),
    TimedOut,
}

impl View for RunOutcome {
    type V = RunV;

    open spec fn view(&self) -> RunV {
        match self {
            RunOutcome::Reply(t) => RunV::Reply(t@),
            RunOutcome::Failed(e) => RunV::Failed(e@),
            RunOutcome::TimedOut => RunV::TimedOut,
        }
    }
}

/// A reply to a message, routed to its thread.
pub open spec fn reply_to(
    msg: InboundV,
    content: Seq<char>,
    kind: OutboundMessageKind,
) -> OutboundV {
    OutboundV {
        kind,
        metadata: routed(Map::empty(), msg.metadata),
        ..plain_outbound(msg.channel, msg.chat_id, content)
    }
}

/// The report of a failure, routed to its thread.
pub open spec fn failure_for(msg: InboundV, content: Seq<char>) -> OutboundV {
    OutboundV {
        metadata: routed(Map::empty().insert(OUTBOUND_ERROR_KEY@, "true"@), msg.metadata),
        ..plain_outbound(msg.channel, msg.chat_id, content)
    }
}

/// What the user reads when a run took too long.
pub open spec fn timeout_note(secs: u64) -> Seq<char> {
    "Agent run timed out after "@ + decimal(secs as nat) + "s. Try a simpler request."@
}

/// The text of a reply and its UI messages. Channels that show no custom events
/// get the reply as it is.
pub open spec fn shown(msg: InboundV, content: Seq<char>, surface: u64) -> (
    Seq<char>,
    Seq<JsonV>,
) {
    if shows_custom_events(msg.channel) {
        extracted(content, surface)
    } else {
        (content, seq![])
    }
}

/// The surface number after a reply.
pub open spec fn surface_after(msg: InboundV, content: Seq<char>, surface: u64) -> u64 {
    if shows_custom_events(msg.channel) && takes_surface(content) {
        next_surface(surface)
    } else {
        surface
    }
}

/// The events that carry UI messages to a client.
pub open spec fn ui_events(msg: InboundV, messages: Seq<JsonV>) -> Seq<OutboundV> {
    messages.map_values(
        |m: JsonV|
            custom_event(msg.channel, msg.chat_id, A2UI@, json_text(m), Some("[a2ui] update"@)),
    )
}

/// The messages by which a run answers: UI events come before the text.
pub open spec fn run_messages(
    msg: InboundV,
    run: RunV,
    timeout_secs: u64,
    surface: u64,
) -> Seq<OutboundV> {
    match run {
        RunV::Reply(content) => {
            let (body, ui) = shown(msg, content, surface);
            ui_events(msg, ui).push(reply_to(msg, body, OutboundMessageKind::Full))
        },
        RunV::Failed(e) => seq![failure_for(msg, "Error: "@ + e)],
        RunV::TimedOut => seq![
            reply_to(msg, timeout_note(timeout_secs), OutboundMessageKind::Full),
        ],
    }
}

fn reply(msg: &InboundMessage, content: &str, kind: OutboundMessageKind) -> (r: OutboundMessage)
    ensures
        r@ == reply_to(msg@, content@, kind),
{
    let mut out = OutboundMessage::new(
        msg.channel.as_str(),
        msg.chat_id.as_str(),
        content,
    ).with_kind(kind);
    propagate_routing_metadata(&mut out, msg);
    out
}

fn failure(msg: &InboundMessage, content: &str) -> (r: OutboundMessage)
    ensures
        r@ == failure_for(msg@, content@),
{
    let mut out = OutboundMessage::new(msg.channel.as_str(), msg.chat_id.as_str(), content);
    out.mark_error();
    propagate_routing_metadata(&mut out, msg);
    out
}

fn error_text(e: &str) -> (r: String)
    ensures
        r@ == "Error: "@ + e@,
{
    let mut s = text("Error: ");
    put(&mut s, e);
    s
}

fn timeout_text(secs: u64) -> (r: String)
    ensures
        r@ == timeout_note(secs),
{
    let mut s = text("Agent run timed out after ");
    put(&mut s, decimal_text(secs).as_str());
    put(&mut s, "s. Try a simpler request.");
    s
}

fn one(m: OutboundMessage) -> (r: Vec<OutboundMessage>)
    ensures
        outbound_views(r@) == seq![m@],
{
    let mut v: Vec<OutboundMessage> = Vec::new();
    v.push(m);
    proof {
        assert(outbound_views(v@) =~= seq![m@]);
    }
    v
}

fn show(msg: &InboundMessage, content: &str, surface: &mut u64) -> (r: (String, Vec<Json>))
    ensures
        r.0@ == shown(msg@, content@, *old(surface)).0,
        items_view(r.1@) == shown(msg@, content@, *old(surface)).1,
        *final(surface) == surface_after(msg@, content@, *old(surface)),
{
    if supports_custom_ui_channel(msg.channel.as_str()) {
        return extract_a2ui_messages_from_response(content, surface);
    }
    let none: Vec<Json> = Vec::new();
    proof {
        assert(items_view(none@) =~= Seq::<JsonV>::empty());
    }
    (text(content), none)
}

/// The events that carry UI messages to a client; none for a channel that shows
/// no custom events.
pub fn emit_a2ui_messages(msg: &InboundMessage, messages: &Vec<Json>) -> (r: Vec<OutboundMessage>)
    ensures
        outbound_views(r@) == (if shows_custom_events(msg@.channel) {
            ui_events(msg@, items_view(messages@))
        } else {
            seq![]
        }),
{
    if !supports_custom_ui_channel(msg.channel.as_str()) {
        let none: Vec<OutboundMessage> = Vec::new();
        proof {
            assert(outbound_views(none@) =~= Seq::<OutboundV>::empty());
        }
        return none;
    }
    let ghost all = ui_events(msg@, items_view(messages@));
    let mut out: Vec<OutboundMessage> = Vec::new();
    let mut i: usize = 0;
    proof {
        assert(items_view(messages@).len() == messages@.len());
        assert(outbound_views(out@) =~= all.take(0));
    }
    while i < messages.len()
        invariant
            i <= messages@.len(),
            shows_custom_events(msg@.channel),
            items_view(messages@).len() == messages@.len(),
            all == ui_events(msg@, items_view(messages@)),
            outbound_views(out@) == all.take(i as int),
        decreases messages@.len() - i,
    {
        let ghost before = out@;
        let event = a2ui_event(msg.channel.as_str(), msg.chat_id.as_str(), &messages[i]);
        proof {
            assert(items_view(messages@)[i as int] == messages@[i as int]@);
        }
        if let Some(e) = event {
            out.push(e);
            proof {
                assert(outbound_views(out@) =~= outbound_views(before).push(all[i as int]));
            }
        }
        proof {
            assert(all.take(i + 1) =~= all.take(i as int).push(all[i as int]));
        }
        i = i + 1;
    }
    proof {
        assert(all.take(messages@.len() as int) =~= all);
    }
    out
}

fn with_ui(
    msg: &InboundMessage,
    ui: &Vec<Json>,
    last: OutboundMessage,
) -> (r: Vec<OutboundMessage>)
    requires
        ui@.len() > 0 ==> shows_custom_events(msg@.channel),
    ensures
        outbound_views(r@) == ui_events(msg@, items_view(ui@)).push(last@),
{
    let mut out: Vec<OutboundMessage> = if ui.len() > 0 {
        emit_a2ui_messages(msg, ui)
    } else {
        Vec::new()
    };
    proof {
        assert(items_view(ui@).len() == ui@.len());
        assert(outbound_views(out@) =~= ui_events(msg@, items_view(ui@)));
    }
    let ghost before = out@;
    out.push(last);
    proof {
        assert(outbound_views(out@) =~= outbound_views(before).push(last@));
    }
    out
}

/// The messages by which a run answers, and whether it was completed.
pub fn process_inbound_message(
    msg: &InboundMessage,
    run: &RunOutcome,
    timeout_secs: u64,
    surface: &mut u64,
) -> (r: (Vec<OutboundMessage>, bool))
    ensures
        outbound_views(r.0@) == run_messages(msg@, run@, timeout_secs, *old(surface)),
        r.1 == (run@ is Reply),
        *final(surface) == (match run@ {
            RunV::Reply(content) => surface_after(msg@, content, *old(surface)),
            _ => *old(surface),
        }),
{
    match run {
        RunOutcome::Reply(content) => {
            let (body, ui) = show(msg, content.as_str(), surface);
            proof {
                assert(items_view(ui@).len() == ui@.len());
            }
            let last = reply(msg, body.as_str(), OutboundMessageKind::Full);
            (with_ui(msg, &ui, last), true)
        },
        RunOutcome::Failed(e) => (one(failure(msg, error_text(e.as_str()).as_str())), false),
        RunOutcome::TimedOut => (
            one(reply(msg, timeout_text(timeout_secs).as_str(), OutboundMessageKind::Full)),
            false,
        ),
    }
}

// ---------------------------------------------------------------------------
// Streamed replies
// ---------------------------------------------------------------------------
/// What a provider tells while it streams.
#[derive(Debug)]
pub enum StreamEvent {
    /// A piece of text.
    Delta(String),
    /// The end, with the whole text.
    Done(String),
    /// Tool calls, which the last call of a turn has no use for.
    ToolCalls,
    /// An error.
    Error(String),
}

/// The model of a [`StreamEvent`].
pub enum StreamV {
    Delta(Seq<char>),
    Done(Seq<char>),
    ToolCalls,
    Error(Seq<char>),
}

impl View for StreamEvent {
    type V = StreamV;

    open spec fn view(&self) -> StreamV {
        match self {
            StreamEvent::Delta(t) => StreamV::Delta(t@),
            StreamEvent::Done(t) => StreamV::Done(t@),
            StreamEvent::ToolCalls => StreamV::ToolCalls,
            StreamEvent::Error(e) => StreamV::Error(e@),
        }
    }
}

/// How far a streamed reply is.
#[derive(Debug)]
pub struct StreamedReply {
    had_delta: bool,
    streamed: String,
    final_content: String,
    failure: Option<String>,
    over: bool,
}

/// The model of a [`StreamedReply`].
#[verifier::ext_equal]
pub struct StreamedV {
    /// Whether a piece came.
    pub had_delta: bool,
    /// The pieces, put together.
    pub streamed: Seq<char>,
    /// The text of the reply, once it is over.
    pub final_content: Seq<char>,
    /// What went wrong.
    pub failure: Option<Seq<char>>,
    /// Whether the reply is over.
    pub over: bool,
}

impl View for StreamedReply {
    type V = StreamedV;

    closed spec fn view(&self) -> StreamedV {
        StreamedV {
            had_delta: self.had_delta,
            streamed: self.streamed@,
            final_content: self.final_content@,
            failure: self.failure.deep_view(),
            over: self.over,
        }
    }
}

/// The text of a streamed reply: what its end says, or the pieces where that is
/// blank.
pub open spec fn final_text(streamed: Seq<char>, done: Seq<char>) -> Seq<char> {
    if trim(done).len() == 0 {
        streamed
    } else {
        done
    }
}

impl StreamedV {
    /// A reply of which nothing came yet.
    pub open spec fn initial() -> StreamedV {
        StreamedV {
            had_delta: false,
            streamed: seq![],
            final_content: seq![],
            failure: None,
            over: false,
        }
    }

    /// The reply after an event; what comes after the end changes nothing.
    pub open spec fn after(self, event: StreamV) -> StreamedV {
        if self.over {
            self
        } else {
            match event {
                StreamV::Delta(t) => StreamedV {
                    had_delta: true,
                    streamed: self.streamed + t,
                    ..self
                },
                StreamV::Done(t) => StreamedV {
                    final_content: final_text(self.streamed, t),
                    over: true,
                    ..self
                },
                StreamV::ToolCalls => StreamedV {
                    final_content: self.streamed,
                    over: true,
                    ..self
                },
                StreamV::Error(e) => StreamedV { failure: Some(e), over: true, ..self },
            }
        }
    }

    /// What an event sends to the client.
    pub open spec fn sends(self, msg: InboundV, event: StreamV) -> Option<OutboundV> {
        match event {
            StreamV::Delta(t) => if self.over {
                None
            } else {
                Some(reply_to(msg, t, OutboundMessageKind::Chunk))
            },
            _ => None,
        }
    }

    /// The messages that close the reply: a client that got the pieces learns that
    /// they are all there, another one gets the whole text.
    pub open spec fn closing(
        self,
        msg: InboundV,
        timed_out: bool,
        timeout_secs: u64,
        surface: u64,
    ) -> Seq<OutboundV> {
        if timed_out {
            seq![failure_for(msg, timeout_note(timeout_secs))]
        } else {
            match self.failure {
                Some(e) => seq![failure_for(msg, "Error: "@ + e)],
                None => {
                    let (body, ui) = shown(msg, self.final_content, surface);
                    ui_events(msg, ui).push(
                        if self.had_delta {
                            reply_to(msg, ""@, OutboundMessageKind::ChunkEnd)
                        } else {
                            reply_to(msg, body, OutboundMessageKind::Full)
                        },
                    )
                },
            }
        }
    }

    /// The reply after several events.
    pub open spec fn after_all(self, events: Seq<StreamV>) -> StreamedV
        decreases events.len(),
    {
        if events.len() == 0 {
            self
        } else {
            self.after_all(events.drop_last()).after(events.last())
        }
    }

    /// The texts that several events send to the client, put together.
    pub open spec fn sent_text(self, msg: InboundV, events: Seq<StreamV>) -> Seq<char>
        decreases events.len(),
    {
        if events.len() == 0 {
            seq![]
        } else {
            let rest = self.sent_text(msg, events.drop_last());
            match self.after_all(events.drop_last()).sends(msg, events.last()) {
                Some(m) => rest + m.content,
                None => rest,
            }
        }
    }
}

impl StreamedReply {
    /// A reply of which nothing came yet.
    pub fn new() -> (r: Self)
        ensures
            r@ == StreamedV::initial(),
    {
        let r = StreamedReply {
            had_delta: false,
            streamed: String::new(),
            final_content: String::new(),
            failure: None,
            over: false,
        };
        proof {
            assert(r@ =~= StreamedV::initial());
        }
        r
    }

    /// Whether the reply is over.
    pub fn is_over(&self) -> (r: bool)
        ensures
            r == self@.over,
    {
        self.over
    }

    /// Takes an event in; what it sends to the client.
    pub fn on_event(&mut self, msg: &InboundMessage, event: &StreamEvent) -> (r: Option<
        OutboundMessage,
    >)
        ensures
            final(self)@ == old(self)@.after(event@),
            match r {
                Some(m) => old(self)@.sends(msg@, event@) == Some(m@),
                None => old(self)@.sends(msg@, event@) is None,
            },
    {
        if self.over {
            return None;
        }
        match event {
            StreamEvent::Delta(piece) => {
                self.had_delta = true;
                put(&mut self.streamed, piece.as_str());
                Some(reply(msg, piece.as_str(), OutboundMessageKind::Chunk))
            },
            StreamEvent::Done(content) => {
                self.final_content = resolve_streamed_response_text(
                    self.streamed.as_str(),
                    content.as_str(),
                );
                self.over = true;
                None
            },
            StreamEvent::ToolCalls => {
                self.final_content = self.streamed.clone();
                self.over = true;
                None
            },
            StreamEvent::Error(e) => {
                self.failure = Some(e.clone());
                self.over = true;
                None
            },
        }
    }

    /// The messages that close the reply, and whether the run was completed.
    pub fn finish(
        &self,
        msg: &InboundMessage,
        timed_out: bool,
        timeout_secs: u64,
        surface: &mut u64,
    ) -> (r: (Vec<OutboundMessage>, bool))
        ensures
            outbound_views(r.0@) == self@.closing(msg@, timed_out, timeout_secs, *old(surface)),
            r.1 == (!timed_out && self@.failure is None),
            *final(surface) == (if !timed_out && self@.failure is None {
                surface_after(msg@, self@.final_content, *old(surface))
            } else {
                *old(surface)
            }),
    {
        if timed_out {
            return (one(failure(msg, timeout_text(timeout_secs).as_str())), false);
        }
        match &self.failure {
            Some(e) => (one(failure(msg, error_text(e.as_str()).as_str())), false),
            None => {
                let (body, ui) = show(msg, self.final_content.as_str(), surface);
                proof {
                    assert(items_view(ui@).len() == ui@.len());
                }
                let last = if self.had_delta {
                    reply(msg, "", OutboundMessageKind::ChunkEnd)
                } else {
                    reply(msg, body.as_str(), OutboundMessageKind::Full)
                };
                (with_ui(msg, &ui, last), true)
            },
        }
    }
}

// ---------------------------------------------------------------------------
// Laws
// ---------------------------------------------------------------------------
/// The pieces that a client gets are, put together, the text that was streamed.
pub proof fn law_pieces_make_the_stream(msg: InboundV, events: Seq<StreamV>)
    ensures
        StreamedV::initial().sent_text(msg, events) == StreamedV::initial().after_all(
            events,
        ).streamed,
    decreases events.len(),
{
    let s = StreamedV::initial();
    if events.len() > 0 {
        law_pieces_make_the_stream(msg, events.drop_last());
        assert(s.sent_text(msg, events) =~= s.after_all(events).streamed);
    } else {
        assert(s.sent_text(msg, events) =~= s.streamed);
    }
}

/// The text of a reply is sent once: a client that got pieces is not sent the text
/// again, and one that got none is sent it whole.
pub proof fn law_text_is_sent_once(
    msg: InboundV,
    reply: StreamedV,
    timeout_secs: u64,
    surface: u64,
)
    requires
        reply.failure is None,
    ensures
        reply.had_delta ==> reply.closing(msg, false, timeout_secs, surface).last().content
            == ""@ && reply.closing(msg, false, timeout_secs, surface).last().kind
            == OutboundMessageKind::ChunkEnd,
        !reply.had_delta ==> reply.closing(msg, false, timeout_secs, surface).last().content
            == shown(msg, reply.final_content, surface).0 && reply.closing(
            msg,
            false,
            timeout_secs,
            surface,
        ).last().kind == OutboundMessageKind::Full,
{
}

/// A run that failed is reported once and as a failure, whether its reply was
/// streamed or not.
pub proof fn law_failures_are_marked(
    msg: InboundV,
    e: Seq<char>,
    reply: StreamedV,
    timeout_secs: u64,
    surface: u64,
)
    requires
        reply.failure == Some(e),
    ensures
        run_messages(msg, RunV::Failed(e), timeout_secs, surface) == reply.closing(
            msg,
            false,
            timeout_secs,
            surface,
        ),
        reply.closing(msg, false, timeout_secs, surface).len() == 1,
        reply.closing(msg, false, timeout_secs, surface)[0].is_error(),
        reply.closing(msg, true, timeout_secs, surface).len() == 1,
        reply.closing(msg, true, timeout_secs, surface)[0].is_error(),
{
    reveal_strlit("error");
    reveal_strlit("telegram_thread_id");
    reveal_strlit("telegram_message_id");
    reveal_strlit("discord_message_id");
    assert(OUTBOUND_ERROR_KEY@ == "error"@);
    assert("error"@.len() != "telegram_thread_id"@.len());
    assert("error"@.len() != "telegram_message_id"@.len());
    assert("error"@.len() != "discord_message_id"@.len());
}

/// A channel that shows no custom events gets a reply as it is, in one message.
pub proof fn law_plain_channels_get_one_message(
    msg: InboundV,
    content: Seq<char>,
    timeout_secs: u64,
    surface: u64,
)
    requires
        !shows_custom_events(msg.channel),
    ensures
        run_messages(msg, RunV::Reply(content), timeout_secs, surface) == seq![
            reply_to(msg, content, OutboundMessageKind::Full),
        ],
{
    assert(run_messages(msg, RunV::Reply(content), timeout_secs, surface) =~= seq![
        reply_to(msg, content, OutboundMessageKind::Full),
    ]);
}

/// A reply goes to the channel and the chat of the message that it answers, into the
/// thread that the message names, and says what was to be said. A report of a failure
/// is marked as such.
pub proof fn law_replies_go_back_to_the_sender(
    msg: InboundV,
    content: Seq<char>,
    kind: OutboundMessageKind,
    key: Seq<char>,
)
    ensures
        reply_to(msg, content, kind).channel == msg.channel,
        reply_to(msg, content, kind).chat_id == msg.chat_id,
        reply_to(msg, content, kind).content == content,
        reply_to(msg, content, kind).kind == kind,
        !reply_to(msg, content, kind).metadata.contains_key("error"@),
        failure_for(msg, content).channel == msg.channel,
        failure_for(msg, content).chat_id == msg.chat_id,
        failure_for(msg, content).content == content,
        failure_for(msg, content).kind == OutboundMessageKind::Full,
        failure_for(msg, content).metadata.contains_key("error"@),
        failure_for(msg, content).metadata["error"@] == "true"@,
        (key == "telegram_thread_id"@ || key == "telegram_message_id"@ || key
            == "discord_message_id"@) && msg.metadata.contains_key(key) ==> {
            &&& reply_to(msg, content, kind).metadata.contains_key(key)
            &&& reply_to(msg, content, kind).metadata[key] == msg.metadata[key]
            &&& failure_for(msg, content).metadata.contains_key(key)
            &&& failure_for(msg, content).metadata[key] == msg.metadata[key]
        },
{
    reveal_strlit("error");
    reveal_strlit("telegram_thread_id");
    reveal_strlit("telegram_message_id");
    reveal_strlit("discord_message_id");
    assert("error"@.len() == 5 && "telegram_thread_id"@.len() == 18 && "telegram_message_id"@.len()
        == 19 && "discord_message_id"@.len() == 18);
    assert("telegram_thread_id"@[0] == 't' && "discord_message_id"@[0] == 'd');
}

/// A run answers once: with its reply, whose text comes last and behind the events of
/// its user interface, with the words of its error, or with the note that it took too
/// long.
pub proof fn law_runs_answer_once(
    msg: InboundV,
    content: Seq<char>,
    e: Seq<char>,
    timeout_secs: u64,
    surface: u64,
)
    ensures
        run_messages(msg, RunV::Failed(e), timeout_secs, surface).len() == 1,
        run_messages(msg, RunV::Failed(e), timeout_secs, surface)[0].content == "Error: "@ + e,
        run_messages(msg, RunV::TimedOut, timeout_secs, surface).len() == 1,
        run_messages(msg, RunV::TimedOut, timeout_secs, surface)[0].content
            == "Agent run timed out after "@ + decimal(timeout_secs as nat)
            + "s. Try a simpler request."@,
        !(msg.channel == "acp"@ || msg.channel == "acp_http"@) ==> run_messages(
            msg,
            RunV::Reply(content),
            timeout_secs,
            surface,
        ).len() == 1 && run_messages(
            msg,
            RunV::Reply(content),
            timeout_secs,
            surface,
        )[0].content == content,
        msg.channel == "acp"@ || msg.channel == "acp_http"@ ==> {
            let all = run_messages(msg, RunV::Reply(content), timeout_secs, surface);
            let (body, ui) = extracted(content, surface);
            &&& all.len() == ui.len() + 1
            &&& all.last().content == body
            &&& all.last().kind == OutboundMessageKind::Full
            &&& forall|i: int|
                0 <= i < ui.len() ==> {
                    let m = #[trigger] all[i];
                    &&& m.kind == OutboundMessageKind::Custom
                    &&& m.channel == msg.channel
                    &&& m.chat_id == msg.chat_id
                    &&& m.metadata.contains_key("custom.name"@)
                    &&& m.metadata["custom.name"@] == "a2ui"@
                    &&& m.metadata.contains_key("custom.payload"@)
                    &&& m.metadata["custom.payload"@] == json_text(ui[i])
                }
        },
{
    reveal_strlit("custom.name");
    reveal_strlit("custom.payload");
    reveal_strlit("custom.summary");
    assert("custom.name"@.len() == 11 && "custom.payload"@.len() == 14 && "custom.summary"@.len()
        == 14);
    assert("custom.payload"@[7] == 'p' && "custom.summary"@[7] == 's');
}

/// A streamed piece is sent as it is, and the pieces are put together in their order.
/// The end of a stream gives the text of the reply, or the pieces do where it is blank;
/// an error is kept as it is. What comes after the end changes and sends nothing.
pub proof fn law_streams_are_followed(
    reply: StreamedV,
    msg: InboundV,
    piece: Seq<char>,
    event: StreamV,
)
    ensures
        !reply.over ==> {
            &&& reply.sends(msg, StreamV::Delta(piece)) matches Some(m) && m.content == piece
                && m.kind == OutboundMessageKind::Chunk && m.channel == msg.channel && m.chat_id
                == msg.chat_id
            &&& reply.after(StreamV::Delta(piece)).streamed == reply.streamed + piece
            &&& reply.after(StreamV::Delta(piece)).had_delta
            &&& !reply.after(StreamV::Delta(piece)).over
            &&& reply.after(StreamV::Done(piece)).over
            &&& reply.after(StreamV::Done(piece)).failure == reply.failure
            &&& (exists|k: int| 0 <= k < piece.len() && !is_space(#[trigger] piece[k]))
                ==> reply.after(StreamV::Done(piece)).final_content == piece
            &&& (forall|k: int| 0 <= k < piece.len() ==> is_space(#[trigger] piece[k]))
                ==> reply.after(StreamV::Done(piece)).final_content == reply.streamed
            &&& reply.after(StreamV::ToolCalls).over
            &&& reply.after(StreamV::ToolCalls).final_content == reply.streamed
            &&& reply.after(StreamV::Error(piece)).over
            &&& reply.after(StreamV::Error(piece)).failure == Some(piece)
            &&& reply.sends(msg, StreamV::Done(piece)) is None
            &&& reply.sends(msg, StreamV::Error(piece)) is None
        },
        reply.over ==> reply.after(event) == reply && reply.sends(msg, event) is None,
{
    law_blank_texts(piece);
}

/// A streamed reply that failed, or took too long, is closed by one report that says
/// so.
pub proof fn law_failed_streams_are_closed(
    reply: StreamedV,
    msg: InboundV,
    e: Seq<char>,
    timeout_secs: u64,
    surface: u64,
)
    ensures
        reply.closing(msg, true, timeout_secs, surface).len() == 1,
        reply.closing(msg, true, timeout_secs, surface)[0].content == "Agent run timed out after "@
            + decimal(timeout_secs as nat) + "s. Try a simpler request."@,
        reply.failure == Some(e) ==> reply.closing(msg, false, timeout_secs, surface).len() == 1
            && reply.closing(msg, false, timeout_secs, surface)[0].content == "Error: "@ + e,
        reply.failure is None && !reply.had_delta && !(msg.channel == "acp"@ || msg.channel
            == "acp_http"@) ==> reply.closing(msg, false, timeout_secs, surface).len() == 1
            && reply.closing(msg, false, timeout_secs, surface)[0].content == reply.final_content,
        reply.failure is None && (msg.channel == "acp"@ || msg.channel == "acp_http"@)
            ==> reply.closing(msg, false, timeout_secs, surface).len() == extracted(
            reply.final_content,
            surface,
        ).1.len() + 1,
{
}

/// A chart that is drawn for a channel that shows it uses up the number of its surface;
/// nothing else does.
pub proof fn law_surfaces_are_numbered(msg: InboundV, content: Seq<char>, surface: u64)
    ensures
        (msg.channel == "acp"@ || msg.channel == "acp_http"@) && takes_surface(content) && surface
            < u64::MAX ==> surface_after(msg, content, surface) == surface + 1,
        !(msg.channel == "acp"@ || msg.channel == "acp_http"@) || !takes_surface(content)
            ==> surface_after(msg, content, surface) == surface,
{
}

/// How a run ended, and what a stream tells, hold what their models hold.
pub proof fn law_outcomes_hold_what_happened(run: RunOutcome, event: StreamEvent)
    ensures
        match run {
            RunOutcome::Reply(t) => run@ == RunV::Reply(t@),
            RunOutcome::Failed(e) => run@ == RunV::Failed(e@),
            RunOutcome::TimedOut => run@ is TimedOut,
        },
        match event {
            StreamEvent::Delta(t) => event@ == StreamV::Delta(t@),
            StreamEvent::Done(t) => event@ == StreamV::Done(t@),
            StreamEvent::ToolCalls => event@ is ToolCalls,
            StreamEvent::Error(e) => event@ == StreamV::Error(e@),
        },
{
}

} // verus!
