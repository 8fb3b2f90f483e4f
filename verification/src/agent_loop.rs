//! The agent: its switches, providers and tools, and the messages that wait for a
//! busy session.
use vstd::prelude::*;

use crate::approval::{maybe_text, ThreadKey, ThreadV};
use crate::bus::{
    inbound_views, plain_inbound, plain_outbound, InboundMessage, InboundV, OutboundMessage,
    OutboundV,
};
use crate::context::{current_day, is_day, BuilderV, ContextBuilder, PromptCapabilities};
use crate::json::{json_of_text, parse_json, Json, JsonV};
use crate::loop_events::{
    asks_for_stream, should_stream, shows_custom_events, supports_custom_ui_channel,
};
use crate::number::{decimal, decimal_text};
use crate::providers::LLMToolCall;
use crate::session::{push_all, text_message, CallV, Message, MessageV, Role};
use crate::split::{join, join_text, law_joined_texts_hold_each};
use crate::synthesis::{ChatOptions, ChatRequest};
use crate::text::{
    contains, law_parts_of_parts, lemma_holds_middle, occurs_at, put, starts_with, text,
};
use crate::textmap::TextMap;
use crate::tool_helpers::{
    find_tool, propagate_routing_metadata, routed, tool_named, ToolEntry, ToolV,
};

verus! {

/// What becomes of messages that came while their session was busy.
#[derive(Debug, Clone, Copy, PartialEq, Eq, Structural)]
pub enum MessageQueueMode {
    /// They come back as one message.
    Collect,
    /// They come back one by one.
    Followup,
}

/// Settings of an agent.
#[derive(Debug)]
pub struct AgentConfig {
    /// The model of messages that name none.
    pub model: String,
    /// Whether final answers are streamed at first.
    pub streaming: bool,
    pub agent_timeout_secs: u64,
    /// How long one tool call may take; zero means as long as a run.
    pub tool_timeout_secs: u64,
    pub message_queue_mode: MessageQueueMode,
    /// Whether the start of a long conversation is replaced by its summary.
    pub anchored_summary: bool,
    /// By how many messages a conversation grows from one summary to the next; so
    /// many stay out of the summary, too. Zero counts as one.
    pub anchor_step: usize,
    /// How long a summary may be, in tokens.
    pub summary_tokens: u32,
    /// The model that writes summaries; none means the provider's own.
    pub summary_model: Option<String>,
    /// Whether only paired devices are served.
    pub pairing: bool,
}

/// The model of an [`AgentConfig`].
pub struct ConfigV {
    pub model: Seq<char>,
    pub streaming: bool,
    pub agent_timeout_secs: u64,
    pub tool_timeout_secs: u64,
    pub message_queue_mode: MessageQueueMode,
    pub anchored_summary: bool,
    pub anchor_step: usize,
    pub summary_tokens: u32,
    pub summary_model: Option<Seq<char>>,
    pub pairing: bool,
}

impl View for AgentConfig {
    type V = ConfigV;

    open spec fn view(&self) -> ConfigV {
        ConfigV {
            model: self.model@,
            streaming: self.streaming,
            agent_timeout_secs: self.agent_timeout_secs,
            tool_timeout_secs: self.tool_timeout_secs,
            message_queue_mode: self.message_queue_mode,
            anchored_summary: self.anchored_summary,
            anchor_step: self.anchor_step,
            summary_tokens: self.summary_tokens,
            summary_model: self.summary_model.deep_view(),
            pairing: self.pairing,
        }
    }
}

/// How much of a session its summary covers.
#[derive(Debug, Clone, Copy, PartialEq, Eq, Structural)]
pub struct AnchoredSummaryState {
    /// How many of the first messages the summary covers.
    pub anchored_message_count: usize,
    /// How many of the first messages the last attempt took in.
    pub last_attempt_message_count: usize,
}

/// A conversation.
#[derive(Debug)]
pub struct Session {
    pub key: String,
    pub messages: Vec<Message>,
    pub summary: Option<String>,
}

/// The model of a [`Session`].
pub struct SessionTextV {
    pub key: Seq<char>,
    pub messages: Seq<MessageV>,
    pub summary: Option<Seq<char>>,
}

impl View for Session {
    type V = SessionTextV;

    open spec fn view(&self) -> SessionTextV {
        SessionTextV {
            key: self.key@,
            messages: self.messages.deep_view(),
            summary: self.summary.deep_view(),
        }
    }
}

/// What wakes a running agent.
#[derive(Debug, Clone, Copy, PartialEq, Eq, Structural)]
pub enum LoopEvent {
    /// The signal that goes with a stop.
    StopSignal,
    /// No more messages can come.
    Closed,
    /// A message came, and what was to be done about it is done.
    Served,
}

/// An agent. Providers stand outside it; it knows them by numbers.
pub struct AgentLoop {
    config: AgentConfig,
    context_builder: ContextBuilder,
    running: bool,
    streaming: bool,
    dry_run: bool,
    provider: Option<u64>,
    provider_registry: TextMap<u64>,
    tools: Vec<ToolEntry>,
    pending_messages: TextMap<Vec<InboundMessage>>,
    anchors: TextMap<AnchoredSummaryState>,
    thread_identity: Option<ThreadKey>,
}

/// The model of an [`AgentLoop`].
#[verifier::ext_equal]
pub struct LoopV {
    pub config: ConfigV,
    pub builder: BuilderV,
    pub running: bool,
    pub streaming: bool,
    pub dry_run: bool,
    pub provider: Option<u64>,
    pub registry: Map<Seq<char>, u64>,
    pub tools: Seq<ToolV>,
    pub pending: Map<Seq<char>, Seq<InboundV>>,
    pub anchors: Map<Seq<char>, AnchoredSummaryState>,
    /// Whose agent this is, where that is known.
    pub thread: Option<ThreadV>,
}

impl View for AgentLoop {
    type V = LoopV;

    closed spec fn view(&self) -> LoopV {
        LoopV {
            config: self.config@,
            builder: self.context_builder@,
            running: self.running,
            streaming: self.streaming,
            dry_run: self.dry_run,
            provider: self.provider,
            registry: self.provider_registry@,
            tools: self.tools.deep_view(),
            pending: queues(self.pending_messages@),
            anchors: self.anchors@,
            thread: match self.thread_identity {
                Some(key) => Some(key@),
                None => None,
            },
        }
    }
}

/// The messages that wait, by session.
pub open spec fn queues(m: Map<Seq<char>, Vec<InboundMessage>>) -> Map<
    Seq<char>,
    Seq<InboundV>,
> {
    m.map_values(|v: Vec<InboundMessage>| inbound_views(v@))
}

/// A metadata value that is there and not empty.
pub open spec fn set_value(m: Map<Seq<char>, Seq<char>>, key: Seq<char>) -> Option<Seq<char>> {
    if m.contains_key(key) && m[key].len() > 0 {
        Some(m[key])
    } else {
        None
    }
}

fn set_text<'a>(msg: &'a InboundMessage, key: &str) -> (r: Option<&'a str>)
    ensures
        maybe_text(r) == set_value(msg@.metadata, key@),
{
    match msg.metadata.get(key) {
        Some(v) => if v.as_str().is_empty() {
            None
        } else {
            Some(v.as_str())
        },
        None => None,
    }
}

impl LoopV {
    /// A fresh agent.
    pub open spec fn fresh(config: ConfigV, builder: BuilderV) -> LoopV {
        LoopV {
            config,
            builder,
            running: false,
            streaming: config.streaming,
            dry_run: false,
            provider: None,
            registry: Map::empty(),
            tools: seq![],
            pending: Map::empty(),
            anchors: Map::empty(),
            thread: None,
        }
    }

    /// Whether a run is over once an event was handled.
    pub open spec fn ends_on(self, event: LoopEvent) -> bool {
        event is StopSignal || event is Closed || !self.running
    }

    /// The model that answers a message: the one it names, or the usual one.
    pub open spec fn model_for(self, msg: InboundV) -> Seq<char> {
        match set_value(msg.metadata, "model_override"@) {
            Some(m) => m,
            None => self.config.model,
        }
    }

    /// The registered provider with the given name.
    pub open spec fn named_provider(self, name: Option<Seq<char>>) -> Option<u64> {
        match name {
            Some(n) => if self.registry.contains_key(n) {
                Some(self.registry[n])
            } else {
                None
            },
            None => None,
        }
    }

    /// The provider that answers a message: the one it names, or else the one of
    /// the model it names, or else the usual one.
    pub open spec fn provider_for(self, msg: InboundV, inferred: Option<Seq<char>>) -> Option<
        u64,
    > {
        let explicit = self.named_provider(set_value(msg.metadata, "provider_override"@));
        let of_model = if set_value(msg.metadata, "model_override"@) is Some {
            self.named_provider(inferred)
        } else {
            None
        };
        if explicit is Some {
            explicit
        } else if of_model is Some {
            of_model
        } else {
            self.provider
        }
    }

    /// What waits for a session.
    pub open spec fn waiting(self, key: Seq<char>) -> Seq<InboundV> {
        if self.pending.contains_key(key) {
            self.pending[key]
        } else {
            seq![]
        }
    }

    /// The agent after a message was put behind what waits for its session.
    pub open spec fn queue(self, msg: InboundV) -> LoopV {
        LoopV {
            pending: self.pending.insert(
                msg.session_key,
                self.waiting(msg.session_key).push(msg),
            ),
            ..self
        }
    }

    /// The agent with nothing waiting for a session.
    pub open spec fn drained(self, key: Seq<char>) -> LoopV {
        LoopV { pending: self.pending.remove(key), ..self }
    }

    /// The messages that come back once a session is free again.
    pub open spec fn returned(self, msg: InboundV) -> Seq<InboundV> {
        let waiting = self.waiting(msg.session_key);
        if waiting.len() == 0 {
            seq![]
        } else {
            match self.config.message_queue_mode {
                MessageQueueMode::Collect => seq![
                    plain_inbound(
                        msg.channel,
                        msg.sender_id,
                        msg.chat_id,
                        collected(waiting),
                    ),
                ],
                MessageQueueMode::Followup => waiting,
            }
        }
    }
}

/// The numbered lines of a list of messages.
pub open spec fn numbered_lines(messages: Seq<InboundV>) -> Seq<Seq<char>> {
    Seq::new(
        messages.len(),
        |i: int| decimal((i + 1) as nat) + ". "@ + messages[i].content,
    )
}

/// The text of several messages that waited.
pub open spec fn collected(messages: Seq<InboundV>) -> Seq<char> {
    "[Queued messages while I was busy]\n\n"@ + join(numbered_lines(messages), "\n"@)
}

impl AgentLoop {
    /// An agent with the usual system prompt.
    pub fn new(config: AgentConfig) -> (r: Self)
        ensures
            r@ == LoopV::fresh(config@, BuilderV::initial()),
    {
        AgentLoop::with_context_builder(config, ContextBuilder::new())
    }

    /// An agent that builds its prompts with the given builder.
    pub fn with_context_builder(config: AgentConfig, context_builder: ContextBuilder) -> (r: Self)
        ensures
            r@ == LoopV::fresh(config@, context_builder@),
    {
        let streaming = config.streaming;
        let r = AgentLoop {
            config,
            context_builder,
            running: false,
            streaming,
            dry_run: false,
            provider: None,
            provider_registry: TextMap::new(),
            tools: Vec::new(),
            pending_messages: TextMap::new(),
            anchors: TextMap::new(),
            thread_identity: None,
        };
        proof {
            assert(r@ =~= LoopV::fresh(config@, context_builder@));
        }
        r
    }

    /// Whether the agent serves messages.
    pub fn is_running(&self) -> (r: bool)
        ensures
            r == self@.running,
    {
        self.running
    }

    /// Starts the agent; one that runs already stays as it is.
    pub fn start(&mut self) -> (r: Result<(), String>)
        ensures
            final(self)@ == (LoopV { running: true, ..old(self)@ }),
            r is Err <==> old(self)@.running,
            r matches Err(e) ==> e@ == "Agent loop already running"@,
    {
        if self.running {
            return Err(text("Agent loop already running"));
        }
        self.running = true;
        Ok(())
    }

    /// Stops the agent.
    pub fn stop(&mut self)
        ensures
            final(self)@ == (LoopV { running: false, ..old(self)@ }),
    {
        self.running = false;
    }

    /// Notes what woke the agent. Whether its run is over: by a stop, or because no
    /// more messages can come.
    pub fn after_event(&mut self, event: LoopEvent) -> (r: bool)
        ensures
            r == old(self)@.ends_on(event),
            final(self)@ == (if r {
                LoopV { running: false, ..old(self)@ }
            } else {
                old(self)@
            }),
    {
        let over = match event {
            LoopEvent::StopSignal | LoopEvent::Closed => true,
            LoopEvent::Served => !self.running,
        };
        if over {
            self.running = false;
        }
        over
    }

    /// Turns streaming of final answers on or off.
    pub fn set_streaming(&mut self, enabled: bool)
        ensures
            final(self)@ == (LoopV { streaming: enabled, ..old(self)@ }),
    {
        self.streaming = enabled;
    }

    /// Whether final answers are streamed.
    pub fn is_streaming(&self) -> (r: bool)
        ensures
            r == self@.streaming,
    {
        self.streaming
    }

    /// Turns dry runs on or off: tool calls are described, not made.
    pub fn set_dry_run(&mut self, enabled: bool)
        ensures
            final(self)@ == (LoopV { dry_run: enabled, ..old(self)@ }),
    {
        self.dry_run = enabled;
    }

    /// Whether tool calls are described, not made.
    pub fn is_dry_run(&self) -> (r: bool)
        ensures
            r == self@.dry_run,
    {
        self.dry_run
    }

    /// The settings.
    pub fn config(&self) -> (r: &AgentConfig)
        ensures
            r@ == self@.config,
    {
        &self.config
    }

    /// Whether the reply to a message is streamed.
    pub fn should_stream(&self, msg: &InboundMessage) -> (r: bool)
        ensures
            r == (self@.streaming && asks_for_stream(msg@)),
    {
        should_stream(self.streaming, msg)
    }

    /// Says whose agent this is. Only the first time counts.
    pub fn set_thread_identity(&mut self, identity: ThreadKey)
        ensures
            final(self)@ == (if old(self)@.thread is Some {
                old(self)@
            } else {
                LoopV { thread: Some(identity@), ..old(self)@ }
            }),
    {
        if self.thread_identity.is_none() {
            self.thread_identity = Some(identity);
        }
    }

    /// Whose agent this is, where that is known.
    pub fn thread_identity(&self) -> (r: Option<&ThreadKey>)
        ensures
            match r {
                Some(key) => self@.thread == Some(key@),
                None => self@.thread is None,
            },
    {
        self.thread_identity.as_ref()
    }

    // -----------------------------------------------------------------------
    // Providers
    // -----------------------------------------------------------------------
    /// Sets the usual provider.
    pub fn set_provider(&mut self, provider: u64)
        ensures
            final(self)@ == (LoopV { provider: Some(provider), ..old(self)@ }),
    {
        self.provider = Some(provider);
    }

    /// The usual provider.
    pub fn provider(&self) -> (r: Option<u64>)
        ensures
            r == self@.provider,
    {
        self.provider
    }

    /// Registers a provider under a name, in place of the one that had it.
    pub fn set_provider_in_registry(&mut self, name: &str, provider: u64)
        ensures
            final(self)@ == (LoopV {
                registry: old(self)@.registry.insert(name@, provider),
                ..old(self)@
            }),
    {
        self.provider_registry.insert(name, provider);
    }

    /// The registered provider with the given name.
    pub fn get_provider_by_name(&self, name: &str) -> (r: Option<u64>)
        ensures
            r == self@.named_provider(Some(name@)),
    {
        match self.provider_registry.get(name) {
            Some(p) => Some(*p),
            None => None,
        }
    }

    /// The names of the registered providers, each once.
    pub fn registered_provider_names(&self) -> (r: Vec<String>)
        ensures
            r.deep_view().no_duplicates(),
            r.deep_view().to_set() == self@.registry.dom(),
    {
        let mut names: Vec<String> = Vec::new();
        let n: usize = self.provider_registry.len();
        let ghost keys = self.provider_registry.keys();
        let mut i: usize = 0;
        while i < n
            invariant
                i <= n == keys.len(),
                keys == self.provider_registry.keys(),
                names.deep_view() == keys.take(i as int),
            decreases n - i,
        {
            let ghost before = names.deep_view();
            names.push(text(self.provider_registry.key_at(i)));
            proof {
                assert(names.deep_view() =~= before.push(keys[i as int]));
                assert(keys.take(i + 1) =~= keys.take(i as int).push(keys[i as int]));
            }
            i = i + 1;
        }
        proof {
            assert(keys.take(n as int) =~= keys);
        }
        names
    }

    /// The model that answers a message: the one it names, or the usual one.
    pub fn resolve_model_for_message(&self, msg: &InboundMessage) -> (r: String)
        ensures
            r@ == self@.model_for(msg@),
    {
        match set_text(msg, "model_override") {
            Some(m) => text(m),
            None => self.config.model.clone(),
        }
    }

    /// The provider that answers a message. `inferred` is the provider of the
    /// model that the message names, where that is known.
    pub fn resolve_provider_for_message(
        &self,
        msg: &InboundMessage,
        inferred: Option<&str>,
    ) -> (r: Option<u64>)
        ensures
            r == self@.provider_for(msg@, maybe_text(inferred)),
    {
        if let Some(name) = set_text(msg, "provider_override") {
            if let Some(p) = self.get_provider_by_name(name) {
                return Some(p);
            }
        }
        if set_text(msg, "model_override").is_some() {
            if let Some(name) = inferred {
                if let Some(p) = self.get_provider_by_name(name) {
                    return Some(p);
                }
            }
        }
        self.provider
    }

    // -----------------------------------------------------------------------
    // Tools
    // -----------------------------------------------------------------------
    /// Registers a tool, in place of the one with its name.
    pub fn register_tool(&mut self, tool: ToolEntry)
        ensures
            final(self)@ == (LoopV {
                tools: with_tool(old(self)@.tools, tool.deep_view()),
                ..old(self)@
            }),
    {
        put_tool(&mut self.tools, tool);
    }

    /// Registers several tools, one after the other.
    pub fn merge_kernel_tools(&mut self, tools: Vec<ToolEntry>)
        ensures
            final(self)@ == (LoopV {
                tools: with_tools(old(self)@.tools, tools.deep_view()),
                ..old(self)@
            }),
    {
        put_tools(&mut self.tools, tools);
    }

    /// How many tools there are.
    pub fn tool_count(&self) -> (r: usize)
        ensures
            r == self@.tools.len(),
    {
        self.tools.len()
    }

    /// Whether there is a tool with the given name.
    pub fn has_tool(&self, name: &str) -> (r: bool)
        ensures
            r == (tool_named(self@.tools, name@, 0) is Some),
    {
        find_tool(&self.tools, name).is_some()
    }

    /// The tools.
    pub fn tools(&self) -> (r: &Vec<ToolEntry>)
        ensures
            r.deep_view() == self@.tools,
    {
        &self.tools
    }

    /// The names of the tools.
    pub fn tool_names(&self) -> (r: Vec<String>)
        ensures
            r.deep_view() == self@.tools.map_values(|t: ToolV| t.tool_name),
    {
        let mut names: Vec<String> = Vec::new();
        let ghost all = self.tools.deep_view().map_values(|t: ToolV| t.tool_name);
        let mut i: usize = 0;
        while i < self.tools.len()
            invariant
                i <= self.tools@.len(),
                all == self.tools.deep_view().map_values(|t: ToolV| t.tool_name),
                names.deep_view() == all.take(i as int),
            decreases self.tools@.len() - i,
        {
            let ghost before = names.deep_view();
            names.push(self.tools[i].tool_name.clone());
            proof {
                assert(names.deep_view() =~= before.push(all[i as int]));
                assert(all.take(i + 1) =~= all.take(i as int).push(all[i as int]));
            }
            i = i + 1;
        }
        proof {
            assert(all.take(self.tools@.len() as int) =~= all);
        }
        names
    }

    // -----------------------------------------------------------------------
    // Waiting messages
    // -----------------------------------------------------------------------
    /// Lets a message wait where its session is busy. Whether it waits.
    pub fn try_queue_or_process(&mut self, msg: &InboundMessage, busy: bool) -> (r: bool)
        ensures
            r == busy,
            final(self)@ == (if busy {
                old(self)@.queue(msg@)
            } else {
                old(self)@
            }),
    {
        if !busy {
            return false;
        }
        let ghost before = self.pending_messages@;
        let mut waiting: Vec<InboundMessage> = match self.pending_messages.remove(
            msg.session_key.as_str(),
        ) {
            Some(v) => v,
            None => Vec::new(),
        };
        proof {
            assert(inbound_views(waiting@) =~= old(self)@.waiting(msg@.session_key));
        }
        let ghost earlier = waiting@;
        waiting.push(msg.clone());
        proof {
            assert(inbound_views(waiting@) =~= inbound_views(earlier).push(msg@));
        }
        self.pending_messages.insert(msg.session_key.as_str(), waiting);
        proof {
            assert(self@.pending =~= old(self)@.queue(msg@).pending);
        }
        true
    }

    /// Takes out what waits for the session of a message that was served, in the
    /// form in which it comes back.
    pub fn drain_pending_messages(&mut self, msg: &InboundMessage) -> (r: Vec<InboundMessage>)
        ensures
            final(self)@ == old(self)@.drained(msg@.session_key),
            inbound_views(r@) == old(self)@.returned(msg@),
    {
        let taken = self.pending_messages.remove(msg.session_key.as_str());
        proof {
            assert(self@.pending =~= old(self)@.pending.remove(msg@.session_key));
        }
        let waiting: Vec<InboundMessage> = match taken {
            Some(v) => v,
            None => Vec::new(),
        };
        proof {
            assert(inbound_views(waiting@) =~= old(self)@.waiting(msg@.session_key));
        }
        if waiting.len() == 0 {
            return waiting;
        }
        match self.config.message_queue_mode {
            MessageQueueMode::Collect => {
                let content = collect_text(&waiting);
                let mut r: Vec<InboundMessage> = Vec::new();
                r.push(
                    InboundMessage::new(
                        msg.channel.as_str(),
                        msg.sender_id.as_str(),
                        msg.chat_id.as_str(),
                        content.as_str(),
                    ),
                );
                proof {
                    assert(inbound_views(r@) =~= old(self)@.returned(msg@));
                }
                r
            },
            MessageQueueMode::Followup => waiting,
        }
    }
}

/// Tools with one more, in place of the first with its name.
pub open spec fn with_tool(tools: Seq<ToolV>, tool: ToolV) -> Seq<ToolV>
    decreases tools.len(),
{
    if tools.len() == 0 {
        seq![tool]
    } else if tools[0].tool_name == tool.tool_name {
        tools.update(0, tool)
    } else {
        seq![tools[0]] + with_tool(tools.skip(1), tool)
    }
}

proof fn lemma_with_tool(tools: Seq<ToolV>, tool: ToolV, i: int)
    requires
        0 <= i <= tools.len(),
        forall|j: int| 0 <= j < i ==> tools[j].tool_name != tool.tool_name,
        i < tools.len() ==> tools[i].tool_name == tool.tool_name,
    ensures
        with_tool(tools, tool) == if i < tools.len() {
            tools.update(i, tool)
        } else {
            tools.push(tool)
        },
    decreases tools.len(),
{
    if i > 0 {
        lemma_with_tool(tools.skip(1), tool, i - 1);
        if i < tools.len() {
            assert(with_tool(tools, tool) =~= tools.update(i, tool));
        } else {
            assert(with_tool(tools, tool) =~= tools.push(tool));
        }
    } else if tools.len() == 0 {
        assert(with_tool(tools, tool) =~= tools.push(tool));
    }
}

fn put_tool(tools: &mut Vec<ToolEntry>, tool: ToolEntry)
    ensures
        final(tools).deep_view() == with_tool(old(tools).deep_view(), tool.deep_view()),
{
    let ghost all = tools.deep_view();
    let ghost new = tool.deep_view();
    let mut i: usize = 0;
    while i < tools.len()
        invariant
            i <= tools@.len(),
            *tools == *old(tools),
            all == tools.deep_view(),
            new == tool.deep_view(),
            forall|j: int| 0 <= j < i ==> all[j].tool_name != new.tool_name,
        ensures
            i <= tools@.len(),
            *tools == *old(tools),
            forall|j: int| 0 <= j < i ==> all[j].tool_name != new.tool_name,
            i < tools@.len() ==> all[i as int].tool_name == new.tool_name,
        decreases tools@.len() - i,
    {
        if crate::text::same_text(tools[i].tool_name.as_str(), tool.tool_name.as_str()) {
            break;
        }
        i = i + 1;
    }
    proof {
        lemma_with_tool(all, new, i as int);
    }
    if i < tools.len() {
        tools.set(i, tool);
        proof {
            assert(tools.deep_view() =~= all.update(i as int, new));
        }
    } else {
        tools.push(tool);
        proof {
            assert(tools.deep_view() =~= all.push(new));
        }
    }
}

/// Tools with several more, one after the other.
pub open spec fn with_tools(tools: Seq<ToolV>, more: Seq<ToolV>) -> Seq<ToolV>
    decreases more.len(),
{
    if more.len() == 0 {
        tools
    } else {
        with_tools(with_tool(tools, more[0]), more.drop_first())
    }
}

fn put_tools(tools: &mut Vec<ToolEntry>, more: Vec<ToolEntry>)
    ensures
        final(tools).deep_view() == with_tools(old(tools).deep_view(), more.deep_view()),
{
    let ghost start = tools.deep_view();
    let ghost all = more.deep_view();
    let mut left = more;
    while left.len() > 0
        invariant
            with_tools(start, all) == with_tools(tools.deep_view(), left.deep_view()),
        decreases left@.len(),
    {
        let ghost rest = left.deep_view();
        let tool = left.remove(0);
        proof {
            assert(rest[0] == tool.deep_view());
            assert(left.deep_view() =~= rest.drop_first());
        }
        put_tool(tools, tool);
    }
}

fn collect_text(waiting: &Vec<InboundMessage>) -> (r: String)
    ensures
        r@ == collected(inbound_views(waiting@)),
{
    let ghost all = numbered_lines(inbound_views(waiting@));
    let mut lines: Vec<String> = Vec::new();
    let mut i: usize = 0;
    while i < waiting.len()
        invariant
            i <= waiting@.len(),
            i <= waiting.len(),
            all == numbered_lines(inbound_views(waiting@)),
            lines.deep_view() == all.take(i as int),
        decreases waiting@.len() - i,
    {
        let ghost before = lines.deep_view();
        let mut line = decimal_text((i as u64) + 1);
        put(&mut line, ". ");
        put(&mut line, waiting[i].content.as_str());
        proof {
            assert(line@ == all[i as int]);
        }
        lines.push(line);
        proof {
            assert(lines.deep_view() =~= before.push(all[i as int]));
            assert(all.take(i + 1) =~= all.take(i as int).push(all[i as int]));
        }
        i = i + 1;
    }
    proof {
        assert(all.take(waiting@.len() as int) =~= all);
    }
    let mut content = text("[Queued messages while I was busy]\n\n");
    put(&mut content, join_text(&lines, "\n").as_str());
    content
}

// ---------------------------------------------------------------------------
// Prompts
// ---------------------------------------------------------------------------
impl LoopV {
    /// How many of a session's first messages its summary stands for.
    pub open spec fn covered(self, session: SessionTextV) -> nat {
        if self.config.anchored_summary && session.summary is Some && self.anchors.contains_key(
            session.key,
        ) {
            let n = self.anchors[session.key].anchored_message_count as nat;
            if n < session.messages.len() {
                n
            } else {
                session.messages.len()
            }
        } else {
            0
        }
    }

    /// The messages of a model call in a session, before its images are read. The
    /// session holds the user's message already.
    pub open spec fn prompt(
        self,
        msg: InboundV,
        session: SessionTextV,
        memory_override: Option<Seq<char>>,
        day: Seq<char>,
    ) -> Seq<MessageV> {
        let n = self.covered(session);
        self.builder.messages_after(
            session.messages.skip(n as int),
            ""@,
            memory_override,
            PromptCapabilities { a2ui_capable: shows_custom_events(msg.channel) },
            if n > 0 {
                session.summary
            } else {
                None
            },
            day,
            ""@,
        )
    }
}

/// Whether a message of the user has nothing to say.
pub open spec fn says_nothing(m: MessageV) -> bool {
    m.role == Role::User && m.content.len() == 0 && !m.has_images()
}

/// The messages that say something, in their order.
pub open spec fn telling(messages: Seq<MessageV>) -> Seq<MessageV>
    decreases messages.len(),
{
    if messages.len() == 0 {
        seq![]
    } else {
        let rest = telling(messages.drop_last());
        if says_nothing(messages.last()) {
            rest
        } else {
            rest.push(messages.last())
        }
    }
}

/// Drops the user messages that have nothing to say, such as those whose images
/// could not be read.
pub fn drop_empty_user_messages(messages: Vec<Message>) -> (r: Vec<Message>)
    ensures
        r.deep_view() == telling(messages.deep_view()),
{
    let ghost all = messages.deep_view();
    let mut kept: Vec<Message> = Vec::new();
    let mut i: usize = 0;
    while i < messages.len()
        invariant
            i <= messages@.len(),
            all == messages.deep_view(),
            kept.deep_view() == telling(all.take(i as int)),
        decreases messages@.len() - i,
    {
        let ghost before = kept.deep_view();
        proof {
            assert(all.take(i + 1).drop_last() =~= all.take(i as int));
            assert(all.take(i + 1).last() == messages@[i as int].deep_view());
        }
        let m = &messages[i];
        let void = m.role == Role::User && m.content.as_str().is_empty() && !m.has_images();
        if !void {
            kept.push(m.clone());
            proof {
                assert(kept.deep_view() =~= before.push(all[i as int]));
            }
        }
        i = i + 1;
    }
    proof {
        assert(all.take(messages@.len() as int) =~= all);
    }
    kept
}

impl AgentLoop {
    fn covered(&self, session: &Session) -> (r: usize)
        ensures
            r == self@.covered(session@),
            r <= session.messages@.len(),
    {
        if !self.config.anchored_summary || session.summary.is_none() {
            return 0;
        }
        match self.anchors.get(session.key.as_str()) {
            Some(anchor) => if anchor.anchored_message_count < session.messages.len() {
                anchor.anchored_message_count
            } else {
                session.messages.len()
            },
            None => 0,
        }
    }

    /// The messages of a model call in a session on the given day, before its
    /// images are read: the part that the summary covers is left out.
    pub fn build_prompt_on(
        &self,
        msg: &InboundMessage,
        session: &Session,
        memory_override: Option<&str>,
        day: &str,
    ) -> (r: Vec<Message>)
        ensures
            r.deep_view() == self@.prompt(msg@, session@, maybe_text(memory_override), day@),
    {
        let n: usize = self.covered(session);
        let summary = match &session.summary {
            Some(s) => if n > 0 {
                Some(s.as_str())
            } else {
                None
            },
            None => None,
        };
        let history = vstd::slice::slice_subrange(
            session.messages.as_slice(),
            n,
            session.messages.len(),
        );
        proof {
            assert(history.deep_view() =~= session.messages.deep_view().skip(n as int));
        }
        self.context_builder.build_messages_with_anchored_summary_override_at(
            history,
            "",
            memory_override,
            PromptCapabilities { a2ui_capable: supports_custom_ui_channel(msg.channel.as_str()) },
            summary,
            day,
            "",
        )
    }

    /// The messages of a model call in a session, before its images are read.
    pub fn build_prompt(
        &self,
        msg: &InboundMessage,
        session: &Session,
        memory_override: Option<&str>,
    ) -> (r: Vec<Message>)
        ensures
            exists|day: Seq<char>|
                is_day(day) && r.deep_view() == #[trigger] self@.prompt(
                    msg@,
                    session@,
                    maybe_text(memory_override),
                    day,
                ),
    {
        let day = current_day();
        self.build_prompt_on(msg, session, memory_override, day.as_str())
    }
}

// ---------------------------------------------------------------------------
// Rolling summaries
// ---------------------------------------------------------------------------
/// What a model is told before the conversation that it is to summarize.
pub const SUMMARY_INSTRUCTION: &'static str =
    "Summarize the following conversation. Keep the facts, decisions, preferences and open questions that later turns may need:\n\n";

/// The name of a speaker.
pub open spec fn role_name(role: Role) -> Seq<char> {
    match role {
        Role::System => "system"@,
        Role::User => "user"@,
        Role::Assistant => "assistant"@,
        Role::Tool => "tool"@,
    }
}

fn role_text(role: Role) -> (r: &'static str)
    ensures
        r@ == role_name(role),
{
    match role {
        Role::System => "system",
        Role::User => "user",
        Role::Assistant => "assistant",
        Role::Tool => "tool",
    }
}

/// The messages of a conversation as lines, each behind its speaker.
pub open spec fn spoken_lines(messages: Seq<MessageV>) -> Seq<Seq<char>> {
    Seq::new(
        messages.len(),
        |i: int| role_name(messages[i].role) + ": "@ + messages[i].content,
    )
}

/// What a model is asked that summarizes a conversation.
pub open spec fn summary_question(messages: Seq<MessageV>) -> Seq<char> {
    SUMMARY_INSTRUCTION@ + join(spoken_lines(messages), "\n"@)
}

/// The model call that summarizes a conversation, to a model and with a token limit
/// of its own and without tools.
pub fn summary_request(
    messages: &[Message],
    model: Option<String>,
    max_tokens: u32,
) -> (r: ChatRequest)
    ensures
        r.messages.deep_view() == seq![
            text_message(Role::User, summary_question(messages.deep_view())),
        ],
        r.tools@.len() == 0,
        r.model == model,
        r.options == (ChatOptions { max_tokens: Some(max_tokens) }),
{
    let ghost all = spoken_lines(messages.deep_view());
    let mut lines: Vec<String> = Vec::new();
    let mut i: usize = 0;
    while i < messages.len()
        invariant
            i <= messages@.len(),
            all == spoken_lines(messages.deep_view()),
            lines.deep_view() == all.take(i as int),
        decreases messages@.len() - i,
    {
        let ghost before = lines.deep_view();
        let mut line = text(role_text(messages[i].role));
        put(&mut line, ": ");
        put(&mut line, messages[i].content.as_str());
        proof {
            assert(messages.deep_view()[i as int] == messages@[i as int].deep_view());
            assert(line@ == all[i as int]);
        }
        lines.push(line);
        proof {
            assert(lines.deep_view() =~= before.push(all[i as int]));
            assert(all.take(i + 1) =~= all.take(i as int).push(all[i as int]));
        }
        i = i + 1;
    }
    proof {
        assert(all.take(messages@.len() as int) =~= all);
    }
    let mut question = text(SUMMARY_INSTRUCTION);
    put(&mut question, join_text(&lines, "\n").as_str());
    let mut asked: Vec<Message> = Vec::new();
    asked.push(Message::user(question.as_str()));
    proof {
        assert(asked.deep_view() =~= seq![
            text_message(Role::User, summary_question(messages.deep_view())),
        ]);
    }
    ChatRequest {
        messages: asked,
        tools: Vec::new(),
        model,
        options: ChatOptions { max_tokens: Some(max_tokens) },
    }
}

impl LoopV {
    /// How much of a session its summary covers, and how much the last attempt took
    /// in; nothing before the first one.
    pub open spec fn anchor(self, key: Seq<char>) -> AnchoredSummaryState {
        if self.anchors.contains_key(key) {
            self.anchors[key]
        } else {
            AnchoredSummaryState { anchored_message_count: 0, last_attempt_message_count: 0 }
        }
    }

    /// By how many messages a session grows from one attempt to the next.
    pub open spec fn step(self) -> nat {
        if self.config.anchor_step == 0 {
            1
        } else {
            self.config.anchor_step as nat
        }
    }

    /// How many of a session's first messages a summary takes in that is due; none
    /// where none is due. The user's last message and one step before it stay out.
    pub open spec fn summary_due(self, session: SessionTextV) -> Option<nat> {
        let taken = session.messages.len() - 1 - self.step();
        if self.config.anchored_summary && taken >= self.anchor(
            session.key,
        ).last_attempt_message_count + self.step() {
            Some(taken as nat)
        } else {
            None
        }
    }

    /// The agent after an attempt to summarize the first messages of a session.
    pub open spec fn after_summary(self, key: Seq<char>, taken: usize, succeeded: bool) -> LoopV {
        LoopV {
            anchors: self.anchors.insert(
                key,
                AnchoredSummaryState {
                    anchored_message_count: if succeeded {
                        taken
                    } else {
                        self.anchor(key).anchored_message_count
                    },
                    last_attempt_message_count: taken,
                },
            ),
            ..self
        }
    }
}

impl SessionTextV {
    /// The session after an attempt to summarize its first messages.
    pub open spec fn after_summary(self, answer: Option<Seq<char>>) -> SessionTextV {
        SessionTextV {
            summary: if answer is Some {
                answer
            } else {
                self.summary
            },
            ..self
        }
    }
}

impl AgentLoop {
    fn anchor(&self, key: &str) -> (r: AnchoredSummaryState)
        ensures
            r == self@.anchor(key@),
    {
        match self.anchors.get(key) {
            Some(anchor) => *anchor,
            None => AnchoredSummaryState {
                anchored_message_count: 0,
                last_attempt_message_count: 0,
            },
        }
    }

    /// How many of a session's first messages a summary takes in that is due.
    pub fn summary_due(&self, session: &Session) -> (r: Option<usize>)
        ensures
            match r {
                Some(taken) => self@.summary_due(session@) == Some(taken as nat) && taken
                    <= session.messages@.len(),
                None => self@.summary_due(session@) is None,
            },
    {
        if !self.config.anchored_summary {
            return None;
        }
        let step: usize = if self.config.anchor_step == 0 {
            1
        } else {
            self.config.anchor_step
        };
        let n: usize = session.messages.len();
        if n < 1 || n - 1 < step {
            return None;
        }
        let taken: usize = n - 1 - step;
        let last: usize = self.anchor(session.key.as_str()).last_attempt_message_count;
        if taken >= last && taken - last >= step {
            Some(taken)
        } else {
            None
        }
    }

    /// The model call that summarizes a session's first messages where that is due,
    /// and how many it takes in.
    pub fn due_summary_request(&self, session: &Session) -> (r: Option<(ChatRequest, usize)>)
        ensures
            match r {
                Some((q, taken)) => {
                    &&& self@.summary_due(session@) == Some(taken as nat)
                    &&& q.messages.deep_view() == seq![
                        text_message(
                            Role::User,
                            summary_question(session@.messages.take(taken as int)),
                        ),
                    ]
                    &&& q.tools@.len() == 0
                    &&& q.model.deep_view() == self@.config.summary_model
                    &&& q.options == (ChatOptions {
                        max_tokens: Some(self@.config.summary_tokens),
                    })
                },
                None => self@.summary_due(session@) is None,
            },
    {
        match self.summary_due(session) {
            Some(taken) => {
                let covered = vstd::slice::slice_subrange(session.messages.as_slice(), 0, taken);
                proof {
                    assert(covered.deep_view() =~= session.messages.deep_view().take(
                        taken as int,
                    ));
                }
                let model: Option<String> = match &self.config.summary_model {
                    Some(m) => Some(m.clone()),
                    None => None,
                };
                Some((summary_request(covered, model, self.config.summary_tokens), taken))
            },
            None => None,
        }
    }

    /// Notes an attempt to summarize the first messages of a session: a summary
    /// covers them from now on. An attempt that failed leaves the session and what
    /// its summary covers as they are.
    pub fn note_summary(&mut self, session: &mut Session, taken: usize, answer: Option<String>)
        ensures
            final(self)@ == old(self)@.after_summary(old(session)@.key, taken, answer is Some),
            final(session)@ == old(session)@.after_summary(answer.deep_view()),
    {
        let anchored_message_count: usize = if answer.is_some() {
            taken
        } else {
            self.anchor(session.key.as_str()).anchored_message_count
        };
        self.anchors.insert(
            session.key.as_str(),
            AnchoredSummaryState { anchored_message_count, last_attempt_message_count: taken },
        );
        if answer.is_some() {
            session.summary = answer;
        }
    }
}

// ---------------------------------------------------------------------------
// Keeping memories before a conversation is cut
// ---------------------------------------------------------------------------
/// What the model is asked before a conversation is cut.
pub const MEMORY_FLUSH_PROMPT: &'static str =
    "Review the conversation above. Save any important facts, decisions, user preferences, or learnings to long-term memory using the longterm_memory tool. Also review existing memories for duplicates — merge or delete stale entries. Be selective: only save what would be useful in future conversations.";

/// How long that may take, in seconds.
pub const MEMORY_FLUSH_TIMEOUT_SECS: u64 = 10;

/// The tool that keeps memories.
pub const LONGTERM_MEMORY_TOOL_NAME: &'static str = "longterm_memory";

/// The conversation that asks the model to keep memories.
pub open spec fn flush_messages(history: Seq<MessageV>) -> Seq<MessageV> {
    (seq![text_message(Role::System, "You are a memory management assistant."@)] + history).push(
        text_message(Role::User, MEMORY_FLUSH_PROMPT@),
    )
}

/// The tool calls with arguments that can be read, in their order.
pub open spec fn flush_calls(calls: Seq<CallV>) -> Seq<(Seq<char>, JsonV)>
    decreases calls.len(),
{
    if calls.len() == 0 {
        seq![]
    } else {
        let rest = flush_calls(calls.drop_last());
        match json_of_text(calls.last().arguments) {
            Ok(value) => rest.push((calls.last().name, value)),
            Err(_) => rest,
        }
    }
}

/// The models of tool calls with their arguments.
pub open spec fn call_views(calls: Seq<(String, Json)>) -> Seq<(Seq<char>, JsonV)> {
    calls.map_values(|c: (String, Json)| (c.0@, c.1@))
}

impl AgentLoop {
    /// The model call that keeps memories before a conversation is cut; none
    /// without a provider or without the tool.
    pub fn memory_flush(&self, messages: &[Message]) -> (r: Option<ChatRequest>)
        ensures
            r is Some <==> self@.provider is Some && tool_named(
                self@.tools,
                LONGTERM_MEMORY_TOOL_NAME@,
                0,
            ) is Some,
            r matches Some(q) ==> {
                &&& q.messages.deep_view() == flush_messages(messages.deep_view())
                &&& q.tools.deep_view() == seq![LONGTERM_MEMORY_TOOL_NAME@]
                &&& q.model.deep_view() == Some(self@.config.model)
                &&& q.options == (ChatOptions { max_tokens: Some(1024) })
            },
    {
        if self.provider.is_none() || !self.has_tool(LONGTERM_MEMORY_TOOL_NAME) {
            return None;
        }
        let mut all: Vec<Message> = Vec::new();
        all.push(Message::system("You are a memory management assistant."));
        proof {
            assert(all.deep_view() =~= seq![
                text_message(Role::System, "You are a memory management assistant."@),
            ]);
        }
        push_all(&mut all, messages);
        let ghost before = all.deep_view();
        all.push(Message::user(MEMORY_FLUSH_PROMPT));
        let mut tools: Vec<String> = Vec::new();
        tools.push(text(LONGTERM_MEMORY_TOOL_NAME));
        proof {
            assert(all.deep_view() =~= before.push(
                text_message(Role::User, MEMORY_FLUSH_PROMPT@),
            ));
            assert(tools.deep_view() =~= seq![LONGTERM_MEMORY_TOOL_NAME@]);
        }
        Some(
            ChatRequest {
                messages: all,
                tools,
                model: Some(self.config.model.clone()),
                options: ChatOptions { max_tokens: Some(1024) },
            },
        )
    }
}

/// The tool calls of an answer that can be made: those with arguments that can be
/// read.
pub fn memory_flush_calls(tool_calls: &Vec<LLMToolCall>) -> (r: Vec<(String, Json)>)
    ensures
        call_views(r@) == flush_calls(tool_calls.deep_view()),
{
    let ghost all = tool_calls.deep_view();
    let mut out: Vec<(String, Json)> = Vec::new();
    let mut i: usize = 0;
    proof {
        assert(call_views(out@) =~= flush_calls(all.take(0)));
    }
    while i < tool_calls.len()
        invariant
            i <= tool_calls@.len(),
            all == tool_calls.deep_view(),
            call_views(out@) == flush_calls(all.take(i as int)),
        decreases tool_calls@.len() - i,
    {
        let ghost before = out@;
        proof {
            assert(all.take(i + 1).drop_last() =~= all.take(i as int));
            assert(all.take(i + 1).last() == tool_calls@[i as int].deep_view());
        }
        if let Ok(value) = parse_json(tool_calls[i].arguments.as_str()) {
            let ghost v = value@;
            out.push((tool_calls[i].name.clone(), value));
            proof {
                assert(call_views(out@) =~= call_views(before).push((all[i as int].name, v)));
            }
        }
        i = i + 1;
    }
    proof {
        assert(all.take(tool_calls@.len() as int) =~= all);
    }
    out
}

// ---------------------------------------------------------------------------
// Small decisions
// ---------------------------------------------------------------------------
/// How hard a conversation is cut.
#[derive(Debug, Clone, Copy, PartialEq, Eq, Structural)]
pub enum CompactionUrgency {
    Normal,
    Emergency,
    Critical,
}

/// How hard a conversation is cut at a retry: harder each time.
pub open spec fn retry_urgency(attempt: u32) -> CompactionUrgency {
    if attempt == 0 {
        CompactionUrgency::Normal
    } else if attempt == 1 {
        CompactionUrgency::Emergency
    } else {
        CompactionUrgency::Critical
    }
}

/// How hard a conversation is cut at a retry.
pub fn overflow_retry_urgency(attempt: u32) -> (r: CompactionUrgency)
    ensures
        r == retry_urgency(attempt),
{
    if attempt == 0 {
        CompactionUrgency::Normal
    } else if attempt == 1 {
        CompactionUrgency::Emergency
    } else {
        CompactionUrgency::Critical
    }
}

/// What was counted since; nothing where there was no count.
pub open spec fn counted_since(before: Option<(u64, u64)>, after: Option<(u64, u64)>) -> (
    int,
    int,
) {
    match (before, after) {
        (Some(b), Some(a)) => (
            if a.0 > b.0 {
                a.0 - b.0
            } else {
                0
            },
            if a.1 > b.1 {
                a.1 - b.1
            } else {
                0
            },
        ),
        _ => (0, 0),
    }
}

/// The input and output tokens that a run used, from the counts before and after.
pub fn token_delta(before: Option<(u64, u64)>, after: Option<(u64, u64)>) -> (r: (u64, u64))
    ensures
        (r.0 as int, r.1 as int) == counted_since(before, after),
{
    match (before, after) {
        (Some(b), Some(a)) => (a.0.saturating_sub(b.0), a.1.saturating_sub(b.1)),
        _ => (0, 0),
    }
}

/// What a tool call would do, with its arguments in a form fit for the model.
pub open spec fn dry_run_note(name: Seq<char>, arguments: Seq<char>) -> Seq<char> {
    "[DRY RUN] Would execute tool '"@ + name + "' with arguments: "@ + arguments
}

/// What a tool call would do, with its arguments in a form fit for the model.
pub fn dry_run_result(name: &str, sanitized_arguments: &str) -> (r: String)
    ensures
        r@ == dry_run_note(name@, sanitized_arguments@),
{
    let mut s = text("[DRY RUN] Would execute tool '");
    put(&mut s, name);
    put(&mut s, "' with arguments: ");
    put(&mut s, sanitized_arguments);
    s
}

/// Whom a message is counted for: the tenant it names, or its chat.
pub open spec fn tenant_of(msg: InboundV) -> Seq<char> {
    match set_value(msg.metadata, "tenant_id"@) {
        Some(t) => t,
        None => msg.chat_id,
    }
}

/// Whom a message is counted for: the tenant it names, or its chat.
pub fn tenant_id(msg: &InboundMessage) -> (r: &str)
    ensures
        r@ == tenant_of(msg@),
{
    match set_text(msg, "tenant_id") {
        Some(t) => t,
        None => msg.chat_id.as_str(),
    }
}

// ---------------------------------------------------------------------------
// Taking messages in
// ---------------------------------------------------------------------------
/// What a device is told that is not paired.
pub const NOT_PAIRED: &'static str =
    "Access denied: device not paired. Use `zeptoclaw pair new` to generate a pairing code.";

/// What becomes of a message that came in.
#[derive(Debug)]
pub enum InboundStep {
    /// It is turned away with a reply.
    Reject(OutboundMessage),
    /// It waits until its session is free.
    Queued,
    /// It is served now.
    Process,
}

impl LoopV {
    /// Whether a message is served at all: where devices have to be paired, it
    /// holds a token that is valid.
    pub open spec fn admits(self, msg: InboundV, token_valid: bool) -> bool {
        !self.config.pairing || (msg.metadata.contains_key("auth_token"@) && token_valid)
    }
}

impl AgentLoop {
    /// Takes a message in. `token_valid` says whether the token that the message
    /// holds was issued to its sender, `busy` whether its session is being served.
    pub fn accept_inbound(
        &mut self,
        msg: &InboundMessage,
        token_valid: bool,
        busy: bool,
    ) -> (r: InboundStep)
        ensures
            r is Reject <==> !old(self)@.admits(msg@, token_valid),
            r is Queued <==> old(self)@.admits(msg@, token_valid) && busy,
            r matches InboundStep::Reject(m) ==> m@ == (OutboundV {
                metadata: routed(Map::empty(), msg@.metadata),
                ..plain_outbound(msg@.channel, msg@.chat_id, NOT_PAIRED@)
            }),
            final(self)@ == (if r is Queued {
                old(self)@.queue(msg@)
            } else {
                old(self)@
            }),
    {
        if self.config.pairing && !(msg.metadata.contains_key("auth_token") && token_valid) {
            let mut rejection = OutboundMessage::new(
                msg.channel.as_str(),
                msg.chat_id.as_str(),
                NOT_PAIRED,
            );
            propagate_routing_metadata(&mut rejection, msg);
            return InboundStep::Reject(rejection);
        }
        if self.try_queue_or_process(msg, busy) {
            InboundStep::Queued
        } else {
            InboundStep::Process
        }
    }
}

// ---------------------------------------------------------------------------
// Laws
// ---------------------------------------------------------------------------
/// Messages that waited come back one by one, in the order in which they came, and
/// wait no more; the messages of other sessions wait on.
pub proof fn law_followups_come_back_in_order(agent: LoopV, msg: InboundV, other: Seq<char>)
    requires
        agent.config.message_queue_mode == MessageQueueMode::Followup,
    ensures
        agent.queue(msg).returned(msg) == agent.waiting(msg.session_key).push(msg),
        agent.queue(msg).drained(msg.session_key).waiting(msg.session_key).len() == 0,
        other != msg.session_key ==> agent.queue(msg).drained(msg.session_key).waiting(other)
            == agent.waiting(other),
{
}

/// Messages that waited come back as one that tells each of them: as many lines
/// as there were messages.
pub proof fn law_collected_messages_are_one(agent: LoopV, msg: InboundV)
    requires
        agent.config.message_queue_mode == MessageQueueMode::Collect,
        agent.waiting(msg.session_key).len() > 0,
    ensures
        agent.returned(msg).len() == 1,
        agent.returned(msg)[0].session_key == crate::bus::session_key_of(
            msg.channel,
            msg.chat_id,
        ),
        agent.returned(msg)[0].content == collected(agent.waiting(msg.session_key)),
        numbered_lines(agent.waiting(msg.session_key)).len() == agent.waiting(
            msg.session_key,
        ).len(),
{
}

/// A message that names a registered provider is answered by it, whatever model it
/// names.
pub proof fn law_named_provider_wins(agent: LoopV, msg: InboundV, inferred: Option<Seq<char>>)
    requires
        set_value(msg.metadata, "provider_override"@) matches Some(n)
            && agent.registry.contains_key(n),
    ensures
        agent.provider_for(msg, inferred) == Some(
            agent.registry[msg.metadata["provider_override"@]],
        ),
{
}

/// What a summary covers is left out of the prompt, and nothing else is: the rest
/// of the session follows the summary unchanged.
pub proof fn law_summary_stands_for_what_it_covers(
    agent: LoopV,
    msg: InboundV,
    session: SessionTextV,
    memory_override: Option<Seq<char>>,
    day: Seq<char>,
)
    requires
        agent.covered(session) > 0,
    ensures
        agent.prompt(msg, session, memory_override, day).skip(2) == session.messages.skip(
            agent.covered(session) as int,
        ),
        session.summary matches Some(s) && agent.prompt(msg, session, memory_override, day)[1]
            == text_message(Role::System, "[Conversation Summary]\n"@ + s),
{
    reveal_strlit("");
    let n = agent.covered(session) as int;
    let p = agent.prompt(msg, session, memory_override, day);
    assert(p.skip(2) =~= session.messages.skip(n));
}

/// Without summaries the whole session is in the prompt.
pub proof fn law_no_summary_keeps_the_session(
    agent: LoopV,
    msg: InboundV,
    session: SessionTextV,
    memory_override: Option<Seq<char>>,
    day: Seq<char>,
)
    requires
        !agent.config.anchored_summary || session.summary is None,
        agent.builder.summary is None,
    ensures
        agent.prompt(msg, session, memory_override, day).skip(1) == session.messages,
{
    reveal_strlit("");
    assert(session.messages.skip(0) =~= session.messages);
    assert(agent.prompt(msg, session, memory_override, day).skip(1) =~= session.messages);
}

/// What is left of a prompt says something, and what said something is left.
pub proof fn law_only_empty_messages_are_dropped(messages: Seq<MessageV>)
    ensures
        forall|m: MessageV| #[trigger]
            telling(messages).contains(m) <==> messages.contains(m) && !says_nothing(m),
    decreases messages.len(),
{
    if messages.len() > 0 {
        let rest = messages.drop_last();
        let last = messages.last();
        law_only_empty_messages_are_dropped(rest);
        assert forall|m: MessageV| #[trigger] telling(messages).contains(m) <==> messages.contains(
            m,
        ) && !says_nothing(m) by {
            assert(messages =~= rest.push(last));
            if messages.contains(m) && !says_nothing(m) {
                let i = messages.index_of(m);
                if i < rest.len() {
                    assert(rest[i] == m);
                    assert(telling(rest).contains(m));
                    let j = telling(rest).index_of(m);
                    assert(telling(messages)[j] == m);
                } else {
                    assert(telling(messages).last() == m);
                }
            }
            if telling(messages).contains(m) {
                let j = telling(messages).index_of(m);
                if j < telling(rest).len() {
                    assert(telling(rest)[j] == m);
                    assert(telling(rest).contains(m));
                    let i = rest.index_of(m);
                    assert(messages[i] == m);
                } else {
                    assert(m == last);
                    assert(messages[messages.len() - 1] == m);
                }
            }
        }
    }
}

/// What happens to an agent while a run of it lasts.
pub enum RunStep {
    /// Somebody starts the agent once more.
    Start,
    /// Somebody stops the agent.
    Stop,
    /// Something wakes the run.
    Wake(LoopEvent),
    /// Anything else: the agent is as given afterwards, with its switch untouched.
    Other(LoopV),
}

impl LoopV {
    /// The agent after steps, and whether a run that lasted before them is over.
    pub open spec fn run(self, steps: Seq<RunStep>) -> (LoopV, bool)
        decreases steps.len(),
    {
        if steps.len() == 0 {
            (self, false)
        } else {
            let rest = steps.drop_first();
            match steps[0] {
                RunStep::Start => LoopV { running: true, ..self }.run(rest),
                RunStep::Stop => LoopV { running: false, ..self }.run(rest),
                RunStep::Wake(event) => if self.ends_on(event) {
                    (LoopV { running: false, ..self }, true)
                } else {
                    self.run(rest)
                },
                RunStep::Other(state) => LoopV { running: self.running, ..state }.run(rest),
            }
        }
    }
}

/// Whether a step can be what a run ends by.
pub open spec fn may_end(step: RunStep) -> bool {
    match step {
        RunStep::Stop => true,
        RunStep::Wake(event) => event is StopSignal || event is Closed,
        _ => false,
    }
}

/// A run ends only by a stop or because no more messages can come, and the agent is
/// not running then. As long as neither happens the agent is running.
pub proof fn law_runs_end_by_stop_or_close(agent: LoopV, steps: Seq<RunStep>)
    requires
        agent.running,
    ensures
        agent.run(steps).1 ==> !agent.run(steps).0.running,
        agent.run(steps).1 ==> exists|i: int| 0 <= i < steps.len() && may_end(#[trigger] steps[i]),
        (forall|i: int| 0 <= i < steps.len() ==> !may_end(#[trigger] steps[i])) ==> !agent.run(
            steps,
        ).1 && agent.run(steps).0.running,
{
    lemma_run(agent, steps);
}

proof fn lemma_run(agent: LoopV, steps: Seq<RunStep>)
    ensures
        agent.run(steps).1 ==> !agent.run(steps).0.running,
        agent.running && (forall|i: int| 0 <= i < steps.len() ==> !may_end(#[trigger] steps[i]))
            ==> !agent.run(steps).1 && agent.run(steps).0.running,
    decreases steps.len(),
{
    if steps.len() > 0 {
        let rest = steps.drop_first();
        assert(forall|i: int| 0 <= i < rest.len() ==> #[trigger] rest[i] == steps[i + 1]);
        lemma_run(agent, rest);
        match steps[0] {
            RunStep::Start => lemma_run(LoopV { running: true, ..agent }, rest),
            RunStep::Stop => lemma_run(LoopV { running: false, ..agent }, rest),
            RunStep::Wake(_) => {},
            RunStep::Other(state) => lemma_run(LoopV { running: agent.running, ..state }, rest),
        }
    }
}

/// A run is over as soon as it hears the stop signal or that no more messages can
/// come, and after a stop at the latest with the next event.
pub proof fn law_stops_and_closes_end_runs(agent: LoopV, event: LoopEvent, more: Seq<RunStep>)
    ensures
        event is StopSignal || event is Closed ==> agent.run(seq![RunStep::Wake(event)] + more)
            == (LoopV { running: false, ..agent }, true),
        agent.run(seq![RunStep::Stop, RunStep::Wake(event)] + more) == (
            LoopV { running: false, ..agent },
            true,
        ),
{
    let woken = seq![RunStep::Wake(event)] + more;
    let stopped = seq![RunStep::Stop, RunStep::Wake(event)] + more;
    assert(stopped.drop_first() =~= woken);
    assert(woken[0] == RunStep::Wake(event));
    assert(stopped[0] == RunStep::Stop);
    let off = LoopV { running: false, ..agent };
    assert(off.run(woken) == (off, true));
}

/// An attempt to summarize that failed keeps the whole history: the model is sent
/// what it would have been sent without it.
pub proof fn law_failed_summaries_keep_the_history(
    agent: LoopV,
    session: SessionTextV,
    taken: usize,
    msg: InboundV,
    memory_override: Option<Seq<char>>,
    day: Seq<char>,
)
    ensures
        session.after_summary(None) == session,
        agent.after_summary(session.key, taken, false).covered(session) == agent.covered(session),
        agent.after_summary(session.key, taken, false).prompt(msg, session, memory_override, day)
            == agent.prompt(msg, session, memory_override, day),
{
}

/// A summary stands for the messages that it took in, and for no others: from then
/// on the model is sent the summary and the messages after those.
pub proof fn law_summaries_cover_what_they_took_in(
    agent: LoopV,
    session: SessionTextV,
    taken: usize,
    summary: Seq<char>,
    msg: InboundV,
    memory_override: Option<Seq<char>>,
    day: Seq<char>,
)
    requires
        agent.config.anchored_summary,
        0 < taken <= session.messages.len(),
    ensures
        session.after_summary(Some(summary)).messages == session.messages,
        agent.after_summary(session.key, taken, true).covered(
            session.after_summary(Some(summary)),
        ) == taken,
        agent.after_summary(session.key, taken, true).prompt(
            msg,
            session.after_summary(Some(summary)),
            memory_override,
            day,
        ) == agent.builder.messages_after(
            session.messages.skip(taken as int),
            ""@,
            memory_override,
            PromptCapabilities { a2ui_capable: shows_custom_events(msg.channel) },
            Some(summary),
            day,
            ""@,
        ),
{
}

/// After an attempt to summarize a session, whether it failed or not, the next one
/// is due only when a step's worth of further messages can be taken in.
pub proof fn law_summaries_are_throttled(
    agent: LoopV,
    session: SessionTextV,
    taken: usize,
    succeeded: bool,
)
    ensures
        agent.after_summary(session.key, taken, succeeded).summary_due(session) matches Some(n)
            ==> n >= taken + agent.step() && n > taken && n + agent.step() < session.messages.len(),
{
}

/// Where summaries are turned off none is due, and none stands for any message.
pub proof fn law_summaries_can_be_turned_off(agent: LoopV, session: SessionTextV)
    requires
        !agent.config.anchored_summary,
    ensures
        agent.summary_due(session) is None,
        agent.covered(session) == 0,
{
}

/// An attempt to summarize one session leaves the others as they are.
pub proof fn law_summaries_are_kept_apart(
    agent: LoopV,
    key: Seq<char>,
    taken: usize,
    succeeded: bool,
    other: SessionTextV,
)
    requires
        other.key != key,
    ensures
        agent.after_summary(key, taken, succeeded).covered(other) == agent.covered(other),
        agent.after_summary(key, taken, succeeded).summary_due(other) == agent.summary_due(other),
{
}

/// The model and the provider that answer a message: those that it names, where the
/// provider is registered; where it names a model only, the provider of that model; and
/// else the usual ones. An empty name is none.
pub proof fn law_who_answers_a_message(agent: LoopV, msg: InboundV, inferred: Option<Seq<char>>)
    ensures
        ({
            let named = msg.metadata.contains_key("provider_override"@)
                && msg.metadata["provider_override"@].len() > 0 && agent.registry.contains_key(
                msg.metadata["provider_override"@],
            );
            let model = msg.metadata.contains_key("model_override"@)
                && msg.metadata["model_override"@].len() > 0;
            let known = inferred matches Some(n) && agent.registry.contains_key(n);
            &&& model ==> agent.model_for(msg) == msg.metadata["model_override"@]
            &&& !model ==> agent.model_for(msg) == agent.config.model
            &&& named ==> agent.provider_for(msg, inferred) == Some(
                agent.registry[msg.metadata["provider_override"@]],
            )
            &&& !named && model && known ==> agent.provider_for(msg, inferred) == Some(
                agent.registry[inferred.unwrap()],
            )
            &&& !named && (!model || !known) ==> agent.provider_for(msg, inferred)
                == agent.provider
        }),
{
}

/// A message that waits is kept behind those of its session, and the messages of other
/// sessions stay as they are.
pub proof fn law_messages_wait_in_order(agent: LoopV, msg: InboundV, other: Seq<char>)
    ensures
        agent.queue(msg).waiting(msg.session_key) == agent.waiting(msg.session_key).push(msg),
        other != msg.session_key ==> agent.queue(msg).waiting(other) == agent.waiting(other),
        agent.drained(msg.session_key).waiting(msg.session_key).len() == 0,
        other != msg.session_key ==> agent.drained(msg.session_key).waiting(other)
            == agent.waiting(other),
        agent.waiting(msg.session_key).len() == 0 ==> agent.returned(msg).len() == 0,
{
}

/// Messages that come back as one are told in it one by one, numbered from one on, in
/// the order in which they came, and go where the message that was served came from.
pub proof fn law_collected_messages_are_told(agent: LoopV, msg: InboundV, i: int)
    requires
        agent.config.message_queue_mode == MessageQueueMode::Collect,
        0 <= i < agent.waiting(msg.session_key).len(),
    ensures
        agent.returned(msg).len() == 1,
        agent.returned(msg)[0].channel == msg.channel,
        agent.returned(msg)[0].chat_id == msg.chat_id,
        agent.returned(msg)[0].sender_id == msg.sender_id,
        contains(
            agent.returned(msg)[0].content,
            decimal((i + 1) as nat) + ". "@ + agent.waiting(msg.session_key)[i].content,
        ),
{
    let waiting = agent.waiting(msg.session_key);
    let lines = numbered_lines(waiting);
    let head = "[Queued messages while I was busy]\n\n"@;
    assert(lines[i] == decimal((i + 1) as nat) + ". "@ + waiting[i].content);
    law_joined_texts_hold_each(lines, "\n"@, i);
    law_parts_of_parts(head, join(lines, "\n"@), seq![], lines[i]);
    assert(collected(waiting) == head + join(lines, "\n"@));
}

/// A tool takes the place of the first one with its name, and comes behind the others
/// where none has it.
pub proof fn law_tools_are_registered_by_name(tools: Seq<ToolV>, tool: ToolV, i: int)
    requires
        0 <= i <= tools.len(),
        forall|k: int| 0 <= k < i ==> (#[trigger] tools[k]).tool_name != tool.tool_name,
    ensures
        i == tools.len() ==> with_tool(tools, tool) == tools.push(tool),
        i < tools.len() && tools[i].tool_name == tool.tool_name ==> with_tool(tools, tool)
            == tools.update(i, tool),
        with_tools(tools, seq![]) == tools,
        forall|more: Seq<ToolV>| #[trigger]
            with_tools(tools, seq![tool] + more) == with_tools(with_tool(tools, tool), more),
{
    if i == tools.len() || tools[i].tool_name == tool.tool_name {
        lemma_with_tool(tools, tool, i);
    }
    assert forall|more: Seq<ToolV>| #[trigger]
        with_tools(tools, seq![tool] + more) == with_tools(with_tool(tools, tool), more) by {
        assert((seq![tool] + more).drop_first() =~= more);
    }
}

/// Before a conversation is cut the model is shown the whole of it, as it is, and then
/// asked to keep what matters.
pub proof fn law_the_conversation_is_shown_before_a_cut(history: Seq<MessageV>)
    ensures
        flush_messages(history).len() == history.len() + 2,
        flush_messages(history)[0].role == Role::System,
        flush_messages(history).subrange(1, history.len() as int + 1) == history,
        flush_messages(history).last().role == Role::User,
        flush_messages(history).last().content == MEMORY_FLUSH_PROMPT@,
{
    assert(flush_messages(history).subrange(1, history.len() as int + 1) =~= history);
}

/// The calls that keep memories are those with arguments that can be read, in their
/// order, each with its name and with what its arguments stand for.
pub proof fn law_calls_that_keep_memories(calls: Seq<CallV>, call: CallV)
    ensures
        flush_calls(seq![]).len() == 0,
        json_of_text(call.arguments) matches Ok(value) ==> flush_calls(calls.push(call))
            == flush_calls(calls).push((call.name, value)),
        json_of_text(call.arguments) is Err ==> flush_calls(calls.push(call)) == flush_calls(calls),
{
    assert(calls.push(call).drop_last() =~= calls);
}

/// Messages of the user with neither text nor images are dropped; the others stay in
/// their order.
pub proof fn law_messages_with_nothing_to_say(messages: Seq<MessageV>, m: MessageV)
    ensures
        telling(seq![]).len() == 0,
        m.role == Role::User && m.content.len() == 0 && (forall|i: int|
            0 <= i < m.parts.len() ==> !(#[trigger] m.parts[i] is Image)) ==> telling(
            messages.push(m),
        ) == telling(messages),
        m.role != Role::User || m.content.len() > 0 || (exists|i: int|
            0 <= i < m.parts.len() && #[trigger] m.parts[i] is Image) ==> telling(messages.push(m))
            == telling(messages).push(m),
{
    assert(messages.push(m).drop_last() =~= messages);
}

/// A summary covers no more than the session has, and covers nothing before there is
/// one.
pub proof fn law_what_summaries_cover(agent: LoopV, session: SessionTextV)
    ensures
        agent.covered(session) <= session.messages.len(),
        agent.config.anchored_summary && session.summary is Some && agent.anchors.contains_key(
            session.key,
        ) && agent.anchors[session.key].anchored_message_count <= session.messages.len()
            ==> agent.covered(session) == agent.anchors[session.key].anchored_message_count,
        session.summary is None || !agent.anchors.contains_key(session.key) ==> agent.covered(
            session,
        ) == 0,
{
}

/// A summary is asked for with the whole of what it is to cover: each message, behind
/// the name of who spoke.
pub proof fn law_summaries_are_asked_for(messages: Seq<MessageV>, i: int)
    requires
        0 <= i < messages.len(),
    ensures
        starts_with(summary_question(messages), "Summarize the following conversation"@),
        messages[i].role is User ==> contains(
            summary_question(messages),
            "user: "@ + messages[i].content,
        ),
        messages[i].role is Assistant ==> contains(
            summary_question(messages),
            "assistant: "@ + messages[i].content,
        ),
        contains(summary_question(messages), messages[i].content),
{
    let lines = spoken_lines(messages);
    let name = role_name(messages[i].role);
    assert(lines[i] == name + ": "@ + messages[i].content);
    law_joined_texts_hold_each(lines, "\n"@, i);
    law_parts_of_parts(SUMMARY_INSTRUCTION@, join(lines, "\n"@), seq![], lines[i]);
    lemma_holds_middle(name + ": "@, messages[i].content, seq![]);
    let q = summary_question(messages);
    let k = choose|k: int| #[trigger] occurs_at(q, lines[i], k);
    assert(q =~= q.take(k) + lines[i] + q.skip(k + lines[i].len()));
    law_parts_of_parts(q.take(k), lines[i], q.skip(k + lines[i].len()), messages[i].content);
    reveal_strlit("user");
    reveal_strlit("assistant");
    reveal_strlit(": ");
    reveal_strlit("user: ");
    reveal_strlit("assistant: ");
    assert("user: "@ =~= "user"@ + ": "@);
    assert("assistant: "@ =~= "assistant"@ + ": "@);
    reveal_strlit(
        "Summarize the following conversation. Keep the facts, decisions, preferences and open questions that later turns may need:\n\n",
    );
    reveal_strlit("Summarize the following conversation");
    let head = "Summarize the following conversation"@;
    assert(q.subrange(0, head.len() as int) =~= head);
}

/// A message is served unless devices have to be paired and it does not hold a valid
/// token; it is counted for the tenant that it names, or else for its chat; and what a
/// dry run would do is told with the tool and its arguments.
pub proof fn law_small_decisions(
    agent: LoopV,
    msg: InboundV,
    valid: bool,
    name: Seq<char>,
    arguments: Seq<char>,
)
    ensures
        agent.admits(msg, valid) <==> !agent.config.pairing || (msg.metadata.contains_key(
            "auth_token"@,
        ) && valid),
        msg.metadata.contains_key("tenant_id"@) && msg.metadata["tenant_id"@].len() > 0
            ==> tenant_of(msg) == msg.metadata["tenant_id"@],
        !msg.metadata.contains_key("tenant_id"@) || msg.metadata["tenant_id"@].len() == 0
            ==> tenant_of(msg) == msg.chat_id,
        dry_run_note(name, arguments) == "[DRY RUN] Would execute tool '"@ + name
            + "' with arguments: "@ + arguments,
{
}

/// The tokens that a run used are what was counted since it began.
pub proof fn law_tokens_are_counted(a: u64, b: u64, c: u64, d: u64)
    requires
        a <= c,
        b <= d,
    ensures
        counted_since(Some((a, b)), Some((c, d))) == (c - a, d - b),
        counted_since(None, Some((c, d))) == (0int, 0int),
        counted_since(Some((a, b)), None) == (0int, 0int),
{
}

/// A conversation is cut harder at each retry.
pub proof fn law_retries_cut_harder(attempt: u32)
    ensures
        retry_urgency(0) is Normal,
        retry_urgency(1) is Emergency,
        attempt >= 2 ==> retry_urgency(attempt) is Critical,
{
}

/// A fresh agent does not run and has neither providers nor tools, and nothing waits;
/// it streams where its settings say so.
pub proof fn law_fresh_agents(config: ConfigV, builder: BuilderV, key: Seq<char>)
    ensures
        !LoopV::fresh(config, builder).running,
        !LoopV::fresh(config, builder).dry_run,
        LoopV::fresh(config, builder).streaming == config.streaming,
        LoopV::fresh(config, builder).provider is None,
        LoopV::fresh(config, builder).tools.len() == 0,
        LoopV::fresh(config, builder).waiting(key).len() == 0,
        LoopV::fresh(config, builder).builder == builder,
        LoopV::fresh(config, builder).config == config,
{
}

/// What the model is sent in a session: the system message, what the session's summary
/// does not cover, as it is, and nothing else.
pub proof fn law_prompts_hold_the_session(
    agent: LoopV,
    msg: InboundV,
    session: SessionTextV,
    memory_override: Option<Seq<char>>,
    day: Seq<char>,
)
    requires
        agent.builder.summary is None,
    ensures
        ({
            let p = agent.prompt(msg, session, memory_override, day);
            let caps = PromptCapabilities {
                a2ui_capable: msg.channel == "acp"@ || msg.channel == "acp_http"@,
            };
            &&& p[0] == agent.builder.system(caps, memory_override, day)
            &&& agent.covered(session) == 0 ==> p.len() == session.messages.len() + 1
            &&& agent.covered(session) > 0 ==> p.len() == session.messages.len() - agent.covered(
                session,
            ) + 2
        }),
{
    reveal_strlit("");
    let n = agent.covered(session) as int;
    let p = agent.prompt(msg, session, memory_override, day);
    if n > 0 {
        law_summary_stands_for_what_it_covers(agent, msg, session, memory_override, day);
    }
    assert(session.messages.skip(0) =~= session.messages);
}

/// A session and the settings of an agent hold what their models hold.
pub proof fn law_sessions_hold_their_messages(session: Session, config: AgentConfig, i: int)
    ensures
        session@.key == session.key@,
        session@.messages.len() == session.messages@.len(),
        0 <= i < session.messages@.len() ==> session@.messages[i]
            == session.messages@[i].deep_view(),
        session.summary matches Some(s) ==> session@.summary == Some(s@),
        session.summary is None ==> session@.summary is None,
        config@.model == config.model@,
        config@.streaming == config.streaming,
        config@.message_queue_mode == config.message_queue_mode,
        config@.anchored_summary == config.anchored_summary,
        config@.anchor_step == config.anchor_step,
        config@.summary_tokens == config.summary_tokens,
        config@.pairing == config.pairing,
{
}

/// The models of tool calls and of messages that wait hold what they stand for.
pub proof fn law_calls_hold_their_arguments(
    calls: Seq<(String, Json)>,
    waiting: Map<Seq<char>, Vec<InboundMessage>>,
    key: Seq<char>,
    i: int,
)
    ensures
        call_views(calls).len() == calls.len(),
        0 <= i < calls.len() ==> call_views(calls)[i] == (calls[i].0@, calls[i].1@),
        queues(waiting).contains_key(key) == waiting.contains_key(key),
        waiting.contains_key(key) ==> queues(waiting)[key].len() == waiting[key]@.len() && (0 <= i
            < waiting[key]@.len() ==> queues(waiting)[key][i] == waiting[key]@[i]@),
{
}

} // verus!
