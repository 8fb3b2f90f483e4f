//! Decisions around tool calls: trust, names, ordering, loop guard notes, routing.
use vstd::prelude::*;

use crate::bus::{InboundMessage, InboundV, OutboundMessage, OutboundV};
use crate::cut::{truncate_utf8, truncated};
use crate::metadata::Metadata;
use crate::number::{decimal, decimal_text};
use crate::providers::LLMToolCall;
use crate::session::{text_message, CallV, ContentPart, Message, MessageV, Role};
use crate::text::{holds_text, put, same_text, text};

verus! {

pub const INTERACTIVE_CLI_METADATA_KEY: &'static str = "interactive_cli";

pub const TRUSTED_LOCAL_SESSION_METADATA_KEY: &'static str = "trusted_local_session";

/// Whether metadata holds the value for the key.
pub open spec fn holds(m: Map<Seq<char>, Seq<char>>, key: Seq<char>, value: Seq<char>) -> bool {
    m.contains_key(key) && m[key] == value
}

/// Whether a message comes from the user's own terminal, in a session that was
/// declared trusted and is not a batch.
pub open spec fn trusted_local(msg: InboundV) -> bool {
    &&& msg.channel == "cli"@
    &&& holds(msg.metadata, INTERACTIVE_CLI_METADATA_KEY@, "true"@)
    &&& holds(msg.metadata, TRUSTED_LOCAL_SESSION_METADATA_KEY@, "true"@)
    &&& !holds(msg.metadata, "is_batch"@, "true"@)
}

/// Whether a message comes from the user's own terminal, in a session that was
/// declared trusted and is not a batch.
pub fn is_trusted_local_session(msg: &InboundMessage) -> (r: bool)
    ensures
        r == trusted_local(msg@),
{
    same_text(msg.channel.as_str(), "cli") && msg.metadata.has(INTERACTIVE_CLI_METADATA_KEY, "true")
        && msg.metadata.has(TRUSTED_LOCAL_SESSION_METADATA_KEY, "true") && !msg.metadata.has(
        "is_batch",
        "true",
    )
}

// ---------------------------------------------------------------------------
// Tools
// ---------------------------------------------------------------------------
/// What a tool touches.
#[derive(Debug, Clone, Copy, PartialEq, Eq, Structural)]
pub enum ToolCategory {
    FilesystemRead,
    FilesystemWrite,
    NetworkRead,
    NetworkWrite,
    Shell,
    Memory,
    Messaging,
    Other,
}

/// A registered tool.
#[derive(Debug)]
pub struct ToolEntry {
    pub tool_name: String,
    /// The name under which a provider sees the tool.
    pub exposed_name: String,
    pub category: ToolCategory,
}

/// The model of a [`ToolEntry`].
pub struct ToolV {
    pub tool_name: Seq<char>,
    pub exposed_name: Seq<char>,
    pub category: ToolCategory,
}

impl DeepView for ToolEntry {
    type V = ToolV;

    open spec fn deep_view(&self) -> ToolV {
        ToolV {
            tool_name: self.tool_name@,
            exposed_name: self.exposed_name@,
            category: self.category,
        }
    }
}

/// The first tool with the given name, from `from` on.
pub open spec fn tool_named(tools: Seq<ToolV>, name: Seq<char>, from: int) -> Option<ToolV>
    decreases tools.len() - from,
{
    if from < 0 || from >= tools.len() {
        None
    } else if tools[from].tool_name == name {
        Some(tools[from])
    } else {
        tool_named(tools, name, from + 1)
    }
}

/// The first tool that providers see under the given name, from `from` on.
pub open spec fn tool_exposed(tools: Seq<ToolV>, name: Seq<char>, from: int) -> Option<ToolV>
    decreases tools.len() - from,
{
    if from < 0 || from >= tools.len() {
        None
    } else if tools[from].exposed_name == name {
        Some(tools[from])
    } else {
        tool_exposed(tools, name, from + 1)
    }
}

pub fn find_tool<'a>(tools: &'a Vec<ToolEntry>, name: &str) -> (r: Option<&'a ToolEntry>)
    ensures
        match r {
            Some(t) => tool_named(tools.deep_view(), name@, 0) == Some(t.deep_view()),
            None => tool_named(tools.deep_view(), name@, 0) is None,
        },
{
    let ghost all = tools.deep_view();
    let mut i: usize = 0;
    while i < tools.len()
        invariant
            i <= tools@.len(),
            all == tools.deep_view(),
            tool_named(all, name@, 0) == tool_named(all, name@, i as int),
        decreases tools@.len() - i,
    {
        proof {
            assert(all[i as int] == tools@[i as int].deep_view());
        }
        if same_text(tools[i].tool_name.as_str(), name) {
            return Some(&tools[i]);
        }
        i = i + 1;
    }
    None
}

fn find_exposed<'a>(tools: &'a Vec<ToolEntry>, name: &str) -> (r: Option<&'a ToolEntry>)
    ensures
        match r {
            Some(t) => tool_exposed(tools.deep_view(), name@, 0) == Some(t.deep_view()),
            None => tool_exposed(tools.deep_view(), name@, 0) is None,
        },
{
    let ghost all = tools.deep_view();
    let mut i: usize = 0;
    while i < tools.len()
        invariant
            i <= tools@.len(),
            all == tools.deep_view(),
            tool_exposed(all, name@, 0) == tool_exposed(all, name@, i as int),
        decreases tools@.len() - i,
    {
        proof {
            assert(all[i as int] == tools@[i as int].deep_view());
        }
        if same_text(tools[i].exposed_name.as_str(), name) {
            return Some(&tools[i]);
        }
        i = i + 1;
    }
    None
}

/// The tool's own name and the name it is exposed under, for a name that a
/// provider used. With lazy schemas providers use exposed names, without them the
/// tools' own. An unknown name stands for itself.
pub open spec fn call_names(tools: Seq<ToolV>, provider_name: Seq<char>, lazy: bool) -> (
    Seq<char>,
    Seq<char>,
) {
    if lazy {
        match tool_exposed(tools, provider_name, 0) {
            Some(t) => (t.tool_name, t.exposed_name),
            None => (provider_name, provider_name),
        }
    } else {
        match tool_named(tools, provider_name, 0) {
            Some(t) => (provider_name, t.exposed_name),
            None => (provider_name, provider_name),
        }
    }
}

/// The tool's own name and the name it is exposed under.
pub fn resolve_tool_call_name(
    tools: &Vec<ToolEntry>,
    provider_name: &str,
    lazy_tool_schema: bool,
) -> (r: (String, String))
    ensures
        r.0@ == call_names(tools.deep_view(), provider_name@, lazy_tool_schema).0,
        r.1@ == call_names(tools.deep_view(), provider_name@, lazy_tool_schema).1,
{
    if !lazy_tool_schema {
        return match find_tool(tools, provider_name) {
            Some(t) => (text(provider_name), t.exposed_name.clone()),
            None => (text(provider_name), text(provider_name)),
        };
    }
    match find_exposed(tools, provider_name) {
        Some(t) => (t.tool_name.clone(), t.exposed_name.clone()),
        None => (text(provider_name), text(provider_name)),
    }
}

/// Whether a call may have effects whose order matters: it writes files or runs a
/// shell, or nobody knows what it does.
pub open spec fn orders_matter(tools: Seq<ToolV>, call: CallV, lazy: bool) -> bool {
    match tool_named(tools, call_names(tools, call.name, lazy).0, 0) {
        Some(t) => t.category == ToolCategory::FilesystemWrite || t.category
            == ToolCategory::Shell,
        None => true,
    }
}

/// Whether a batch of calls has to run one after the other.
pub fn needs_sequential_execution(
    tools: &Vec<ToolEntry>,
    tool_calls: &Vec<LLMToolCall>,
    lazy_tool_schema: bool,
) -> (r: bool)
    ensures
        r == exists|i: int|
            0 <= i < tool_calls@.len() && #[trigger] orders_matter(
                tools.deep_view(),
                tool_calls.deep_view()[i],
                lazy_tool_schema,
            ),
{
    let ghost calls = tool_calls.deep_view();
    let mut i: usize = 0;
    while i < tool_calls.len()
        invariant
            i <= tool_calls@.len(),
            calls == tool_calls.deep_view(),
            forall|j: int|
                0 <= j < i ==> !#[trigger] orders_matter(
                    tools.deep_view(),
                    calls[j],
                    lazy_tool_schema,
                ),
        decreases tool_calls@.len() - i,
    {
        proof {
            assert(calls[i as int] == tool_calls@[i as int].deep_view());
        }
        let names = resolve_tool_call_name(tools, tool_calls[i].name.as_str(), lazy_tool_schema);
        let matters = match find_tool(tools, names.0.as_str()) {
            Some(t) => matches!(t.category, ToolCategory::FilesystemWrite | ToolCategory::Shell),
            None => true,
        };
        if matters {
            proof {
                assert(orders_matter(tools.deep_view(), calls[i as int], lazy_tool_schema));
            }
            return true;
        }
        i = i + 1;
    }
    false
}

/// Whether a call, by the tool's own name, is among those that the user is asked
/// about.
pub open spec fn is_gated(
    tools: Seq<ToolV>,
    call: CallV,
    lazy: bool,
    gated: Seq<Seq<char>>,
) -> bool {
    gated.contains(call_names(tools, call.name, lazy).0)
}

/// Whether one of the calls is among those that the user is asked about.
pub fn any_gated(
    tools: &Vec<ToolEntry>,
    tool_calls: &Vec<LLMToolCall>,
    lazy_tool_schema: bool,
    gated: &Vec<String>,
) -> (r: bool)
    ensures
        r == exists|i: int|
            0 <= i < tool_calls@.len() && #[trigger] is_gated(
                tools.deep_view(),
                tool_calls.deep_view()[i],
                lazy_tool_schema,
                gated.deep_view(),
            ),
{
    let ghost calls = tool_calls.deep_view();
    let mut i: usize = 0;
    while i < tool_calls.len()
        invariant
            i <= tool_calls@.len(),
            calls == tool_calls.deep_view(),
            forall|j: int|
                0 <= j < i ==> !#[trigger] is_gated(
                    tools.deep_view(),
                    calls[j],
                    lazy_tool_schema,
                    gated.deep_view(),
                ),
        decreases tool_calls@.len() - i,
    {
        proof {
            assert(calls[i as int] == tool_calls@[i as int].deep_view());
        }
        let names = resolve_tool_call_name(tools, tool_calls[i].name.as_str(), lazy_tool_schema);
        if holds_text(gated, names.0.as_str()) {
            proof {
                assert(is_gated(
                    tools.deep_view(),
                    calls[i as int],
                    lazy_tool_schema,
                    gated.deep_view(),
                ));
            }
            return true;
        }
        i = i + 1;
    }
    false
}

// ---------------------------------------------------------------------------
// Loop guard
// ---------------------------------------------------------------------------
/// What the loop guard says to a batch of calls or to a result.
#[derive(Debug)]
pub enum LoopGuardAction {
    Allow,
    Warn { reason: String, suggested_delay_ms: Option<u64> },
    Block { reason: String },
    CircuitBreak { total_repetitions: u64 },
}

/// The model of a [`LoopGuardAction`].
pub enum GuardV {
    Allow,
    Warn(Seq<char>, Option<u64>),
    Block(Seq<char>),
    CircuitBreak(u64),
}

impl DeepView for LoopGuardAction {
    type V = GuardV;

    open spec fn deep_view(&self) -> GuardV {
        match self {
            LoopGuardAction::Allow => GuardV::Allow,
            LoopGuardAction::Warn { reason, suggested_delay_ms } => GuardV::Warn(
                reason@,
                *suggested_delay_ms,
            ),
            LoopGuardAction::Block { reason } => GuardV::Block(reason@),
            LoopGuardAction::CircuitBreak { total_repetitions } => GuardV::CircuitBreak(
                *total_repetitions,
            ),
        }
    }
}

impl GuardV {
    /// Whether the loop has to stop.
    pub open spec fn stops(self) -> bool {
        self is Block || self is CircuitBreak
    }

    /// The note for the conversation.
    pub open spec fn note(self) -> Option<Seq<char>> {
        match self {
            GuardV::Allow => None,
            GuardV::Warn(reason, delay) => Some(
                "[LoopGuard] "@ + reason + (match delay {
                    Some(ms) => " (suggested delay: "@ + decimal(ms as nat) + "ms)"@,
                    None => ""@,
                }) + "."@,
            ),
            GuardV::Block(reason) => Some("[LoopGuard] blocked: "@ + reason + "."@),
            GuardV::CircuitBreak(n) => Some(
                "[LoopGuard] circuit breaker tripped ("@ + decimal(n as nat)
                    + " total repetitions)."@,
            ),
        }
    }

    /// The conversation with the guard's note.
    pub open spec fn noted(self, session: Seq<MessageV>) -> Seq<MessageV> {
        match self.note() {
            Some(note) => session.push(text_message(Role::System, note)),
            None => session,
        }
    }
}

/// Notes what the loop guard says in the conversation; tells whether the loop has
/// to stop.
pub fn check_loop_guard(action: &LoopGuardAction, session: &mut Vec<Message>) -> (r: bool)
    ensures
        r == action.deep_view().stops(),
        final(session).deep_view() == action.deep_view().noted(old(session).deep_view()),
{
    let mut note = String::new();
    let stop = match action {
        LoopGuardAction::Allow => {
            return false;
        },
        LoopGuardAction::Warn { reason, suggested_delay_ms } => {
            let delay_hint = match suggested_delay_ms {
                Some(ms) => {
                    let mut s = text(" (suggested delay: ");
                    put(&mut s, decimal_text(*ms).as_str());
                    put(&mut s, "ms)");
                    s
                },
                None => text(""),
            };
            note = text("[LoopGuard] ");
            put(&mut note, reason.as_str());
            put(&mut note, delay_hint.as_str());
            put(&mut note, ".");
            false
        },
        LoopGuardAction::Block { reason } => {
            note = text("[LoopGuard] blocked: ");
            put(&mut note, reason.as_str());
            put(&mut note, ".");
            true
        },
        LoopGuardAction::CircuitBreak { total_repetitions } => {
            note = text("[LoopGuard] circuit breaker tripped (");
            put(&mut note, decimal_text(*total_repetitions).as_str());
            put(&mut note, " total repetitions).");
            true
        },
    };
    session.push(Message::system(note.as_str()));
    proof {
        assert(session.deep_view() =~= old(session).deep_view().push(
            text_message(Role::System, note@),
        ));
    }
    stop
}

/// The last call with the given identifier among the first `n`.
pub open spec fn call_with_id(calls: Seq<CallV>, id: Seq<char>, n: int) -> Option<CallV>
    decreases n,
{
    if n <= 0 || n > calls.len() {
        None
    } else if calls[n - 1].id == id {
        Some(calls[n - 1])
    } else {
        call_with_id(calls, id, n - 1)
    }
}

/// What the loop guard is told about a result: the call's name and arguments and
/// the beginning of the result.
#[derive(Debug)]
pub struct OutcomeProbe {
    pub name: String,
    pub arguments: String,
    pub prefix: String,
}

/// The model of an [`OutcomeProbe`].
pub struct ProbeV {
    pub name: Seq<char>,
    pub arguments: Seq<char>,
    pub prefix: Seq<char>,
}

impl DeepView for OutcomeProbe {
    type V = ProbeV;

    open spec fn deep_view(&self) -> ProbeV {
        ProbeV { name: self.name@, arguments: self.arguments@, prefix: self.prefix@ }
    }
}

/// What the loop guard is told about results, in order; a result whose call is
/// not known is left out.
pub open spec fn probes(calls: Seq<CallV>, results: Seq<(Seq<char>, Seq<char>)>) -> Seq<ProbeV>
    decreases results.len(),
{
    if results.len() == 0 {
        seq![]
    } else {
        let rest = probes(calls, results.drop_last());
        match call_with_id(calls, results.last().0, calls.len() as int) {
            Some(call) => rest.push(
                ProbeV {
                    name: call.name,
                    arguments: call.arguments,
                    prefix: truncated(results.last().1, 1000),
                },
            ),
            None => rest,
        }
    }
}

fn find_call<'a>(calls: &'a Vec<LLMToolCall>, id: &str) -> (r: Option<&'a LLMToolCall>)
    ensures
        match r {
            Some(c) => call_with_id(calls.deep_view(), id@, calls@.len() as int) == Some(
                c.deep_view(),
            ),
            None => call_with_id(calls.deep_view(), id@, calls@.len() as int) is None,
        },
{
    let ghost all = calls.deep_view();
    let mut n: usize = calls.len();
    while n > 0
        invariant
            n <= calls@.len(),
            all == calls.deep_view(),
            call_with_id(all, id@, calls@.len() as int) == call_with_id(all, id@, n as int),
        decreases n,
    {
        proof {
            assert(all[n - 1] == calls@[n - 1].deep_view());
        }
        if same_text(calls[n - 1].id.as_str(), id) {
            return Some(&calls[n - 1]);
        }
        n = n - 1;
    }
    None
}

/// What the loop guard is told about results.
pub fn outcome_probes(tool_calls: &Vec<LLMToolCall>, results: &Vec<(String, String)>) -> (r: Vec<
    OutcomeProbe,
>)
    ensures
        r.deep_view() == probes(tool_calls.deep_view(), results.deep_view()),
{
    let ghost calls = tool_calls.deep_view();
    let ghost all = results.deep_view();
    let mut out: Vec<OutcomeProbe> = Vec::new();
    let mut i: usize = 0;
    proof {
        assert(all.take(0) =~= Seq::<(Seq<char>, Seq<char>)>::empty());
        assert(out.deep_view() =~= Seq::<ProbeV>::empty());
    }
    while i < results.len()
        invariant
            i <= results@.len(),
            calls == tool_calls.deep_view(),
            all == results.deep_view(),
            out.deep_view() == probes(calls, all.take(i as int)),
        decreases results@.len() - i,
    {
        let ghost before = out.deep_view();
        proof {
            assert(all.take(i + 1).drop_last() =~= all.take(i as int));
            assert(all.take(i + 1).last() == (results@[i as int].0@, results@[i as int].1@));
        }
        if let Some(call) = find_call(tool_calls, results[i].0.as_str()) {
            let probe = OutcomeProbe {
                name: call.name.clone(),
                arguments: call.arguments.clone(),
                prefix: truncate_utf8(results[i].1.as_str(), 1000),
            };
            out.push(probe);
            proof {
                assert(out.deep_view() =~= before.push(probe.deep_view()));
            }
        }
        i = i + 1;
    }
    proof {
        assert(all.take(all.len() as int) =~= all);
    }
    out
}

/// The conversation after the guard's answers from `from` on were noted, up to
/// and with the first one that stops the loop.
pub open spec fn noted_answers(
    answers: Seq<Option<GuardV>>,
    from: int,
    session: Seq<MessageV>,
) -> (Seq<MessageV>, bool)
    decreases answers.len() - from,
{
    if from < 0 || from >= answers.len() {
        (session, false)
    } else {
        match answers[from] {
            Some(a) => if a.stops() {
                (a.noted(session), true)
            } else {
                noted_answers(answers, from + 1, a.noted(session))
            },
            None => noted_answers(answers, from + 1, session),
        }
    }
}

/// Notes the guard's answers to the results of a batch, in order; stops at the
/// first one that stops the loop and tells whether there was one.
pub fn check_loop_guard_outcomes(
    answers: &Vec<Option<LoopGuardAction>>,
    session: &mut Vec<Message>,
) -> (r: bool)
    ensures
        (final(session).deep_view(), r) == noted_answers(
            answers.deep_view(),
            0,
            old(session).deep_view(),
        ),
{
    let ghost all = answers.deep_view();
    let mut i: usize = 0;
    while i < answers.len()
        invariant
            i <= answers@.len(),
            all == answers.deep_view(),
            noted_answers(all, 0, old(session).deep_view()) == noted_answers(
                all,
                i as int,
                session.deep_view(),
            ),
        decreases answers@.len() - i,
    {
        proof {
            assert(all[i as int] == answers@[i as int].deep_view());
        }
        if let Some(action) = &answers[i] {
            if check_loop_guard(action, session) {
                return true;
            }
        }
        i = i + 1;
    }
    false
}

// ---------------------------------------------------------------------------
// Routing
// ---------------------------------------------------------------------------
/// Metadata with the value of one key taken over, if it is there.
pub open spec fn carry(
    to: Map<Seq<char>, Seq<char>>,
    from: Map<Seq<char>, Seq<char>>,
    key: Seq<char>,
) -> Map<Seq<char>, Seq<char>> {
    if from.contains_key(key) {
        to.insert(key, from[key])
    } else {
        to
    }
}

/// Outbound metadata with what routes a reply to the right thread.
pub open spec fn routed(
    to: Map<Seq<char>, Seq<char>>,
    from: Map<Seq<char>, Seq<char>>,
) -> Map<Seq<char>, Seq<char>> {
    carry(
        carry(carry(to, from, "telegram_thread_id"@), from, "telegram_message_id"@),
        from,
        "discord_message_id"@,
    )
}

fn carry_value(to: &mut Metadata, from: &Metadata, key: &str)
    ensures
        final(to)@ == carry(old(to)@, from@, key@),
{
    if let Some(value) = from.get(key) {
        to.insert(key, value.as_str());
    }
}

/// Takes over from an inbound message what routes its reply to the right thread.
pub fn propagate_routing_metadata(outbound: &mut OutboundMessage, inbound: &InboundMessage)
    ensures
        final(outbound)@ == (OutboundV {
            metadata: routed(old(outbound)@.metadata, inbound@.metadata),
            ..old(outbound)@
        }),
{
    carry_value(&mut outbound.metadata, &inbound.metadata, "telegram_thread_id");
    carry_value(&mut outbound.metadata, &inbound.metadata, "telegram_message_id");
    carry_value(&mut outbound.metadata, &inbound.metadata, "discord_message_id");
}

// ---------------------------------------------------------------------------
// Trimmed tool results
// ---------------------------------------------------------------------------
/// The last tool result with the given call identifier among the first `n`.
pub open spec fn result_index(
    session: Seq<MessageV>,
    id: Option<Seq<char>>,
    n: int,
) -> Option<int>
    decreases n,
{
    if n <= 0 || n > session.len() {
        None
    } else if session[n - 1].role == Role::Tool && session[n - 1].tool_call_id == id {
        Some(n - 1)
    } else {
        result_index(session, id, n - 1)
    }
}

/// The conversation with the content of one resolved tool result taken over.
pub open spec fn synced_one(session: Seq<MessageV>, resolved: MessageV) -> Seq<MessageV> {
    if resolved.role != Role::Tool {
        session
    } else {
        match result_index(session, resolved.tool_call_id, session.len() as int) {
            Some(i) => if session[i].content != resolved.content {
                session.update(
                    i,
                    MessageV {
                        content: resolved.content,
                        parts: resolved.parts,
                        ..session[i]
                    },
                )
            } else {
                session
            },
            None => session,
        }
    }
}

/// The conversation with the content of resolved tool results taken over.
pub open spec fn synced(session: Seq<MessageV>, resolved: Seq<MessageV>) -> Seq<MessageV>
    decreases resolved.len(),
{
    if resolved.len() == 0 {
        session
    } else {
        synced_one(synced(session, resolved.drop_last()), resolved.last())
    }
}

/// Whether two optional texts are equal.
fn same_option(a: &Option<String>, b: &Option<String>) -> (r: bool)
    ensures
        r == (a.deep_view() == b.deep_view()),
{
    match (a, b) {
        (Some(x), Some(y)) => same_text(x.as_str(), y.as_str()),
        (None, None) => true,
        _ => false,
    }
}

fn sync_one(session: &mut Vec<Message>, resolved: &Message)
    ensures
        final(session).deep_view() == synced_one(old(session).deep_view(), resolved.deep_view()),
{
    if !matches!(resolved.role, Role::Tool) {
        return;
    }
    let ghost all = session.deep_view();
    let mut n: usize = session.len();
    while n > 0 && !(matches!(session[n - 1].role, Role::Tool) && same_option(
        &session[n - 1].tool_call_id,
        &resolved.tool_call_id,
    ))
        invariant
            n <= session@.len(),
            all == session.deep_view(),
            *session == *old(session),
            result_index(all, resolved.deep_view().tool_call_id, all.len() as int) == result_index(
                all,
                resolved.deep_view().tool_call_id,
                n as int,
            ),
        decreases n,
    {
        proof {
            assert(all[n - 1] == session@[n - 1].deep_view());
        }
        n = n - 1;
    }
    if n == 0 {
        return;
    }
    let i: usize = n - 1;
    proof {
        assert(all[i as int] == session@[i as int].deep_view());
    }
    if !same_text(session[i].content.as_str(), resolved.content.as_str()) {
        let parts: Vec<ContentPart> = resolved.content_parts.clone();
        proof {
            assert(parts.deep_view() =~= resolved.content_parts.deep_view());
        }
        session[i].content = resolved.content.clone();
        session[i].content_parts = parts;
        proof {
            assert(session.deep_view() =~= synced_one(all, resolved.deep_view()));
        }
    }
}

/// Takes over the content of trimmed tool results from the resolved messages into
/// the conversation. A result is found by its call identifier, the most recent one
/// where an identifier was used again.
pub fn sync_trimmed_tool_results(session: &mut Vec<Message>, resolved: &Vec<Message>)
    ensures
        final(session).deep_view() == synced(old(session).deep_view(), resolved.deep_view()),
{
    let ghost all = resolved.deep_view();
    let mut i: usize = 0;
    proof {
        assert(all.take(0) =~= Seq::<MessageV>::empty());
    }
    while i < resolved.len()
        invariant
            i <= resolved@.len(),
            all == resolved.deep_view(),
            session.deep_view() == synced(old(session).deep_view(), all.take(i as int)),
        decreases resolved@.len() - i,
    {
        proof {
            assert(all.take(i + 1).drop_last() =~= all.take(i as int));
            assert(all.take(i + 1).last() == resolved@[i as int].deep_view());
        }
        sync_one(session, &resolved[i]);
        i = i + 1;
    }
    proof {
        assert(all.take(all.len() as int) =~= all);
    }
}

/// Taking over trimmed results neither adds nor drops messages, and changes only
/// the content of tool results.
pub proof fn law_sync_keeps_conversation(session: Seq<MessageV>, resolved: Seq<MessageV>)
    ensures
        synced(session, resolved).len() == session.len(),
        forall|i: int|
            0 <= i < session.len() ==> {
                let m = #[trigger] synced(session, resolved)[i];
                &&& m.role == session[i].role
                &&& m.tool_call_id == session[i].tool_call_id
                &&& m.tool_calls == session[i].tool_calls
                &&& session[i].role != Role::Tool ==> m == session[i]
            },
    decreases resolved.len(),
{
    if resolved.len() > 0 {
        let before = synced(session, resolved.drop_last());
        law_sync_keeps_conversation(session, resolved.drop_last());
        if resolved.last().role == Role::Tool {
            lemma_result_index(before, resolved.last().tool_call_id, before.len() as int);
        }
    }
}

proof fn lemma_result_index(session: Seq<MessageV>, id: Option<Seq<char>>, n: int)
    requires
        0 <= n <= session.len(),
    ensures
        result_index(session, id, n) matches Some(i) ==> 0 <= i < n && session[i].role == Role::Tool
            && session[i].tool_call_id == id,
    decreases n,
{
    if n > 0 && !(session[n - 1].role == Role::Tool && session[n - 1].tool_call_id == id) {
        lemma_result_index(session, id, n - 1);
    }
}

// ---------------------------------------------------------------------------
// Laws
// ---------------------------------------------------------------------------
/// A session is trusted only on the user's own terminal, where it was declared so and
/// is no batch.
pub proof fn law_who_is_trusted(msg: InboundV)
    ensures
        trusted_local(msg) <==> {
            &&& msg.channel == "cli"@
            &&& msg.metadata.contains_key("interactive_cli"@) && msg.metadata["interactive_cli"@]
                == "true"@
            &&& msg.metadata.contains_key("trusted_local_session"@)
                && msg.metadata["trusted_local_session"@] == "true"@
            &&& !(msg.metadata.contains_key("is_batch"@) && msg.metadata["is_batch"@] == "true"@)
        },
{
}

proof fn lemma_tool_named(tools: Seq<ToolV>, name: Seq<char>, from: int)
    requires
        0 <= from <= tools.len(),
    ensures
        match tool_named(tools, name, from) {
            Some(t) => t.tool_name == name && exists|i: int|
                from <= i < tools.len() && #[trigger] tools[i] == t && forall|k: int|
                    from <= k < i ==> (#[trigger] tools[k]).tool_name != name,
            None => forall|i: int|
                from <= i < tools.len() ==> (#[trigger] tools[i]).tool_name != name,
        },
    decreases tools.len() - from,
{
    if from < tools.len() && tools[from].tool_name != name {
        lemma_tool_named(tools, name, from + 1);
        if let Some(t) = tool_named(tools, name, from + 1) {
            let i = choose|i: int|
                from + 1 <= i < tools.len() && #[trigger] tools[i] == t && forall|k: int|
                    from + 1 <= k < i ==> (#[trigger] tools[k]).tool_name != name;
            assert(tools[i] == t);
        }
    } else if from < tools.len() {
        assert(tools[from].tool_name == name);
    }
}

proof fn lemma_tool_exposed(tools: Seq<ToolV>, name: Seq<char>, from: int)
    requires
        0 <= from <= tools.len(),
    ensures
        match tool_exposed(tools, name, from) {
            Some(t) => t.exposed_name == name && tools.contains(t),
            None => forall|i: int|
                from <= i < tools.len() ==> (#[trigger] tools[i]).exposed_name != name,
        },
    decreases tools.len() - from,
{
    if from < tools.len() && tools[from].exposed_name != name {
        lemma_tool_exposed(tools, name, from + 1);
    } else if from < tools.len() {
        assert(tools.contains(tools[from]));
    }
}

/// A tool is found by its own name; with lazy schemas a call is by the name that
/// providers see, and stands for the tool that has it. A name that nothing has stands
/// for itself.
pub proof fn law_calls_are_resolved(tools: Seq<ToolV>, name: Seq<char>)
    ensures
        tool_named(tools, name, 0) matches Some(t) ==> t.tool_name == name && tools.contains(t),
        tool_named(tools, name, 0) is None <==> forall|i: int|
            0 <= i < tools.len() ==> (#[trigger] tools[i]).tool_name != name,
        call_names(tools, name, false).0 == name,
        tool_named(tools, name, 0) matches Some(t) ==> call_names(tools, name, false).1
            == t.exposed_name,
        tool_named(tools, name, 0) is None ==> call_names(tools, name, false).1 == name,
        (exists|i: int| 0 <= i < tools.len() && (#[trigger] tools[i]).exposed_name == name)
            ==> exists|i: int|
            0 <= i < tools.len() && (#[trigger] tools[i]).exposed_name == name && call_names(
                tools,
                name,
                true,
            ) == (tools[i].tool_name, name),
        (forall|i: int| 0 <= i < tools.len() ==> (#[trigger] tools[i]).exposed_name != name)
            ==> call_names(tools, name, true) == (name, name),
{
    lemma_tool_named(tools, name, 0);
    lemma_tool_exposed(tools, name, 0);
    if let Some(t) = tool_exposed(tools, name, 0) {
        let i = choose|i: int| 0 <= i < tools.len() && tools[i] == t;
        assert(tools[i].exposed_name == name);
    }
}

/// The order of calls matters where a tool writes files or runs a shell, and where
/// nobody knows the tool; it does not for any other.
pub proof fn law_when_order_matters(tools: Seq<ToolV>, call: CallV)
    ensures
        tool_named(tools, call.name, 0) is None ==> orders_matter(tools, call, false),
        tool_named(tools, call.name, 0) matches Some(t) ==> (orders_matter(tools, call, false)
            <==> t.category is FilesystemWrite || t.category is Shell),
{
}

/// A call is gated where its tool's own name is among the given ones.
pub proof fn law_which_calls_are_gated(
    tools: Seq<ToolV>,
    call: CallV,
    gated: Seq<Seq<char>>,
    i: int,
)
    ensures
        is_gated(tools, call, false, gated) <==> gated.contains(call.name),
        0 <= i < tools.len() && tools[i].exposed_name == call.name && (forall|k: int|
            0 <= k < tools.len() && k != i ==> (#[trigger] tools[k]).exposed_name != call.name)
            ==> (is_gated(tools, call, true, gated) <==> gated.contains(tools[i].tool_name)),
{
    law_calls_are_resolved(tools, call.name);
    if 0 <= i < tools.len() && tools[i].exposed_name == call.name && (forall|k: int|
        0 <= k < tools.len() && k != i ==> (#[trigger] tools[k]).exposed_name != call.name) {
        let j = choose|j: int|
            0 <= j < tools.len() && (#[trigger] tools[j]).exposed_name == call.name && call_names(
                tools,
                call.name,
                true,
            ) == (tools[j].tool_name, call.name);
        assert(j == i);
    }
}

/// The loop guard stops the loop where it blocks or breaks it, and only there. What it
/// has to say, it says behind the conversation, as the system and with its reason; where
/// it allows a round it says nothing.
pub proof fn law_what_the_loop_guard_says(
    session: Seq<MessageV>,
    reason: Seq<char>,
    ms: u64,
    n: u64,
)
    ensures
        GuardV::Allow.noted(session) == session,
        !GuardV::Allow.stops(),
        !GuardV::Warn(reason, None).stops(),
        !GuardV::Warn(reason, Some(ms)).stops(),
        GuardV::Block(reason).stops(),
        GuardV::CircuitBreak(n).stops(),
        GuardV::Warn(reason, None).noted(session) == session.push(
            text_message(Role::System, "[LoopGuard] "@ + reason + ""@ + "."@),
        ),
        GuardV::Warn(reason, Some(ms)).noted(session) == session.push(
            text_message(
                Role::System,
                "[LoopGuard] "@ + reason + (" (suggested delay: "@ + decimal(ms as nat) + "ms)"@)
                    + "."@,
            ),
        ),
        GuardV::Block(reason).noted(session) == session.push(
            text_message(Role::System, "[LoopGuard] blocked: "@ + reason + "."@),
        ),
        GuardV::CircuitBreak(n).noted(session) == session.push(
            text_message(
                Role::System,
                "[LoopGuard] circuit breaker tripped ("@ + decimal(n as nat)
                    + " total repetitions)."@,
            ),
        ),
{
}

/// The answers of the loop guard to the results of a round are noted in their order, up
/// to and with the first one that stops the loop; where none does, the loop goes on.
pub proof fn law_answers_of_the_loop_guard(
    answers: Seq<Option<GuardV>>,
    from: int,
    session: Seq<MessageV>,
)
    requires
        0 <= from <= answers.len(),
    ensures
        noted_answers(answers, from, session).1 <==> exists|i: int|
            from <= i < answers.len() && ((#[trigger] answers[i]) matches Some(a) && (a is Block
                || a is CircuitBreak)),
        session.is_prefix_of(noted_answers(answers, from, session).0),
        from < answers.len() && answers[from] is None ==> noted_answers(answers, from, session)
            == noted_answers(answers, from + 1, session),
        from < answers.len() ==> (answers[from] matches Some(a) ==> {
            &&& a is Block || a is CircuitBreak ==> noted_answers(answers, from, session).0
                == a.noted(session)
            &&& a is Allow || a is Warn ==> noted_answers(answers, from, session) == noted_answers(
                answers,
                from + 1,
                a.noted(session),
            )
        }),
    decreases answers.len() - from,
{
    if from < answers.len() {
        match answers[from] {
            Some(a) => {
                law_answers_of_the_loop_guard(answers, from + 1, a.noted(session));
                assert(session.is_prefix_of(a.noted(session)));
            },
            None => {
                law_answers_of_the_loop_guard(answers, from + 1, session);
            },
        }
    }
}

proof fn lemma_call_with_id(calls: Seq<CallV>, id: Seq<char>, n: int, i: int)
    requires
        0 <= i < n <= calls.len(),
        calls[i].id == id,
        forall|k: int| i < k < n ==> (#[trigger] calls[k]).id != id,
    ensures
        call_with_id(calls, id, n) == Some(calls[i]),
    decreases n,
{
    if i < n - 1 {
        assert(calls[n - 1].id != id);
        lemma_call_with_id(calls, id, n - 1, i);
    }
}

proof fn lemma_no_call_with_id(calls: Seq<CallV>, id: Seq<char>, n: int)
    requires
        0 <= n <= calls.len(),
        forall|k: int| 0 <= k < n ==> (#[trigger] calls[k]).id != id,
    ensures
        call_with_id(calls, id, n) is None,
    decreases n,
{
    if n > 0 {
        assert(calls[n - 1].id != id);
        lemma_no_call_with_id(calls, id, n - 1);
    }
}

/// The loop guard is told of each result, in order: the name and the arguments of the
/// call that has its identifier, and the beginning of the result. A result that no call
/// asked for is left out.
pub proof fn law_what_the_loop_guard_is_told(
    calls: Seq<CallV>,
    results: Seq<(Seq<char>, Seq<char>)>,
    result: (Seq<char>, Seq<char>),
    i: int,
)
    ensures
        probes(calls, seq![]).len() == 0,
        0 <= i < calls.len() && calls[i].id == result.0 && (forall|k: int|
            i < k < calls.len() ==> (#[trigger] calls[k]).id != result.0) ==> probes(
            calls,
            results.push(result),
        ) == probes(calls, results).push(
            ProbeV {
                name: calls[i].name,
                arguments: calls[i].arguments,
                prefix: truncated(result.1, 1000),
            },
        ),
        (forall|k: int| 0 <= k < calls.len() ==> (#[trigger] calls[k]).id != result.0) ==> probes(
            calls,
            results.push(result),
        ) == probes(calls, results),
{
    assert(results.push(result).drop_last() =~= results);
    if 0 <= i < calls.len() && calls[i].id == result.0 && (forall|k: int|
        i < k < calls.len() ==> (#[trigger] calls[k]).id != result.0) {
        lemma_call_with_id(calls, result.0, calls.len() as int, i);
    }
    if forall|k: int| 0 <= k < calls.len() ==> (#[trigger] calls[k]).id != result.0 {
        lemma_no_call_with_id(calls, result.0, calls.len() as int);
    }
}

/// A reply takes over what routes it to the thread of the message it answers, and
/// nothing else.
pub proof fn law_replies_are_routed(
    to: Map<Seq<char>, Seq<char>>,
    from: Map<Seq<char>, Seq<char>>,
    key: Seq<char>,
)
    ensures
        ({
            let routes = key == "telegram_thread_id"@ || key == "telegram_message_id"@ || key
                == "discord_message_id"@;
            &&& routes && from.contains_key(key) ==> routed(to, from).contains_key(key) && routed(
                to,
                from,
            )[key] == from[key]
            &&& !routes || !from.contains_key(key) ==> routed(to, from).contains_key(key)
                == to.contains_key(key) && (to.contains_key(key) ==> routed(to, from)[key]
                == to[key])
        }),
{
    reveal_strlit("telegram_thread_id");
    reveal_strlit("telegram_message_id");
    reveal_strlit("discord_message_id");
    assert("telegram_thread_id"@.len() == 18 && "telegram_message_id"@.len() == 19
        && "discord_message_id"@.len() == 18);
    assert("telegram_thread_id"@[0] == 't' && "discord_message_id"@[0] == 'd');
}

/// A trimmed result takes the place of the last one with its call's identifier, content
/// and parts; every other message stays.
pub proof fn law_trimmed_results_are_taken_over(
    session: Seq<MessageV>,
    resolved: Seq<MessageV>,
    m: MessageV,
    i: int,
)
    requires
        0 <= i < session.len(),
        session[i].role == Role::Tool,
        session[i].tool_call_id == m.tool_call_id,
        forall|k: int|
            i < k < session.len() ==> !((#[trigger] session[k]).role == Role::Tool
                && session[k].tool_call_id == m.tool_call_id),
    ensures
        synced(session, seq![]) == session,
        synced(session, resolved.push(m)) == synced_one(synced(session, resolved), m),
        m.role == Role::Tool ==> synced_one(session, m).len() == session.len() && synced_one(
            session,
            m,
        )[i].content == m.content && forall|k: int|
            0 <= k < session.len() && k != i ==> #[trigger] synced_one(session, m)[k] == session[k],
        m.role != Role::Tool ==> synced_one(session, m) == session,
{
    assert(resolved.push(m).drop_last() =~= resolved);
    lemma_last_result(session, m.tool_call_id, session.len() as int, i);
}

proof fn lemma_last_result(session: Seq<MessageV>, id: Option<Seq<char>>, n: int, i: int)
    requires
        0 <= i < n <= session.len(),
        session[i].role == Role::Tool,
        session[i].tool_call_id == id,
        forall|k: int|
            i < k < n ==> !((#[trigger] session[k]).role == Role::Tool && session[k].tool_call_id
                == id),
    ensures
        result_index(session, id, n) == Some(i),
    decreases n,
{
    if i < n - 1 {
        assert(!(session[n - 1].role == Role::Tool && session[n - 1].tool_call_id == id));
        lemma_last_result(session, id, n - 1, i);
    }
}

/// A tool, a word of the loop guard and what it is told hold what their models hold.
pub proof fn law_entries_hold_their_names(
    tool: ToolEntry,
    guard: LoopGuardAction,
    probe: OutcomeProbe,
)
    ensures
        tool.deep_view().tool_name == tool.tool_name@,
        tool.deep_view().exposed_name == tool.exposed_name@,
        tool.deep_view().category == tool.category,
        match guard {
            LoopGuardAction::Allow => guard.deep_view() is Allow,
            LoopGuardAction::Warn { reason, suggested_delay_ms } => guard.deep_view()
                == GuardV::Warn(reason@, suggested_delay_ms),
            LoopGuardAction::Block { reason } => guard.deep_view() == GuardV::Block(reason@),
            LoopGuardAction::CircuitBreak { total_repetitions } => guard.deep_view()
                == GuardV::CircuitBreak(total_repetitions),
        },
        probe.deep_view().name == probe.name@,
        probe.deep_view().arguments == probe.arguments@,
        probe.deep_view().prefix == probe.prefix@,
{
}

} // verus!
