//! What happens to a turn before its first model call, and to its conversation
//! before any.
use vstd::prelude::*;

use crate::agent_loop::CompactionUrgency;
use crate::bus::{InboundMessage, InboundV};
use crate::providers::{LLMResponse, ResponseV};
use crate::session::{Message, MessageV, Role};
use crate::text::{put, same_text, text};
use crate::turn::{classify_final_content, content_outcome, TurnOutcome};

verus! {

// ---------------------------------------------------------------------------
// Injections
// ---------------------------------------------------------------------------
/// What becomes of a message after the scan for injections.
#[derive(Debug, Clone, Copy, PartialEq, Eq, Structural)]
pub enum InboundScan {
    /// Nothing was found.
    Clean,
    /// Something was found; the channel is trusted enough to go on.
    Warned,
    /// Something was found; the message is turned away.
    Blocked,
}

/// What the sender of a message that was turned away is told.
pub const INJECTION_REJECTED: &'static str =
    "Message rejected: potential prompt injection detected";

/// What becomes of a message, by whether the scan is switched on and whether it
/// found something. Only the open channel of webhooks is blocked.
pub open spec fn scan_of(
    safety_enabled: bool,
    injection_check_enabled: bool,
    suspicious: bool,
    channel: Seq<char>,
) -> InboundScan {
    if !safety_enabled || !injection_check_enabled || !suspicious {
        InboundScan::Clean
    } else if channel == "webhook"@ {
        InboundScan::Blocked
    } else {
        InboundScan::Warned
    }
}

/// What becomes of a message after the scan for injections.
pub fn scan_inbound(
    safety_enabled: bool,
    injection_check_enabled: bool,
    suspicious: bool,
    channel: &str,
) -> (r: InboundScan)
    ensures
        r == scan_of(safety_enabled, injection_check_enabled, suspicious, channel@),
{
    if !safety_enabled || !injection_check_enabled || !suspicious {
        return InboundScan::Clean;
    }
    if same_text(channel, "webhook") {
        InboundScan::Blocked
    } else {
        InboundScan::Warned
    }
}

/// The name under which the audit log keeps a scan; nothing is kept of a message
/// in which nothing was found.
pub fn audit_event(scan: InboundScan) -> (r: Option<&'static str>)
    ensures
        match scan {
            InboundScan::Clean => r is None,
            InboundScan::Warned => r matches Some(name) && name@ == "inbound_injection_warned"@,
            InboundScan::Blocked => r matches Some(name) && name@ == "inbound_injection_blocked"@,
        },
{
    match scan {
        InboundScan::Clean => None,
        InboundScan::Warned => Some("inbound_injection_warned"),
        InboundScan::Blocked => Some("inbound_injection_blocked"),
    }
}

/// The line of the audit log about a message in which something was found.
pub open spec fn audit_line(msg: InboundV) -> Seq<char> {
    "Channel: "@ + msg.channel + ", sender: "@ + msg.sender_id
}

/// The line of the audit log about a message in which something was found.
pub fn injection_audit_line(msg: &InboundMessage) -> (r: String)
    ensures
        r@ == audit_line(msg@),
{
    let mut s = text("Channel: ");
    put(&mut s, msg.channel.as_str());
    put(&mut s, ", sender: ");
    put(&mut s, msg.sender_id.as_str());
    s
}

// ---------------------------------------------------------------------------
// Provider and tokens
// ---------------------------------------------------------------------------
/// Whether a turn begins, and with which provider: a message that the scan blocked
/// is turned away before anything else is looked at.
pub fn begin_turn(scan: InboundScan, provider: Option<u64>) -> (r: Result<u64, String>)
    ensures
        match r {
            Ok(p) => !(scan is Blocked) && provider == Some(p),
            Err(e) => if scan is Blocked {
                e@ == INJECTION_REJECTED@
            } else {
                provider is None && e@ == "No provider configured"@
            },
        },
{
    if matches!(scan, InboundScan::Blocked) {
        return Err(text(INJECTION_REJECTED));
    }
    require_provider(provider)
}

/// Without a provider there is no turn.
pub fn require_provider(provider: Option<u64>) -> (r: Result<u64, String>)
    ensures
        match (provider, r) {
            (Some(p), Ok(q)) => p == q,
            (None, Err(e)) => e@ == "No provider configured"@,
            _ => false,
        },
{
    match provider {
        Some(p) => Ok(p),
        None => Err(text("No provider configured")),
    }
}

/// The error of a turn whose tokens are used up before its first model call.
pub open spec fn budget_error(summary: Seq<char>) -> Seq<char> {
    "Token budget exceeded: "@ + summary
}

/// The error of a turn whose tokens are used up before its first model call.
pub fn budget_error_text(summary: &str) -> (r: String)
    ensures
        r@ == budget_error(summary@),
{
    let mut s = text("Token budget exceeded: ");
    put(&mut s, summary);
    s
}

// ---------------------------------------------------------------------------
// Cached answers
// ---------------------------------------------------------------------------
/// The system prompt of a model call: the first message where it is one.
pub open spec fn system_prompt_of(messages: Seq<MessageV>) -> Seq<char> {
    if messages.len() > 0 && messages[0].role == Role::System {
        messages[0].content
    } else {
        ""@
    }
}

/// The system prompt of a model call, which is part of a cached answer's key.
pub fn cache_system_prompt(messages: &Vec<Message>) -> (r: &str)
    ensures
        r@ == system_prompt_of(messages.deep_view()),
{
    if messages.len() > 0 && messages[0].role == Role::System {
        messages[0].content.as_str()
    } else {
        ""
    }
}

/// What a cache keeps of an answer: its text and its size. An answer with tool
/// calls is not kept, nor is one that cannot be shown.
pub open spec fn kept_answer(response: ResponseV) -> Option<(Seq<char>, u32)> {
    if response.tool_calls.len() > 0 || !(content_outcome(response.content) is FinalAnswer) {
        None
    } else {
        Some(
            (
                response.content,
                match response.usage {
                    Some(u) => u.completion_tokens,
                    None => 0,
                },
            ),
        )
    }
}

/// What a cache keeps of an answer.
pub fn cacheable(response: &LLMResponse) -> (r: Option<(&str, u32)>)
    ensures
        match r {
            Some((content, tokens)) => kept_answer(response.deep_view()) == Some(
                (content@, tokens),
            ),
            None => kept_answer(response.deep_view()) is None,
        },
{
    if response.has_tool_calls() {
        return None;
    }
    let shown = matches!(
        classify_final_content(response.content.as_str()),
        TurnOutcome::FinalAnswer(_)
    );
    if !shown {
        return None;
    }
    let tokens: u32 = match response.usage {
        Some(u) => u.completion_tokens,
        None => 0,
    };
    Some((response.content.as_str(), tokens))
}

// ---------------------------------------------------------------------------
// Cutting a conversation
// ---------------------------------------------------------------------------
/// What the guard before a model call found.
#[derive(Debug, Clone, Copy, PartialEq, Eq, Structural)]
pub enum PreflightAction {
    Fits,
    /// Tool results that were too long are shorter now.
    Trimmed,
    /// The conversation is too long.
    NeedsCompaction,
}

/// How a conversation is cut.
#[derive(Debug, Clone, Copy, PartialEq, Eq, Structural)]
pub struct Cut {
    pub urgency: CompactionUrgency,
    /// How many of the last messages stay in any case.
    pub keep_recent: usize,
}

/// How a conversation is cut before a model call; not at all where it is short
/// enough.
pub fn preflight_cut(action: PreflightAction) -> (r: Option<Cut>)
    ensures
        r == (if action is NeedsCompaction {
            Some(Cut { urgency: CompactionUrgency::Emergency, keep_recent: 5 })
        } else {
            None
        }),
{
    match action {
        PreflightAction::NeedsCompaction => Some(
            Cut { urgency: CompactionUrgency::Emergency, keep_recent: 5 },
        ),
        _ => None,
    }
}

/// How a conversation of the given urgency is cut outside a model call.
pub fn context_cut(urgency: CompactionUrgency) -> (r: Cut)
    ensures
        r == (Cut { urgency, keep_recent: 8 }),
{
    Cut { urgency, keep_recent: 8 }
}

/// Whether there is time to keep memories before a conversation is cut.
pub fn flushes_memory(urgency: CompactionUrgency) -> (r: bool)
    ensures
        r == (urgency is Normal),
{
    matches!(urgency, CompactionUrgency::Normal)
}

// ---------------------------------------------------------------------------
// Laws
// ---------------------------------------------------------------------------
/// What a cache keeps can be shown, and stands for a whole answer.
pub proof fn law_kept_answers_can_be_shown(response: ResponseV)
    ensures
        kept_answer(response) matches Some((content, _)) ==> content == response.content
            && content_outcome(content) is FinalAnswer && response.tool_calls.len() == 0,
{
}

/// Nothing is turned away unless the scan is switched on and found something, and
/// then only from webhooks.
pub proof fn law_only_webhooks_are_blocked(
    safety_enabled: bool,
    injection_check_enabled: bool,
    suspicious: bool,
    channel: Seq<char>,
)
    ensures
        scan_of(safety_enabled, injection_check_enabled, suspicious, channel) is Blocked <==> (
        safety_enabled && injection_check_enabled && suspicious && channel == "webhook"@),
        !suspicious ==> scan_of(safety_enabled, injection_check_enabled, suspicious, channel)
            is Clean,
{
}

/// A cache keeps an answer of text alone, as it is, with the number of its tokens, and
/// keeps it for the system prompt that the call began with.
pub proof fn law_what_a_cache_keeps(response: ResponseV, messages: Seq<MessageV>)
    ensures
        response.tool_calls.len() == 0 && content_outcome(response.content) is FinalAnswer ==> (
        kept_answer(response) matches Some((content, tokens)) && content == response.content && (
        response.usage matches Some(u) ==> tokens == u.completion_tokens) && (response.usage is None
            ==> tokens == 0)),
        response.tool_calls.len() > 0 ==> kept_answer(response) is None,
        messages.len() > 0 && messages[0].role == Role::System ==> system_prompt_of(messages)
            == messages[0].content,
        messages.len() == 0 || messages[0].role != Role::System ==> system_prompt_of(messages)
            == ""@,
{
}

/// A suspicious message is noted wherever the scan is switched on, and the note names
/// the channel and the sender.
pub proof fn law_suspicious_messages_are_noted(channel: Seq<char>, msg: InboundV)
    ensures
        channel != "webhook"@ ==> scan_of(true, true, true, channel) is Warned,
        channel == "webhook"@ ==> scan_of(true, true, true, channel) is Blocked,
        scan_of(false, true, true, channel) is Clean,
        scan_of(true, false, true, channel) is Clean,
        audit_line(msg) == "Channel: "@ + msg.channel + ", sender: "@ + msg.sender_id,
{
}

} // verus!
