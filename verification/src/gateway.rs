//! The gateway's decisions: thread commands, approvals, reloads.
use vstd::prelude::*;

use crate::agui_events::{APPROVAL_REQUEST, APPROVAL_RESOLVED};
use crate::approval::{
    maybe_text, AnswerV, ApprovalRequest, ApprovalResponse, RequestV, ThreadKey, ThreadV,
};
use crate::bus::{
    plain_outbound, InboundMessage, InboundV, OutboundMessage, OutboundMessageKind, OutboundV,
    OUTBOUND_CUSTOM_NAME_KEY, OUTBOUND_CUSTOM_PAYLOAD_KEY, OUTBOUND_CUSTOM_SUMMARY_KEY,
};
use crate::json::{
    at, find_field, get_field, json_pretty_text, json_text, lemma_object_view, no_fields, object,
    print_json, print_json_pretty, put_field, put_text, same_json, says, Json, JsonV,
};
use crate::loop_events::maybe_outbound;
use crate::number::{decimal, decimal_text};
use crate::split::{join, join_text};
use crate::text::{
    chars_of, contains, find_chars, first_at, law_parts_of_parts, law_texts_hold_their_parts,
    lemma_first_at, lemma_holds_middle, lower, lower_text, lowered, occurs_at, put,
    same_ignoring_case, same_text, text, text_between, to_lower, trim, trim_text,
};
use crate::threadmap::ThreadMap;

verus! {

/// How long an approval is waited for where the configuration says nothing.
pub const DEFAULT_APPROVAL_TIMEOUT_SECS: u64 = 120;

/// How long the user has to reply `confirm`, in nanoseconds.
pub const CONFIRM_WINDOW_NS: u64 = 60_000_000_000;

/// How many seconds pass between two sweeps of abandoned approvals.
pub const SWEEP_INTERVAL_SECS: u64 = 30;

/// After how many seconds an approval counts as abandoned.
pub const SWEEP_TTL_SECS: u64 = 600;

// ---------------------------------------------------------------------------
// Configuration
// ---------------------------------------------------------------------------
/// The Docker program that the configuration names, `docker` where it names none.
pub fn configured_docker_binary(docker_binary: Option<&str>) -> (r: String)
    ensures
        r@ == (match docker_binary {
            Some(b) => if trim(b@).len() > 0 {
                trim(b@)
            } else {
                "docker"@
            },
            None => "docker"@,
        }),
{
    match docker_binary {
        Some(b) => {
            let t = trim_text(b);
            if t.as_str().is_empty() {
                text("docker")
            } else {
                t
            }
        },
        None => text("docker"),
    }
}

/// The channel and the chat in a text of the form `channel:chat`; the chat may
/// itself hold colons.
pub open spec fn delivery_target(s: Seq<char>) -> Option<(Seq<char>, Seq<char>)> {
    match first_at(s, seq![':'], 0) {
        Some(i) => if 0 < i && i + 1 < s.len() {
            Some((s.take(i), s.skip(i + 1)))
        } else {
            None
        },
        None => None,
    }
}

/// The channel and the chat in a text of the form `channel:chat`.
pub fn parse_deliver_to(s: &str) -> (r: Option<(String, String)>)
    ensures
        match r {
            Some((channel, chat_id)) => delivery_target(s@) == Some((channel@, chat_id@)),
            None => delivery_target(s@) is None,
        },
{
    let v = chars_of(s);
    let mut colon: Vec<char> = Vec::new();
    colon.push(':');
    proof {
        assert(colon@ =~= seq![':']);
    }
    match find_chars(&v, &colon, 0) {
        Some(i) => if 0 < i && i + 1 < v.len() {
            let channel = text_between(&v, 0, i);
            let chat_id = text_between(&v, i + 1, v.len());
            proof {
                assert(channel@ =~= s@.take(i as int));
                assert(chat_id@ =~= s@.skip(i + 1));
            }
            Some((channel, chat_id))
        } else {
            None
        },
        None => None,
    }
}

/// Where heartbeats go: to the configured chat, or to the channel of their own
/// where none is configured or the setting cannot be read.
pub fn heartbeat_target(deliver_to: Option<&str>) -> (r: (String, String))
    ensures
        match deliver_to {
            Some(s) => match delivery_target(s@) {
                Some((channel, chat_id)) => r.0@ == channel && r.1@ == chat_id,
                None => r.0@ == "heartbeat"@ && r.1@ == "system"@,
            },
            None => r.0@ == "heartbeat"@ && r.1@ == "system"@,
        },
{
    if let Some(s) = deliver_to {
        if let Some(target) = parse_deliver_to(s) {
            return target;
        }
    }
    (text("heartbeat"), text("system"))
}

/// Where the agent runs when it runs in a container.
#[derive(Debug, Clone, Copy, PartialEq, Eq, Structural)]
pub enum ContainerBackend {
    Auto,
    Docker,
    Apple,
}

/// The container backend that a flag asks for, in any case; none where the
/// configuration decides.
pub open spec fn backend_of(flag: Seq<char>, apple: bool) -> Result<
    Option<ContainerBackend>,
    Seq<char>,
> {
    let name = lowered(flag);
    if flag == "auto"@ {
        Ok(None)
    } else if name == "docker"@ {
        Ok(Some(ContainerBackend::Docker))
    } else if apple && name == "apple"@ {
        Ok(Some(ContainerBackend::Apple))
    } else if name == "auto"@ {
        Ok(Some(ContainerBackend::Auto))
    } else if apple {
        Err("Unknown backend '"@ + name + "'. Use: docker or apple"@)
    } else {
        Err("Unknown backend '"@ + name + "'. Use: docker"@)
    }
}

/// The container backend that a flag asks for. `apple` tells whether the machine
/// offers Apple containers.
pub fn parse_container_backend(flag: &str, apple: bool) -> (r: Result<
    Option<ContainerBackend>,
    String,
>)
    ensures
        match backend_of(flag@, apple) {
            Ok(b) => r == Ok::<Option<ContainerBackend>, String>(b),
            Err(e) => r matches Err(m) && m@ == e,
        },
{
    if same_text(flag, "auto") {
        return Ok(None);
    }
    let lowered = lower_text(flag);
    let name = lowered.as_str();
    if same_text(name, "docker") {
        return Ok(Some(ContainerBackend::Docker));
    }
    if apple && same_text(name, "apple") {
        return Ok(Some(ContainerBackend::Apple));
    }
    if same_text(name, "auto") {
        return Ok(Some(ContainerBackend::Auto));
    }
    let mut message = text("Unknown backend '");
    put(&mut message, name);
    put(
        &mut message,
        if apple {
            "'. Use: docker or apple"
        } else {
            "'. Use: docker"
        },
    );
    Err(message)
}

/// The tools that are switched off after consecutive crashes: those that write
/// files or run commands.
pub fn degraded_tools() -> (r: Vec<String>)
    ensures
        r.deep_view() == seq!["shell"@, "write_file"@, "edit_file"@],
{
    let mut out: Vec<String> = Vec::new();
    out.push(text("shell"));
    out.push(text("write_file"));
    out.push(text("edit_file"));
    proof {
        assert(out.deep_view() =~= seq!["shell"@, "write_file"@, "edit_file"@]);
    }
    out
}

/// How long an approval is waited for, in seconds.
pub fn resolve_approval_timeout(configured_secs: u64) -> (r: u64)
    ensures
        r == (if configured_secs > 0 {
            configured_secs
        } else {
            DEFAULT_APPROVAL_TIMEOUT_SECS
        }),
{
    if configured_secs > 0 {
        configured_secs
    } else {
        DEFAULT_APPROVAL_TIMEOUT_SECS
    }
}

/// What is said where Docker cannot be used.
pub fn docker_unavailable(docker_binary: &str) -> (r: String)
    ensures
        r@ == "Docker is not available via '"@ + docker_binary@
            + "'. Install Docker or run without --containerized."@,
{
    let mut s = text("Docker is not available via '");
    put(&mut s, docker_binary);
    put(&mut s, "'. Install Docker or run without --containerized.");
    s
}

/// The error about Apple containers that cannot be used.
pub const APPLE_UNAVAILABLE: &'static str =
    "Apple Container is not available. Requires macOS 15+ with `container` CLI installed.";

/// The error about a container image that is not there.
pub fn image_missing(image: &str, docker_binary: &str) -> (r: String)
    ensures
        r@ == "Docker image '"@ + image@ + "' not found (checked via '"@ + docker_binary@
            + "')"@,
{
    let mut s = text("Docker image '");
    put(&mut s, image);
    put(&mut s, "' not found (checked via '");
    put(&mut s, docker_binary);
    put(&mut s, "')");
    s
}

/// What the operator is told where no provider can be used: that none is
/// configured, or which are and which could be used.
pub open spec fn complaints(
    configured: Seq<Seq<char>>,
    supported: Seq<Seq<char>>,
    config_path: Seq<char>,
) -> (Seq<char>, Seq<char>) {
    if configured.len() == 0 {
        (
            "No AI provider configured. Set ZEPTOCLAW_PROVIDERS_ANTHROPIC_API_KEY"@,
            "or add your API key to "@ + config_path,
        )
    } else {
        (
            "Configured provider(s) are not supported by this runtime: "@ + join(
                configured,
                ", "@,
            ),
            "Currently supported runtime providers: "@ + join(supported, ", "@),
        )
    }
}

/// What the operator is told where no provider can be used; nothing where one can.
pub fn provider_complaints(
    usable: bool,
    configured: &Vec<String>,
    supported: &Vec<String>,
    config_path: &str,
) -> (r: Option<(String, String)>)
    ensures
        match r {
            Some((first, second)) => !usable && (first@, second@) == complaints(
                configured.deep_view(),
                supported.deep_view(),
                config_path@,
            ),
            None => usable,
        },
{
    if usable {
        return None;
    }
    proof {
        assert(configured.deep_view().len() == configured@.len());
    }
    if configured.len() == 0 {
        let mut second = text("or add your API key to ");
        put(&mut second, config_path);
        return Some(
            (text("No AI provider configured. Set ZEPTOCLAW_PROVIDERS_ANTHROPIC_API_KEY"), second),
        );
    }
    let mut first = text("Configured provider(s) are not supported by this runtime: ");
    put(&mut first, join_text(configured, ", ").as_str());
    let mut second = text("Currently supported runtime providers: ");
    put(&mut second, join_text(supported, ", ").as_str());
    Some((first, second))
}

/// How bad a finding about the configuration is.
#[derive(Debug, Clone, Copy, PartialEq, Eq, Structural)]
pub enum DiagnosticLevel {
    Fine,
    Warn,
    Error,
}

/// Whether the findings about the configuration forbid a start.
pub fn forbids_start(levels: &Vec<DiagnosticLevel>) -> (r: bool)
    ensures
        r == levels@.contains(DiagnosticLevel::Error),
{
    let mut i: usize = 0;
    while i < levels.len()
        invariant
            i <= levels@.len(),
            forall|j: int| 0 <= j < i ==> levels@[j] != DiagnosticLevel::Error,
        decreases levels@.len() - i,
    {
        if matches!(levels[i], DiagnosticLevel::Error) {
            assert(levels@[i as int] == DiagnosticLevel::Error);
            return true;
        }
        i = i + 1;
    }
    false
}

/// The tunnel to open: the one that the command line asks for, or else the
/// configured one.
pub fn tunnel_provider(flag: Option<String>, configured: Option<String>) -> (r: Option<String>)
    ensures
        r.deep_view() == (if flag is Some {
            flag.deep_view()
        } else {
            configured.deep_view()
        }),
{
    match flag {
        Some(f) => Some(f),
        None => configured,
    }
}

/// What the operator reads once the gateway runs.
pub open spec fn banner(degraded: bool, containerized: bool) -> Seq<Seq<char>> {
    (if degraded {
        seq![
            "  WARNING: DEGRADED MODE — dangerous tools disabled after consecutive crashes"@,
            "  Fix the underlying issue and restart to clear."@,
        ]
    } else {
        Seq::<Seq<char>>::empty()
    }).push(
        if containerized {
            "Gateway is running (containerized mode). Press Ctrl+C to stop."@
        } else {
            "Gateway is running. Press Ctrl+C to stop."@
        },
    )
}

/// What the operator reads once the gateway runs.
pub fn gateway_banner(degraded: bool, containerized: bool) -> (r: Vec<String>)
    ensures
        r.deep_view() == banner(degraded, containerized),
{
    let mut lines: Vec<String> = Vec::new();
    if degraded {
        lines.push(
            text("  WARNING: DEGRADED MODE — dangerous tools disabled after consecutive crashes"),
        );
        lines.push(text("  Fix the underlying issue and restart to clear."));
    }
    lines.push(
        text(
            if containerized {
                "Gateway is running (containerized mode). Press Ctrl+C to stop."
            } else {
                "Gateway is running. Press Ctrl+C to stop."
            },
        ),
    );
    proof {
        assert(lines.deep_view() =~= banner(degraded, containerized));
    }
    lines
}

// ---------------------------------------------------------------------------
// Reloading the configuration
// ---------------------------------------------------------------------------
/// The sections that take effect without a restart, as JSON; none where a section
/// could not be written as JSON.
#[derive(Debug)]
pub struct HotSections {
    pub providers: Option<Json>,
    pub channels: Option<Json>,
    pub safety: Option<Json>,
    pub agents: Option<Json>,
}

/// The model of an optional value.
pub open spec fn maybe_json(j: Option<Json>) -> Option<JsonV> {
    match j {
        Some(x) => Some(x@),
        None => None,
    }
}

/// Whether a section differs.
pub fn section_changed(old: &Option<Json>, new: &Option<Json>) -> (r: bool)
    ensures
        r == (maybe_json(*old) != maybe_json(*new)),
{
    match (old, new) {
        (Some(a), Some(b)) => !same_json(a, b),
        (None, None) => false,
        _ => true,
    }
}

/// The names followed by one more where `changed` holds.
pub open spec fn with_name(names: Seq<Seq<char>>, changed: bool, name: Seq<char>) -> Seq<Seq<char>> {
    if changed {
        names.push(name)
    } else {
        names
    }
}

/// The names of the sections that differ.
pub open spec fn changed_sections(old: HotSections, new: HotSections) -> Seq<Seq<char>> {
    let a = with_name(
        seq![],
        maybe_json(old.providers) != maybe_json(new.providers),
        "providers"@,
    );
    let b = with_name(a, maybe_json(old.channels) != maybe_json(new.channels), "channels"@);
    let c = with_name(b, maybe_json(old.safety) != maybe_json(new.safety), "safety"@);
    with_name(c, maybe_json(old.agents) != maybe_json(new.agents), "agents"@)
}

fn add_name(names: &mut Vec<String>, changed: bool, name: &str)
    ensures
        final(names).deep_view() == with_name(old(names).deep_view(), changed, name@),
{
    if changed {
        names.push(text(name));
        proof {
            assert(names.deep_view() =~= old(names).deep_view().push(name@));
        }
    }
}

/// The names of the sections that differ.
pub fn diff_hot_reload_sections(old: &HotSections, new: &HotSections) -> (r: Vec<String>)
    ensures
        r.deep_view() == changed_sections(*old, *new),
{
    let mut changed: Vec<String> = Vec::new();
    proof {
        assert(changed.deep_view() =~= Seq::<Seq<char>>::empty());
    }
    add_name(&mut changed, section_changed(&old.providers, &new.providers), "providers");
    add_name(&mut changed, section_changed(&old.channels, &new.channels), "channels");
    add_name(&mut changed, section_changed(&old.safety, &new.safety), "safety");
    add_name(&mut changed, section_changed(&old.agents, &new.agents), "agents");
    changed
}

/// What a new configuration makes necessary.
#[derive(Debug, Clone, Copy, PartialEq, Eq, Structural)]
pub struct ReloadPlan {
    /// Whether anything is to be done.
    pub apply: bool,
    /// Whether the agent is built anew.
    pub rebuild_agent: bool,
    /// Whether the channels are built anew.
    pub rebuild_channels: bool,
}

/// What a new configuration makes necessary: nothing where no section differs; the
/// agent is built anew unless it runs in a container, the channels only where
/// their section differs.
pub fn reload_plan(old: &HotSections, new: &HotSections, containerized: bool) -> (r: ReloadPlan)
    ensures
        r.apply == (changed_sections(*old, *new).len() > 0),
        r.rebuild_agent == (r.apply && !containerized),
        r.rebuild_channels == (maybe_json(old.channels) != maybe_json(new.channels)),
{
    let changed = diff_hot_reload_sections(old, new);
    proof {
        assert(changed.deep_view().len() == changed@.len());
    }
    let apply = changed.len() > 0;
    ReloadPlan {
        apply,
        rebuild_agent: apply && !containerized,
        rebuild_channels: section_changed(&old.channels, &new.channels),
    }
}

/// Whether the new configuration stays in force: nothing that had to be built anew
/// failed. `agent_built` and `channels_started` are not looked at where the plan
/// did not ask for them.
pub fn keeps_new_config(plan: &ReloadPlan, agent_built: bool, channels_started: bool) -> (r: bool)
    ensures
        r == (plan.apply && (plan.rebuild_agent ==> agent_built) && (plan.rebuild_channels
            ==> channels_started)),
{
    plan.apply && (!plan.rebuild_agent || agent_built) && (!plan.rebuild_channels
        || channels_started)
}

/// Two configurations whose hot sections are equal make nothing necessary.
pub proof fn law_equal_sections_need_no_reload(s: HotSections, t: HotSections)
    ensures
        changed_sections(s, t).len() == 0 <==> maybe_json(s.providers) == maybe_json(t.providers)
            && maybe_json(s.channels) == maybe_json(t.channels) && maybe_json(s.safety)
            == maybe_json(t.safety) && maybe_json(s.agents) == maybe_json(t.agents),
{
}

// ---------------------------------------------------------------------------
// Replies and commands
// ---------------------------------------------------------------------------
/// What a reply to an approval request says.
pub open spec fn reply_of(lowered: Seq<char>) -> Option<bool> {
    if lowered == "yes"@ || lowered == "y"@ || lowered == "approve"@ {
        Some(true)
    } else if lowered == "no"@ || lowered == "n"@ || lowered == "deny"@ {
        Some(false)
    } else {
        None
    }
}

/// What a reply in lower case says.
pub fn parse_lowered_reply(lowered: &str) -> (r: Option<bool>)
    ensures
        r == reply_of(lowered@),
{
    if same_text(lowered, "yes") || same_text(lowered, "y") || same_text(lowered, "approve") {
        Some(true)
    } else if same_text(lowered, "no") || same_text(lowered, "n") || same_text(lowered, "deny") {
        Some(false)
    } else {
        None
    }
}

/// What a reply to an approval request says, if it is one. It is about a single
/// request: words that speak of all of them are no reply.
pub fn parse_approval_reply(content: &str) -> (r: Option<bool>)
    ensures
        r == reply_of(lowered(trim(content@))),
{
    let trimmed = trim_text(content);
    let lowered = lower_text(trimmed.as_str());
    parse_lowered_reply(lowered.as_str())
}

/// Whether a channel speaks ACP.
pub fn is_acp_channel(channel: &str) -> (r: bool)
    ensures
        r == (channel@ == "acp"@ || channel@ == "acp_http"@),
{
    same_text(channel, "acp") || same_text(channel, "acp_http")
}

/// A command on a thread's approvals.
#[derive(Debug, Clone, Copy, PartialEq, Eq, Structural)]
pub enum ThreadCommand {
    SkipApproval,
    RequireApproval,
    Status,
    Help,
}

/// The command that a text in lower case is.
pub open spec fn command_of(lowered: Seq<char>) -> Option<ThreadCommand> {
    if lowered == "/skip-approval"@ || lowered == "/skip_approval"@ {
        Some(ThreadCommand::SkipApproval)
    } else if lowered == "/require-approval"@ || lowered == "/require_approval"@ {
        Some(ThreadCommand::RequireApproval)
    } else if lowered == "/approval-status"@ || lowered == "/approval_status"@ {
        Some(ThreadCommand::Status)
    } else if lowered == "/help"@ || lowered == "/?"@ {
        Some(ThreadCommand::Help)
    } else {
        None
    }
}

/// The command that a text is, in any case.
pub fn parse_thread_command(content: &str) -> (r: Option<ThreadCommand>)
    ensures
        r == command_of(lower(content@)),
{
    let lowered = to_lower(content);
    let l = lowered.as_str();
    if same_text(l, "/skip-approval") || same_text(l, "/skip_approval") {
        Some(ThreadCommand::SkipApproval)
    } else if same_text(l, "/require-approval") || same_text(l, "/require_approval") {
        Some(ThreadCommand::RequireApproval)
    } else if same_text(l, "/approval-status") || same_text(l, "/approval_status") {
        Some(ThreadCommand::Status)
    } else if same_text(l, "/help") || same_text(l, "/?") {
        Some(ThreadCommand::Help)
    } else {
        None
    }
}

/// The answer to `/help`.
pub const THREAD_HELP_TEXT: &'static str =
    "**zeptoclaw — available commands**\n\nApproval mode (per-thread, persistent):\n• `/skip-approval` — disable manual approval. Reply `confirm` within 60s to take effect.\n• `/require-approval` — re-enable manual approval (default).\n• `/approval-status` — show current mode + pending count.\n\nMisc:\n• `/help` — show this message.\n\nWhile an approval card is active, reply `yes` / `no` to that specific card.\nHardFloor rules (destructive shell commands) always require approval and cannot be skipped by `/skip-approval`.";

// ---------------------------------------------------------------------------
// Thread modes
// ---------------------------------------------------------------------------
/// Whether a thread's tool calls wait for the user.
#[derive(Debug, Clone, Copy, PartialEq, Eq, Structural)]
pub enum ThreadApprovalMode {
    RequireApproval,
    AutoApprove,
}

/// The mode of a thread, and who set it when.
#[derive(Debug)]
pub struct ThreadApprovalState {
    pub mode: ThreadApprovalMode,
    /// The channel that set the mode; empty where it was never set.
    pub updated_by: String,
    /// When the mode was set, in RFC 3339.
    pub updated_at: String,
}

/// A request to skip approvals that waits for the user's `confirm`.
#[derive(Debug)]
pub struct ConfirmPending {
    /// Until when the user can confirm, in nanoseconds.
    pub deadline: u64,
    pub channel: String,
    pub chat_id: String,
}

/// The modes that were set, each with the channel that set it.
#[derive(Debug)]
pub struct ThreadModes {
    modes: ThreadMap<ThreadApprovalMode>,
}

impl View for ThreadModes {
    type V = Map<ThreadV, ThreadApprovalMode>;

    closed spec fn view(&self) -> Map<ThreadV, ThreadApprovalMode> {
        self.modes@
    }
}

/// The mode of a thread; one that was never set requires approval.
pub open spec fn mode_of(
    modes: Map<ThreadV, ThreadApprovalMode>,
    thread: ThreadV,
) -> ThreadApprovalMode {
    if modes.contains_key(thread) {
        modes[thread]
    } else {
        ThreadApprovalMode::RequireApproval
    }
}

impl ThreadModes {
    /// No mode was set.
    pub fn new() -> (r: Self)
        ensures
            r@ == Map::<ThreadV, ThreadApprovalMode>::empty(),
    {
        ThreadModes { modes: ThreadMap::new() }
    }

    /// Sets the mode of a thread.
    pub fn set(&mut self, thread: &ThreadKey, mode: ThreadApprovalMode)
        ensures
            final(self)@ == old(self)@.insert(thread@, mode),
    {
        self.modes.insert(thread, mode);
    }

    /// Whether a thread's tool calls run without the user.
    pub fn is_auto_approve(&self, thread: &ThreadKey) -> (r: bool)
        ensures
            r == (mode_of(self@, thread@) == ThreadApprovalMode::AutoApprove),
    {
        match self.modes.get(thread) {
            Some(mode) => matches!(*mode, ThreadApprovalMode::AutoApprove),
            None => false,
        }
    }
}

/// Whether a tool call runs without asking the user: in a thread that approves by
/// itself, and never under a hard-floor rule.
pub open spec fn auto_approves(auto_approve: bool, hard_floor: bool) -> bool {
    auto_approve && !hard_floor
}

/// Whether a tool call runs without asking the user.
pub fn would_auto_approve(auto_approve: bool, hard_floor: bool) -> (r: bool)
    ensures
        r == auto_approves(auto_approve, hard_floor),
{
    !hard_floor && auto_approve
}

/// The requests that wait for a `confirm`.
#[derive(Debug)]
pub struct PendingConfirms {
    pub slots: ThreadMap<ConfirmPending>,
}

/// The model of a [`ConfirmPending`].
pub struct ConfirmV {
    pub deadline: u64,
    pub channel: Seq<char>,
    pub chat_id: Seq<char>,
}

/// The model of a request that waits.
pub open spec fn confirm_view(c: ConfirmPending) -> ConfirmV {
    ConfirmV { deadline: c.deadline, channel: c.channel@, chat_id: c.chat_id@ }
}

impl View for PendingConfirms {
    type V = Map<ThreadV, ConfirmV>;

    open spec fn view(&self) -> Map<ThreadV, ConfirmV> {
        self.slots@.map_values(|c: ConfirmPending| confirm_view(c))
    }
}

/// What a message does to a request that waits for a `confirm`.
#[derive(Debug)]
pub enum ConfirmOutcome {
    /// It confirms the request: the mode is to be set, and the outcome told to the
    /// chat that asked.
    Consumed { channel: String, chat_id: String },
    /// It does not; the message is looked at further.
    Fallthrough,
}

/// The chat of a request that a message confirms: the request is still live, and
/// the message says `confirm` in any case.
pub open spec fn confirmed_by(
    pending: Map<ThreadV, ConfirmV>,
    thread: ThreadV,
    trimmed: Seq<char>,
    now: u64,
) -> Option<(Seq<char>, Seq<char>)> {
    if pending.contains_key(thread) && pending[thread].deadline > now && lower(trimmed) == lower(
        "confirm"@,
    ) {
        Some((pending[thread].channel, pending[thread].chat_id))
    } else {
        None
    }
}

impl PendingConfirms {
    /// No request waits.
    pub fn new() -> (r: Self)
        ensures
            r@ == Map::<ThreadV, ConfirmV>::empty(),
    {
        let r = PendingConfirms { slots: ThreadMap::new() };
        proof {
            assert(r@ =~= Map::<ThreadV, ConfirmV>::empty());
        }
        r
    }

    /// How many requests wait.
    pub fn len(&self) -> (r: usize)
        ensures
            r == self@.dom().len(),
    {
        proof {
            assert(self@.dom() =~= self.slots@.dom());
        }
        self.slots.len()
    }

    /// Lets a request wait, in place of the one that the thread had.
    pub fn insert(&mut self, thread: &ThreadKey, deadline: u64, channel: &str, chat_id: &str)
        ensures
            final(self)@ == old(self)@.insert(
                thread@,
                ConfirmV { deadline, channel: channel@, chat_id: chat_id@ },
            ),
    {
        self.slots.insert(
            thread,
            ConfirmPending { deadline, channel: text(channel), chat_id: text(chat_id) },
        );
        proof {
            assert(self@ =~= old(self)@.insert(
                thread@,
                ConfirmV { deadline, channel: channel@, chat_id: chat_id@ },
            ));
        }
    }

    /// Drops the thread's request.
    pub fn remove(&mut self, thread: &ThreadKey) -> (r: Option<ConfirmPending>)
        ensures
            final(self)@ == old(self)@.remove(thread@),
            match r {
                Some(c) => old(self)@.contains_key(thread@) && confirm_view(c) == old(
                    self,
                )@[thread@],
                None => !old(self)@.contains_key(thread@),
            },
    {
        let r = self.slots.remove(thread);
        proof {
            assert(self@ =~= old(self)@.remove(thread@));
        }
        r
    }
}

/// Holds a message against the thread's request that waits for a `confirm`. A
/// message of any kind uses the request up.
pub fn handle_pending_confirm(
    pending: &mut PendingConfirms,
    thread: &ThreadKey,
    trimmed: &str,
    now: u64,
) -> (r: ConfirmOutcome)
    ensures
        final(pending)@ == old(pending)@.remove(thread@),
        match confirmed_by(old(pending)@, thread@, trimmed@, now) {
            Some((ch, id)) => r matches ConfirmOutcome::Consumed { channel, chat_id } && channel@
                == ch && chat_id@ == id,
            None => r is Fallthrough,
        },
{
    match pending.remove(thread) {
        Some(entry) => {
            if entry.deadline > now && same_ignoring_case(trimmed, "confirm") {
                ConfirmOutcome::Consumed { channel: entry.channel, chat_id: entry.chat_id }
            } else {
                ConfirmOutcome::Fallthrough
            }
        },
        None => ConfirmOutcome::Fallthrough,
    }
}

/// What the chat is told after a confirmed request, given whether the mode could be
/// stored.
pub fn confirm_reply(saved: bool) -> (r: &'static str)
    ensures
        r@ == (if saved {
            "✅ AutoApprove enabled for this thread. Use `/require-approval` to switch back."@
        } else {
            "⚠️ Couldn't persist the change. Try again."@
        }),
{
    if saved {
        "✅ AutoApprove enabled for this thread. Use `/require-approval` to switch back."
    } else {
        "⚠️ Couldn't persist the change. Try again."
    }
}

/// What the chat is told after `/require-approval`, given whether the mode could be
/// stored.
pub fn require_reply(saved: bool) -> (r: &'static str)
    ensures
        r@ == (if saved {
            "✅ Manual approval is back on for this thread."@
        } else {
            "⚠️ Couldn't persist the change. Try again."@
        }),
{
    if saved {
        "✅ Manual approval is back on for this thread."
    } else {
        "⚠️ Couldn't persist the change. Try again."
    }
}

/// What a command leads to.
#[derive(Debug)]
pub enum CommandStep {
    /// The chat is told something.
    Reply(String),
    /// The mode is set to require approval, and the outcome told with
    /// [`require_reply`].
    RequireApproval,
}

/// The model of a [`CommandStep`].
pub enum CommandV {
    Reply(Seq<char>),
    RequireApproval,
}

impl View for CommandStep {
    type V = CommandV;

    open spec fn view(&self) -> CommandV {
        match self {
            CommandStep::Reply(s) => CommandV::Reply(s@),
            CommandStep::RequireApproval => CommandV::RequireApproval,
        }
    }
}

/// The answer to `/approval-status`.
pub open spec fn status_text(state: ThreadApprovalState, pending_count: nat) -> Seq<char> {
    "**Approval status**\n• Mode: `"@ + (match state.mode {
        ThreadApprovalMode::RequireApproval => "RequireApproval (default)"@,
        ThreadApprovalMode::AutoApprove => "AutoApprove"@,
    }) + "`\n• "@ + (if state.updated_by@.len() == 0 {
        "never changed"@
    } else {
        "last changed by `"@ + state.updated_by@ + "` at "@ + state.updated_at@
    }) + "\n• "@ + (if pending_count == 0 {
        "no pending approvals"@
    } else {
        decimal(pending_count) + " pending approval(s) on this thread"@
    }) + "\n\nSend `/help` for the full command list."@
}

fn status_of(state: &ThreadApprovalState, pending_count: u64) -> (r: String)
    ensures
        r@ == status_text(*state, pending_count as nat),
{
    let updated = if state.updated_by.as_str().is_empty() {
        text("never changed")
    } else {
        let mut s = text("last changed by `");
        put(&mut s, state.updated_by.as_str());
        put(&mut s, "` at ");
        put(&mut s, state.updated_at.as_str());
        s
    };
    let pending_line = if pending_count == 0 {
        text("no pending approvals")
    } else {
        let mut s = decimal_text(pending_count);
        put(&mut s, " pending approval(s) on this thread");
        s
    };
    let mut body = text("**Approval status**\n• Mode: `");
    put(
        &mut body,
        match state.mode {
            ThreadApprovalMode::RequireApproval => "RequireApproval (default)",
            ThreadApprovalMode::AutoApprove => "AutoApprove",
        },
    );
    put(&mut body, "`\n• ");
    put(&mut body, updated.as_str());
    put(&mut body, "\n• ");
    put(&mut body, pending_line.as_str());
    put(&mut body, "\n\nSend `/help` for the full command list.");
    body
}

/// When a request made now can no longer be confirmed.
pub open spec fn confirm_deadline(now: u64) -> u64 {
    if now + CONFIRM_WINDOW_NS > u64::MAX {
        u64::MAX
    } else {
        (now + CONFIRM_WINDOW_NS) as u64
    }
}

/// The requests that wait after a command.
pub open spec fn pending_after(
    cmd: ThreadCommand,
    pending: Map<ThreadV, ConfirmV>,
    thread: ThreadV,
    mode: ThreadApprovalMode,
    channel: Seq<char>,
    chat_id: Seq<char>,
    now: u64,
) -> Map<ThreadV, ConfirmV> {
    match cmd {
        ThreadCommand::SkipApproval => if mode == ThreadApprovalMode::AutoApprove {
            pending
        } else {
            pending.insert(thread, ConfirmV { deadline: confirm_deadline(now), channel, chat_id })
        },
        ThreadCommand::RequireApproval => pending.remove(thread),
        _ => pending,
    }
}

/// What a command leads to.
pub open spec fn command_step(
    cmd: ThreadCommand,
    state: ThreadApprovalState,
    pending_count: nat,
) -> CommandV {
    match cmd {
        ThreadCommand::SkipApproval => if state.mode == ThreadApprovalMode::AutoApprove {
            CommandV::Reply(
                "ℹ️ AutoApprove is already active for this thread. Use `/require-approval` to switch back."@,
            )
        } else {
            CommandV::Reply(
                "⚠️ You're about to disable manual approval for this thread. Dangerous tools will run without prompting. Reply `confirm` within 60s to proceed (any other reply cancels)."@,
            )
        },
        ThreadCommand::RequireApproval => CommandV::RequireApproval,
        ThreadCommand::Status => CommandV::Reply(status_text(state, pending_count)),
        ThreadCommand::Help => CommandV::Reply(THREAD_HELP_TEXT@),
    }
}

/// Carries out a command. Skipping approvals only opens a request that the user has
/// to confirm; requiring them takes effect at once.
pub fn handle_thread_command(
    cmd: ThreadCommand,
    thread: &ThreadKey,
    channel: &str,
    chat_id: &str,
    state: &ThreadApprovalState,
    pending_count: u64,
    pending: &mut PendingConfirms,
    now: u64,
) -> (r: CommandStep)
    ensures
        final(pending)@ == pending_after(
            cmd,
            old(pending)@,
            thread@,
            state.mode,
            channel@,
            chat_id@,
            now,
        ),
        r@ == command_step(cmd, *state, pending_count as nat),
{
    match cmd {
        ThreadCommand::SkipApproval => {
            if matches!(state.mode, ThreadApprovalMode::AutoApprove) {
                return CommandStep::Reply(
                    text(
                        "ℹ️ AutoApprove is already active for this thread. Use `/require-approval` to switch back.",
                    ),
                );
            }
            pending.insert(thread, now.saturating_add(CONFIRM_WINDOW_NS), channel, chat_id);
            CommandStep::Reply(
                text(
                    "⚠️ You're about to disable manual approval for this thread. Dangerous tools will run without prompting. Reply `confirm` within 60s to proceed (any other reply cancels).",
                ),
            )
        },
        ThreadCommand::RequireApproval => {
            let _ = pending.remove(thread);
            CommandStep::RequireApproval
        },
        ThreadCommand::Status => CommandStep::Reply(status_of(state, pending_count)),
        ThreadCommand::Help => CommandStep::Reply(text(THREAD_HELP_TEXT)),
    }
}

// ---------------------------------------------------------------------------
// Intercepting messages
// ---------------------------------------------------------------------------
/// What becomes of an inbound message before the agent sees it.
#[derive(Debug)]
pub enum InterceptStep {
    /// It confirms a request to skip approvals.
    Confirmed { channel: String, chat_id: String },
    /// It is a command.
    Command(ThreadCommand),
    /// It answers the oldest approval request of the thread.
    ResolveOldest(bool),
    /// It answers the approval request with the given identifier.
    ResolveById(String, bool),
    /// It goes on to the agent.
    Pass,
}

/// The model of an [`InterceptStep`].
pub enum InterceptV {
    Confirmed(Seq<char>, Seq<char>),
    Command(ThreadCommand),
    ResolveOldest(bool),
    ResolveById(Seq<char>, bool),
    Pass,
}

impl View for InterceptStep {
    type V = InterceptV;

    open spec fn view(&self) -> InterceptV {
        match self {
            InterceptStep::Confirmed { channel, chat_id } => InterceptV::Confirmed(
                channel@,
                chat_id@,
            ),
            InterceptStep::Command(cmd) => InterceptV::Command(*cmd),
            InterceptStep::ResolveOldest(b) => InterceptV::ResolveOldest(*b),
            InterceptStep::ResolveById(id, b) => InterceptV::ResolveById(id@, *b),
            InterceptStep::Pass => InterceptV::Pass,
        }
    }
}

/// Which approval request a reply answers: an injected one names it, or the oldest
/// where the name is empty; any other one answers the oldest.
pub open spec fn reply_target(msg: InboundV, approved: bool) -> InterceptV {
    if msg.metadata.contains_key("inject_kind"@) {
        if msg.metadata["inject_kind"@] == "approval_response"@ && msg.metadata.contains_key(
            "request_id"@,
        ) {
            let id = msg.metadata["request_id"@];
            if id.len() == 0 {
                InterceptV::ResolveOldest(approved)
            } else {
                InterceptV::ResolveById(id, approved)
            }
        } else {
            InterceptV::Pass
        }
    } else {
        InterceptV::ResolveOldest(approved)
    }
}

/// What becomes of an inbound message: it is held against a request that waits for
/// a `confirm`, then against the commands, then read as a reply.
pub open spec fn intercepted(
    pending: Map<ThreadV, ConfirmV>,
    thread: ThreadV,
    msg: InboundV,
    now: u64,
) -> InterceptV {
    let trimmed = trim(msg.content);
    match confirmed_by(pending, thread, trimmed, now) {
        Some((channel, chat_id)) => InterceptV::Confirmed(channel, chat_id),
        None => match command_of(lower(trimmed)) {
            Some(cmd) => InterceptV::Command(cmd),
            None => match reply_of(lowered(trimmed)) {
                Some(approved) => reply_target(msg, approved),
                None => InterceptV::Pass,
            },
        },
    }
}

/// Decides what becomes of an inbound message.
pub fn intercept(
    pending: &mut PendingConfirms,
    thread: &ThreadKey,
    msg: &InboundMessage,
    now: u64,
) -> (r: InterceptStep)
    ensures
        final(pending)@ == old(pending)@.remove(thread@),
        r@ == intercepted(old(pending)@, thread@, msg@, now),
{
    let trimmed = trim_text(msg.content.as_str());
    if let ConfirmOutcome::Consumed { channel, chat_id } = handle_pending_confirm(
        pending,
        thread,
        trimmed.as_str(),
        now,
    ) {
        return InterceptStep::Confirmed { channel, chat_id };
    }
    if let Some(cmd) = parse_thread_command(trimmed.as_str()) {
        return InterceptStep::Command(cmd);
    }
    let approved = match parse_approval_reply(msg.content.as_str()) {
        Some(b) => b,
        None => {
            return InterceptStep::Pass;
        },
    };
    match msg.metadata.get("inject_kind") {
        Some(kind) => {
            if !same_text(kind.as_str(), "approval_response") {
                return InterceptStep::Pass;
            }
            match msg.metadata.get("request_id") {
                Some(id) => if id.as_str().is_empty() {
                    InterceptStep::ResolveOldest(approved)
                } else {
                    InterceptStep::ResolveById(id.clone(), approved)
                },
                None => InterceptStep::Pass,
            }
        },
        None => InterceptStep::ResolveOldest(approved),
    }
}

// ---------------------------------------------------------------------------
// Asking for approvals
// ---------------------------------------------------------------------------
/// Where an approval request goes.
#[derive(Debug)]
pub struct ApprovalRoute {
    pub channel: String,
    pub chat_id: String,
    /// The thread that the request names, if it names one.
    pub thread: Option<ThreadKey>,
}

/// The text, unless it is empty.
pub open spec fn filled(s: Option<Seq<char>>) -> Option<Seq<char>> {
    match s {
        Some(t) => if t.len() > 0 {
            Some(t)
        } else {
            None
        },
        None => None,
    }
}

/// Why an approval request cannot be shown to anybody.
pub open spec fn route_refusal(request: RequestV) -> Option<Seq<char>> {
    if filled(request.chat_id) is None {
        Some("No chat routing context for approval"@)
    } else if filled(request.channel) is None {
        Some("No channel routing context for approval"@)
    } else {
        None
    }
}

/// The thread that a request names.
pub open spec fn named_thread(request: RequestV) -> Option<ThreadV> {
    match (filled(request.user_id), filled(request.agent_id)) {
        (Some(user), Some(agent)) => Some(ThreadV { user, agent }),
        _ => None,
    }
}

/// The model of an optional thread.
pub open spec fn maybe_thread(t: Option<ThreadKey>) -> Option<ThreadV> {
    match t {
        Some(k) => Some(k@),
        None => None,
    }
}

fn filled_text(s: &Option<String>) -> (r: Option<&String>)
    ensures
        match r {
            Some(t) => filled(s.deep_view()) == Some(t@),
            None => filled(s.deep_view()) is None,
        },
{
    match s {
        Some(t) => if t.as_str().is_empty() {
            None
        } else {
            Some(t)
        },
        None => None,
    }
}

/// Where an approval request goes, or why it is denied without asking.
pub fn route_approval(request: &ApprovalRequest) -> (r: Result<ApprovalRoute, ApprovalResponse>)
    ensures
        match route_refusal(request@) {
            Some(reason) => r matches Err(a) && a@ == AnswerV::Denied(reason),
            None => r matches Ok(route) && Some(route.chat_id@) == request@.chat_id && Some(
                route.channel@,
            ) == request@.channel && maybe_thread(route.thread) == named_thread(request@),
        },
{
    let chat_id = match filled_text(&request.chat_id) {
        Some(s) => s.clone(),
        None => {
            return Err(ApprovalResponse::Denied(text("No chat routing context for approval")));
        },
    };
    let channel = match filled_text(&request.channel) {
        Some(s) => s.clone(),
        None => {
            return Err(ApprovalResponse::Denied(text("No channel routing context for approval")));
        },
    };
    let thread = match (filled_text(&request.user_id), filled_text(&request.agent_id)) {
        (Some(user), Some(agent)) => Some(ThreadKey::new(user.as_str(), agent.as_str())),
        _ => None,
    };
    Ok(ApprovalRoute { channel, chat_id, thread })
}

/// The command in a tool's arguments.
pub open spec fn command_argument(args: JsonV) -> Option<Seq<char>> {
    match args {
        JsonV::Object(fields) => match get_field(fields, "command"@) {
            Some(JsonV::Text(s)) => Some(s),
            _ => None,
        },
        _ => None,
    }
}

/// The timeout in a tool's arguments.
pub open spec fn timeout_argument(args: JsonV) -> Option<u64> {
    match args {
        JsonV::Object(fields) => match get_field(fields, "timeout"@) {
            Some(JsonV::Unsigned(n)) => Some(n),
            _ => None,
        },
        _ => None,
    }
}

fn find_command(args: &Json) -> (r: Option<&String>)
    ensures
        match r {
            Some(s) => command_argument(args@) == Some(s@),
            None => command_argument(args@) is None,
        },
{
    if let Json::Object(fields) = args {
        proof {
            lemma_object_view(*fields);
        }
        if let Some(Json::Text(s)) = find_field(fields, "command") {
            return Some(s);
        }
    }
    None
}

fn find_timeout(args: &Json) -> (r: Option<u64>)
    ensures
        r == timeout_argument(args@),
{
    if let Json::Object(fields) = args {
        proof {
            lemma_object_view(*fields);
        }
        if let Some(Json::Unsigned(n)) = find_field(fields, "timeout") {
            return Some(*n);
        }
    }
    None
}

/// The arguments as an approval card shows them: a shell command as such, anything
/// else as indented JSON.
pub open spec fn arguments_display(tool_name: Seq<char>, args: JsonV) -> Seq<char> {
    if tool_name == "shell"@ {
        "```sh\n"@ + (match command_argument(args) {
            Some(cmd) => cmd,
            None => "<no command>"@,
        }) + "\n```"@ + (match timeout_argument(args) {
            Some(t) => "\n"@ + "  timeout: "@ + decimal(t as nat) + "s"@,
            None => ""@,
        })
    } else {
        "```json\n"@ + json_pretty_text(args) + "\n```"@
    }
}

fn display_arguments(tool_name: &str, args: &Json) -> (r: String)
    ensures
        r@ == arguments_display(tool_name@, args@),
{
    if same_text(tool_name, "shell") {
        let timeout = match find_timeout(args) {
            Some(t) => {
                let mut s = text("\n");
                put(&mut s, "  timeout: ");
                put(&mut s, decimal_text(t).as_str());
                put(&mut s, "s");
                s
            },
            None => text(""),
        };
        let mut s = text("```sh\n");
        put(
            &mut s,
            match find_command(args) {
                Some(cmd) => cmd.as_str(),
                None => "<no command>",
            },
        );
        put(&mut s, "\n```");
        put(&mut s, timeout.as_str());
        s
    } else {
        let mut s = text("```json\n");
        put(&mut s, print_json_pretty(args).as_str());
        put(&mut s, "\n```");
        s
    }
}

/// The hint on other requests that wait.
pub open spec fn queue_hint(pending: nat) -> Seq<char> {
    if pending > 1 {
        "\n("@ + decimal(pending) + " more approval(s) queued — each will be asked separately)"@
    } else {
        ""@
    }
}

/// The badge of a hard-floor rule.
pub open spec fn floor_badge(reason: Option<Seq<char>>) -> Seq<char> {
    match reason {
        Some(r) => "\n🚨 **[HARD FLOOR]** "@ + r + " (cannot be auto-approved by `/skip-approval`)"@,
        None => ""@,
    }
}

/// The hint on the thread's mode; a hard-floor card has none, for no mode applies.
pub open spec fn mode_hint(hard_floor: bool, auto_approve: bool) -> Seq<char> {
    if hard_floor {
        ""@
    } else if auto_approve {
        "\n_This thread is in **AutoApprove** mode — send `/require-approval` to re-enable per-tool prompts._"@
    } else {
        "\n_This thread requires approval for every tool call. Send `/skip-approval` (then `confirm` within 60s) to auto-approve all future tool calls in this channel._"@
    }
}

/// The text of an approval card.
pub open spec fn card_text(request: RequestV, pending: nat, auto_approve: bool) -> Seq<char> {
    "**[Approval Required]** — `"@ + request.tool_name + "`\n"@ + arguments_display(
        request.tool_name,
        request.arguments,
    ) + floor_badge(request.hard_floor_reason) + "\nReply **yes** / **no**."@ + queue_hint(pending)
        + mode_hint(request.hard_floor_reason is Some, auto_approve)
}

/// The text of an approval card.
pub fn approval_prompt(request: &ApprovalRequest, pending: u64, auto_approve: bool) -> (r: String)
    ensures
        r@ == card_text(request@, pending as nat, auto_approve),
{
    let hint = if pending > 1 {
        let mut s = text("\n(");
        put(&mut s, decimal_text(pending).as_str());
        put(&mut s, " more approval(s) queued — each will be asked separately)");
        s
    } else {
        text("")
    };
    let badge = match &request.hard_floor_reason {
        Some(reason) => {
            let mut s = text("\n🚨 **[HARD FLOOR]** ");
            put(&mut s, reason.as_str());
            put(&mut s, " (cannot be auto-approved by `/skip-approval`)");
            s
        },
        None => text(""),
    };
    let mode = if request.hard_floor_reason.is_some() {
        ""
    } else if auto_approve {
        "\n_This thread is in **AutoApprove** mode — send `/require-approval` to re-enable per-tool prompts._"
    } else {
        "\n_This thread requires approval for every tool call. Send `/skip-approval` (then `confirm` within 60s) to auto-approve all future tool calls in this channel._"
    };
    let mut s = text("**[Approval Required]** — `");
    put(&mut s, request.tool_name.as_str());
    put(&mut s, "`\n");
    put(&mut s, display_arguments(request.tool_name.as_str(), &request.arguments).as_str());
    put(&mut s, badge.as_str());
    put(&mut s, "\nReply **yes** / **no**.");
    put(&mut s, hint.as_str());
    put(&mut s, mode);
    s
}

/// Fields with one more, if there is one more.
pub open spec fn with_field(
    fields: Seq<(Seq<char>, JsonV)>,
    name: Seq<char>,
    value: Option<JsonV>,
) -> Seq<(Seq<char>, JsonV)> {
    match value {
        Some(v) => fields.push((name, v)),
        None => fields,
    }
}

/// A text as a JSON value.
pub open spec fn text_value(s: Option<Seq<char>>) -> Option<JsonV> {
    match s {
        Some(t) => Some(JsonV::Text(t)),
        None => None,
    }
}

/// The payload of an approval card for clients that draw it themselves. Every
/// request is decided on its own, so it tells of one.
pub open spec fn card_payload(request: RequestV, request_id: Seq<char>, prompt: Seq<char>) -> JsonV {
    let base = Seq::empty()
        .push(("requestId"@, JsonV::Text(request_id)))
        .push(("toolName"@, JsonV::Text(request.tool_name)))
        .push(("arguments"@, request.arguments))
        .push(("pendingTotal"@, JsonV::Unsigned(1)))
        .push(("hardFloor"@, JsonV::Bool(request.hard_floor_reason is Some)))
        .push(("prompt"@, JsonV::Text(prompt)));
    let a = with_field(base, "hardFloorReason"@, text_value(request.hard_floor_reason));
    let b = with_field(a, "shellCommand"@, text_value(command_argument(request.arguments)));
    JsonV::Object(
        with_field(
            b,
            "timeoutSecs"@,
            match timeout_argument(request.arguments) {
                Some(t) => Some(JsonV::Unsigned(t)),
                None => None,
            },
        ),
    )
}

fn card_json(request: &ApprovalRequest, request_id: &str, prompt: &str) -> (r: Json)
    ensures
        r@ == card_payload(request@, request_id@, prompt@),
{
    let mut fields = no_fields();
    put_text(&mut fields, "requestId", request_id);
    put_text(&mut fields, "toolName", request.tool_name.as_str());
    put_field(&mut fields, "arguments", request.arguments.clone());
    put_field(&mut fields, "pendingTotal", Json::Unsigned(1));
    put_field(&mut fields, "hardFloor", Json::Bool(request.hard_floor_reason.is_some()));
    put_text(&mut fields, "prompt", prompt);
    if let Some(reason) = &request.hard_floor_reason {
        put_text(&mut fields, "hardFloorReason", reason.as_str());
    }
    if let Some(cmd) = find_command(&request.arguments) {
        put_text(&mut fields, "shellCommand", cmd.as_str());
    }
    if let Some(t) = find_timeout(&request.arguments) {
        put_field(&mut fields, "timeoutSecs", Json::Unsigned(t));
    }
    object(fields)
}

/// The message of an approval card: a custom event on ACP channels, text elsewhere.
pub open spec fn card_message(
    request: RequestV,
    channel: Seq<char>,
    chat_id: Seq<char>,
    request_id: Seq<char>,
    prompt: Seq<char>,
) -> OutboundV {
    if channel == "acp"@ || channel == "acp_http"@ {
        (OutboundV {
            kind: OutboundMessageKind::Custom,
            ..plain_outbound(channel, chat_id, ""@)
        }).with(OUTBOUND_CUSTOM_NAME_KEY@, APPROVAL_REQUEST@).with(
            OUTBOUND_CUSTOM_PAYLOAD_KEY@,
            json_text(card_payload(request, request_id, prompt)),
        ).with(OUTBOUND_CUSTOM_SUMMARY_KEY@, prompt)
    } else {
        plain_outbound(channel, chat_id, prompt)
    }
}

/// The message of an approval card.
pub fn approval_card(
    request: &ApprovalRequest,
    channel: &str,
    chat_id: &str,
    request_id: &str,
    prompt: &str,
) -> (r: OutboundMessage)
    ensures
        r@ == card_message(request@, channel@, chat_id@, request_id@, prompt@),
{
    if !is_acp_channel(channel) {
        return OutboundMessage::new(channel, chat_id, prompt);
    }
    let payload = print_json(&card_json(request, request_id, prompt));
    OutboundMessage::new(channel, chat_id, "").with_kind(
        OutboundMessageKind::Custom,
    ).with_metadata(OUTBOUND_CUSTOM_NAME_KEY, APPROVAL_REQUEST).with_metadata(
        OUTBOUND_CUSTOM_PAYLOAD_KEY,
        payload.as_str(),
    ).with_metadata(OUTBOUND_CUSTOM_SUMMARY_KEY, prompt)
}

/// The answer to an approval request, given the user's reply, if one came in time.
pub fn approval_outcome(reply: Option<bool>) -> (r: ApprovalResponse)
    ensures
        r@ == (match reply {
            Some(true) => AnswerV::Approved,
            Some(false) => AnswerV::Denied("User denied"@),
            None => AnswerV::TimedOut,
        }),
{
    match reply {
        Some(approved) => if approved {
            ApprovalResponse::Approved
        } else {
            ApprovalResponse::Denied(text("User denied"))
        },
        None => ApprovalResponse::TimedOut,
    }
}

/// The label of a decision; none where nobody decided.
pub open spec fn decision_label(answer: AnswerV) -> Option<Seq<char>> {
    match answer {
        AnswerV::Approved => Some("approve"@),
        AnswerV::Denied(_) => Some("deny"@),
        AnswerV::TimedOut => None,
    }
}

/// The label of a decision; none where nobody decided.
pub fn approval_decision_label(outcome: &ApprovalResponse) -> (r: Option<&'static str>)
    ensures
        maybe_text(r) == decision_label(outcome@),
{
    match outcome {
        ApprovalResponse::Approved => Some("approve"),
        ApprovalResponse::Denied(_) => Some("deny"),
        ApprovalResponse::TimedOut => None,
    }
}

/// The event that tells an ACP client how a request was decided.
pub open spec fn resolved_event(
    channel: Seq<char>,
    chat_id: Seq<char>,
    request_id: Seq<char>,
    answer: AnswerV,
) -> Option<OutboundV> {
    match decision_label(answer) {
        Some(label) => if channel == "acp"@ || channel == "acp_http"@ {
            Some(
                (OutboundV {
                    kind: OutboundMessageKind::Custom,
                    ..plain_outbound(channel, chat_id, ""@)
                }).with(OUTBOUND_CUSTOM_NAME_KEY@, APPROVAL_RESOLVED@).with(
                    OUTBOUND_CUSTOM_PAYLOAD_KEY@,
                    json_text(
                        JsonV::Object(
                            Seq::empty()
                                .push(("requestId"@, JsonV::Text(request_id)))
                                .push(("decision"@, JsonV::Text(label))),
                        ),
                    ),
                ),
            )
        } else {
            None
        },
        None => None,
    }
}

/// The event that tells an ACP client how a request was decided.
pub fn approval_resolved_event(
    channel: &str,
    chat_id: &str,
    request_id: &str,
    outcome: &ApprovalResponse,
) -> (r: Option<OutboundMessage>)
    ensures
        maybe_outbound(r) == resolved_event(channel@, chat_id@, request_id@, outcome@),
{
    if !is_acp_channel(channel) {
        return None;
    }
    match approval_decision_label(outcome) {
        Some(label) => {
            let mut fields = no_fields();
            put_text(&mut fields, "requestId", request_id);
            put_text(&mut fields, "decision", label);
            let payload = print_json(&object(fields));
            Some(
                OutboundMessage::new(channel, chat_id, "").with_kind(
                    OutboundMessageKind::Custom,
                ).with_metadata(OUTBOUND_CUSTOM_NAME_KEY, APPROVAL_RESOLVED).with_metadata(
                    OUTBOUND_CUSTOM_PAYLOAD_KEY,
                    payload.as_str(),
                ),
            )
        },
        None => None,
    }
}

// ---------------------------------------------------------------------------
// Laws
// ---------------------------------------------------------------------------
/// `/skip-approval` changes nothing by itself: it only opens a request, which the
/// thread's own `confirm` within the window confirms and nothing else does.
pub proof fn law_skip_needs_a_confirm(
    pending: Map<ThreadV, ConfirmV>,
    thread: ThreadV,
    channel: Seq<char>,
    chat_id: Seq<char>,
    asked: u64,
    trimmed: Seq<char>,
    now: u64,
)
    ensures
        ({
            let open = pending_after(
                ThreadCommand::SkipApproval,
                pending,
                thread,
                ThreadApprovalMode::RequireApproval,
                channel,
                chat_id,
                asked,
            );
            &&& open.contains_key(thread)
            &&& confirmed_by(open, thread, trimmed, now) is Some <==> lower(trimmed) == lower(
                "confirm"@,
            ) && now < confirm_deadline(asked)
            &&& confirmed_by(open, thread, trimmed, now) matches Some((ch, id)) ==> ch == channel
                && id == chat_id
        }),
{
}

/// Any message of the thread uses its request up, so a second `confirm` does
/// nothing; the requests of other threads stay.
pub proof fn law_request_is_used_up(
    pending: Map<ThreadV, ConfirmV>,
    thread: ThreadV,
    other: ThreadV,
    trimmed: Seq<char>,
    now: u64,
)
    ensures
        confirmed_by(pending.remove(thread), thread, trimmed, now) is None,
        other != thread ==> confirmed_by(pending.remove(thread), other, trimmed, now)
            == confirmed_by(pending, other, trimmed, now),
{
}

/// Commands other than `/skip-approval` open no request, and `/skip-approval` in a
/// thread that approves by itself changes nothing.
pub proof fn law_other_commands_open_nothing(
    cmd: ThreadCommand,
    pending: Map<ThreadV, ConfirmV>,
    thread: ThreadV,
    mode: ThreadApprovalMode,
    channel: Seq<char>,
    chat_id: Seq<char>,
    now: u64,
)
    requires
        cmd != ThreadCommand::SkipApproval || mode == ThreadApprovalMode::AutoApprove,
    ensures
        pending_after(cmd, pending, thread, mode, channel, chat_id, now).submap_of(pending),
        cmd == ThreadCommand::Status || cmd == ThreadCommand::Help || cmd
            == ThreadCommand::SkipApproval ==> pending_after(
            cmd,
            pending,
            thread,
            mode,
            channel,
            chat_id,
            now,
        ) == pending,
{
}

/// A mode is a thread's own: setting it for one thread leaves every other one as it
/// was, and the thread keeps it until it is set again.
pub proof fn law_modes_are_per_thread(
    modes: Map<ThreadV, ThreadApprovalMode>,
    thread: ThreadV,
    mode: ThreadApprovalMode,
    other: ThreadV,
)
    ensures
        mode_of(modes.insert(thread, mode), thread) == mode,
        other != thread ==> mode_of(modes.insert(thread, mode), other) == mode_of(modes, other),
        mode_of(Map::empty(), other) == ThreadApprovalMode::RequireApproval,
{
}

/// A command never reaches the agent: whatever waits, a message that is a command
/// is taken as one unless it confirms a request, and no command does.
pub proof fn law_commands_are_consumed(
    pending: Map<ThreadV, ConfirmV>,
    thread: ThreadV,
    msg: InboundV,
    now: u64,
)
    requires
        command_of(lower(trim(msg.content))) is Some,
    ensures
        intercepted(pending, thread, msg, now) == InterceptV::Command(
            command_of(lower(trim(msg.content)))->0,
        ),
{
    let low = lower(trim(msg.content));
    let c = lower("confirm"@);
    reveal_strlit("confirm");
    reveal_strlit("/skip-approval");
    reveal_strlit("/skip_approval");
    reveal_strlit("/require-approval");
    reveal_strlit("/require_approval");
    reveal_strlit("/approval-status");
    reveal_strlit("/approval_status");
    reveal_strlit("/help");
    reveal_strlit("/?");
    assert(c[0] == 'c');
    assert(low.len() > 0 && low[0] == '/');
}

/// A hard-floor rule is never skipped, whatever the mode of the thread; without one
/// the mode alone decides.
pub proof fn law_hard_floor_is_always_asked(
    modes: Map<ThreadV, ThreadApprovalMode>,
    thread: ThreadV,
)
    ensures
        !auto_approves(mode_of(modes, thread) == ThreadApprovalMode::AutoApprove, true),
        auto_approves(mode_of(modes, thread) == ThreadApprovalMode::AutoApprove, false) <==> mode_of(
            modes,
            thread,
        ) == ThreadApprovalMode::AutoApprove,
{
}

/// An approval card shows what is asked: the tool, and its own arguments as indented
/// JSON, or for a shell the command that would run and for how long; the reason of a
/// hard-floor rule; how to reply; and how many requests wait.
pub proof fn law_cards_show_what_is_asked(request: RequestV, pending: nat, auto_approve: bool)
    ensures
        ({
            let card = card_text(request, pending, auto_approve);
            &&& contains(card, "`"@ + request.tool_name + "`"@)
            &&& contains(card, "Reply **yes** / **no**."@)
            &&& request.tool_name != "shell"@ ==> contains(
                card,
                "```json\n"@ + json_pretty_text(request.arguments) + "\n```"@,
            ) && contains(card, json_pretty_text(request.arguments))
            &&& request.tool_name == "shell"@ ==> (at(request.arguments, "command"@) matches Some(
                JsonV::Text(command),
            ) ==> contains(card, "```sh\n"@ + command + "\n```"@) && contains(card, command))
            &&& request.tool_name == "shell"@ ==> (at(request.arguments, "timeout"@) matches Some(
                JsonV::Unsigned(secs),
            ) ==> contains(card, "timeout: "@ + decimal(secs as nat) + "s"@))
            &&& request.hard_floor_reason matches Some(reason) ==> contains(
                card,
                "**[HARD FLOOR]** "@ + reason + " (cannot be auto-approved"@,
            ) && contains(card, reason)
            &&& pending > 1 ==> contains(card, "("@ + decimal(pending) + " more approval(s) queued"@)
            &&& request.hard_floor_reason is None && auto_approve ==> contains(
                card,
                "This thread is in **AutoApprove** mode"@,
            )
            &&& request.hard_floor_reason is None && !auto_approve ==> contains(
                card,
                "This thread requires approval for every tool call."@,
            )
        }),
{
    let shown = arguments_display(request.tool_name, request.arguments);
    let head = "**[Approval Required]** — `"@ + request.tool_name + "`\n"@;
    let badge = floor_badge(request.hard_floor_reason);
    let hint = queue_hint(pending);
    let mode = mode_hint(request.hard_floor_reason is Some, auto_approve);
    let reply = "\nReply **yes** / **no**."@;
    let card = card_text(request, pending, auto_approve);
    assert(card == head + shown + badge + reply + hint + mode);
    reveal_strlit("**[Approval Required]** — `");
    reveal_strlit("`\n");
    reveal_strlit("`");
    let before = "**[Approval Required]** — "@;
    reveal_strlit("**[Approval Required]** — ");
    let quoted = "`"@ + request.tool_name + "`"@;
    assert(head =~= before + quoted + "\n"@) by {
        reveal_strlit("\n");
        assert("**[Approval Required]** — `"@ =~= before + "`"@);
        assert("`\n"@ =~= "`"@ + "\n"@);
    }
    law_texts_hold_their_parts(before, quoted, "\n"@, quoted);
    lemma_card(head, shown, badge, reply, hint, mode, quoted);
    reveal_strlit("\nReply **yes** / **no**.");
    reveal_strlit("Reply **yes** / **no**.");
    reveal_strlit("\n");
    assert(reply =~= "\n"@ + "Reply **yes** / **no**."@);
    lemma_holds_middle("\n"@, "Reply **yes** / **no**."@, ""@);
    lemma_card(head, shown, badge, reply, hint, mode, "Reply **yes** / **no**."@);
    if request.tool_name != "shell"@ {
        let json = json_pretty_text(request.arguments);
        lemma_holds_middle("```json\n"@, json, "\n```"@);
        lemma_holds_middle(""@, shown, ""@);
        lemma_card(head, shown, badge, reply, hint, mode, json);
        lemma_card(head, shown, badge, reply, hint, mode, shown);
    } else {
        let tail = match timeout_argument(request.arguments) {
            Some(t) => "\n"@ + "  timeout: "@ + decimal(t as nat) + "s"@,
            None => ""@,
        };
        if let Some(command) = command_argument(request.arguments) {
            let fenced = "```sh\n"@ + command + "\n```"@;
            assert(shown == fenced + tail);
            lemma_holds_middle("```sh\n"@, command, "\n```"@);
            lemma_holds_middle(""@, fenced, tail);
            law_parts_of_parts(""@, fenced, tail, command);
            lemma_card(head, shown, badge, reply, hint, mode, command);
            lemma_card(head, shown, badge, reply, hint, mode, fenced);
        }
        if let Some(secs) = timeout_argument(request.arguments) {
            let says = "timeout: "@ + decimal(secs as nat) + "s"@;
            reveal_strlit("  timeout: ");
            reveal_strlit("timeout: ");
            reveal_strlit("  ");
            assert(tail =~= ("\n"@ + "  "@) + says) by {
                assert("  timeout: "@ =~= "  "@ + "timeout: "@);
            }
            lemma_holds_middle("\n"@ + "  "@, says, ""@);
            let front = "```sh\n"@ + (match command_argument(request.arguments) {
                Some(cmd) => cmd,
                None => "<no command>"@,
            }) + "\n```"@;
            assert(shown == front + tail);
            law_parts_of_parts(front, tail, ""@, says);
            lemma_card(head, shown, badge, reply, hint, mode, says);
        }
    }
    if let Some(reason) = request.hard_floor_reason {
        let says = "**[HARD FLOOR]** "@ + reason + " (cannot be auto-approved"@;
        reveal_strlit("\n🚨 **[HARD FLOOR]** ");
        reveal_strlit("\n🚨 ");
        reveal_strlit("**[HARD FLOOR]** ");
        reveal_strlit(" (cannot be auto-approved by `/skip-approval`)");
        reveal_strlit(" (cannot be auto-approved");
        reveal_strlit(" by `/skip-approval`)");
        assert("\n🚨 **[HARD FLOOR]** "@ =~= "\n🚨 "@ + "**[HARD FLOOR]** "@);
        assert(" (cannot be auto-approved by `/skip-approval`)"@ =~= " (cannot be auto-approved"@
            + " by `/skip-approval`)"@);
        assert(badge =~= "\n🚨 "@ + says + " by `/skip-approval`)"@);
        lemma_holds_middle("\n🚨 "@, says, " by `/skip-approval`)"@);
        lemma_card(head, shown, badge, reply, hint, mode, says);
        lemma_holds_middle(
            "\n🚨 **[HARD FLOOR]** "@,
            reason,
            " (cannot be auto-approved by `/skip-approval`)"@,
        );
        lemma_card(head, shown, badge, reply, hint, mode, reason);
    }
    if pending > 1 {
        let says = "("@ + decimal(pending) + " more approval(s) queued"@;
        reveal_strlit("\n(");
        reveal_strlit("(");
        reveal_strlit(" more approval(s) queued — each will be asked separately)");
        reveal_strlit(" more approval(s) queued");
        reveal_strlit(" — each will be asked separately)");
        assert("\n("@ =~= "\n"@ + "("@);
        assert(" more approval(s) queued — each will be asked separately)"@
            =~= " more approval(s) queued"@ + " — each will be asked separately)"@);
        assert(hint =~= "\n"@ + says + " — each will be asked separately)"@);
        lemma_holds_middle("\n"@, says, " — each will be asked separately)"@);
        lemma_card(head, shown, badge, reply, hint, mode, says);
    }
    if request.hard_floor_reason is None {
        if auto_approve {
            reveal_strlit(
                "\n_This thread is in **AutoApprove** mode — send `/require-approval` to re-enable per-tool prompts._",
            );
            reveal_strlit("\n_");
            reveal_strlit("This thread is in **AutoApprove** mode");
            reveal_strlit(" — send `/require-approval` to re-enable per-tool prompts._");
            let says = "This thread is in **AutoApprove** mode"@;
            let after = " — send `/require-approval` to re-enable per-tool prompts._"@;
            assert(mode =~= "\n_"@ + says + after);
            lemma_holds_middle("\n_"@, says, after);
            lemma_card(head, shown, badge, reply, hint, mode, says);
        } else {
            reveal_strlit(
                "\n_This thread requires approval for every tool call. Send `/skip-approval` (then `confirm` within 60s) to auto-approve all future tool calls in this channel._",
            );
            reveal_strlit("\n_");
            reveal_strlit("This thread requires approval for every tool call.");
            reveal_strlit(
                " Send `/skip-approval` (then `confirm` within 60s) to auto-approve all future tool calls in this channel._",
            );
            let says = "This thread requires approval for every tool call."@;
            let after =
                " Send `/skip-approval` (then `confirm` within 60s) to auto-approve all future tool calls in this channel._"@;
            assert(mode =~= "\n_"@ + says + after);
            lemma_holds_middle("\n_"@, says, after);
            lemma_card(head, shown, badge, reply, hint, mode, says);
        }
    }
}

proof fn lemma_card(
    a: Seq<char>,
    b: Seq<char>,
    c: Seq<char>,
    d: Seq<char>,
    e: Seq<char>,
    f: Seq<char>,
    p: Seq<char>,
)
    requires
        contains(a, p) || contains(b, p) || contains(c, p) || contains(d, p) || contains(e, p)
            || contains(f, p),
    ensures
        contains(a + b + c + d + e + f, p),
{
    let none = Seq::<char>::empty();
    if contains(f, p) {
        law_parts_of_parts(a + b + c + d + e, f, none, p);
    } else {
        if contains(e, p) {
            law_parts_of_parts(a + b + c + d, e, none, p);
        } else {
            if contains(d, p) {
                law_parts_of_parts(a + b + c, d, none, p);
            } else {
                if contains(c, p) {
                    law_parts_of_parts(a + b, c, none, p);
                } else {
                    if contains(b, p) {
                        law_parts_of_parts(a, b, none, p);
                    } else {
                        law_parts_of_parts(none, a, b, p);
                    }
                    law_parts_of_parts(none, a + b, c, p);
                }
                law_parts_of_parts(none, a + b + c, d, p);
            }
            law_parts_of_parts(none, a + b + c + d, e, p);
        }
        law_parts_of_parts(none, a + b + c + d + e, f, p);
    }
}

/// Whether a payload tells a client of a request: which one, of which tool with which
/// arguments, under which rule, and the text of its card.
pub open spec fn tells_of_request(
    payload: JsonV,
    request: RequestV,
    request_id: Seq<char>,
    prompt: Seq<char>,
) -> bool {
    &&& says(payload, "requestId"@, request_id)
    &&& says(payload, "toolName"@, request.tool_name)
    &&& at(payload, "arguments"@) == Some(request.arguments)
    &&& at(payload, "hardFloor"@) == Some(JsonV::Bool(request.hard_floor_reason is Some))
    &&& says(payload, "prompt"@, prompt)
    &&& request.hard_floor_reason matches Some(reason) ==> says(
        payload,
        "hardFloorReason"@,
        reason,
    )
    &&& request.hard_floor_reason is None ==> at(payload, "hardFloorReason"@) is None
    &&& at(request.arguments, "command"@) matches Some(JsonV::Text(command)) ==> says(
        payload,
        "shellCommand"@,
        command,
    )
    &&& at(request.arguments, "timeout"@) matches Some(JsonV::Unsigned(secs)) ==> at(
        payload,
        "timeoutSecs"@,
    ) == Some(JsonV::Unsigned(secs))
}

/// The card reaches the chat that it was made for: on ACP channels as an event with
/// all that the client needs to draw it, elsewhere as text.
pub proof fn law_cards_reach_the_chat(
    request: RequestV,
    channel: Seq<char>,
    chat_id: Seq<char>,
    request_id: Seq<char>,
    prompt: Seq<char>,
)
    ensures
        ({
            let m = card_message(request, channel, chat_id, request_id, prompt);
            let acp = channel == "acp"@ || channel == "acp_http"@;
            &&& m.channel == channel
            &&& m.chat_id == chat_id
            &&& !acp ==> m.content == prompt && m.kind == OutboundMessageKind::Full
            &&& acp ==> {
                &&& m.kind == OutboundMessageKind::Custom
                &&& m.metadata.contains_key("custom.name"@)
                &&& m.metadata["custom.name"@] == "approval_request"@
                &&& m.metadata.contains_key("custom.summary"@)
                &&& m.metadata["custom.summary"@] == prompt
                &&& m.metadata.contains_key("custom.payload"@)
                &&& exists|payload: JsonV| #[trigger]
                    tells_of_request(payload, request, request_id, prompt)
                        && m.metadata["custom.payload"@] == json_text(payload)
            }
        }),
{
    reveal_strlit("custom.name");
    reveal_strlit("custom.payload");
    reveal_strlit("custom.summary");
    reveal_strlit("requestId");
    reveal_strlit("toolName");
    reveal_strlit("arguments");
    reveal_strlit("pendingTotal");
    reveal_strlit("hardFloor");
    reveal_strlit("prompt");
    reveal_strlit("hardFloorReason");
    reveal_strlit("shellCommand");
    reveal_strlit("timeoutSecs");
    assert("custom.name"@.len() == 11 && "custom.payload"@.len() == 14 && "custom.summary"@.len()
        == 14);
    assert("custom.payload"@[7] == 'p' && "custom.summary"@[7] == 's');
    assert("requestId"@[0] == 'r' && "toolName"@[0] == 't' && "arguments"@[0] == 'a'
        && "pendingTotal"@[0] == 'p' && "hardFloor"@[0] == 'h' && "prompt"@[0] == 'p'
        && "hardFloorReason"@[0] == 'h' && "shellCommand"@[0] == 's' && "timeoutSecs"@[0] == 't');
    assert("toolName"@.len() == 8 && "pendingTotal"@.len() == 12 && "hardFloor"@.len() == 9
        && "prompt"@.len() == 6 && "hardFloorReason"@.len() == 15 && "timeoutSecs"@.len() == 11);
    reveal_with_fuel(crate::json::field_at, 10);
    let payload = card_payload(request, request_id, prompt);
    assert(tells_of_request(payload, request, request_id, prompt));
}

/// How a request was decided reaches the ACP client that showed its card: which
/// request, and whether it was approved or denied. Where nobody decided, and on other
/// channels, nothing is sent.
pub proof fn law_decisions_reach_the_client(
    channel: Seq<char>,
    chat_id: Seq<char>,
    request_id: Seq<char>,
    answer: AnswerV,
)
    ensures
        ({
            let event = resolved_event(channel, chat_id, request_id, answer);
            let acp = channel == "acp"@ || channel == "acp_http"@;
            &&& event is Some <==> acp && !(answer is TimedOut)
            &&& event matches Some(m) ==> {
                &&& m.channel == channel
                &&& m.chat_id == chat_id
                &&& m.kind == OutboundMessageKind::Custom
                &&& m.metadata.contains_key("custom.name"@)
                &&& m.metadata["custom.name"@] == "approval_resolved"@
                &&& m.metadata.contains_key("custom.payload"@)
                &&& exists|payload: JsonV|
                    m.metadata["custom.payload"@] == #[trigger] json_text(payload) && says(
                        payload,
                        "requestId"@,
                        request_id,
                    ) && (answer is Approved ==> says(payload, "decision"@, "approve"@)) && (
                    answer is Denied ==> says(payload, "decision"@, "deny"@))
            }
        }),
{
    reveal_strlit("custom.name");
    reveal_strlit("custom.payload");
    reveal_strlit("requestId");
    reveal_strlit("decision");
    assert("custom.name"@.len() == 11 && "custom.payload"@.len() == 14);
    assert("requestId"@.len() == 9 && "decision"@.len() == 8);
    reveal_with_fuel(crate::json::field_at, 4);
    if let Some(m) = resolved_event(channel, chat_id, request_id, answer) {
        let label = decision_label(answer).unwrap();
        let payload = JsonV::Object(
            Seq::empty().push(("requestId"@, JsonV::Text(request_id))).push(
                ("decision"@, JsonV::Text(label)),
            ),
        );
        assert(says(payload, "requestId"@, request_id));
        assert(says(payload, "decision"@, label));
        assert(m.metadata["custom.payload"@] == json_text(payload));
    }
}

/// A reply approves with one of three words and denies with one of three others;
/// nothing else is a reply.
pub proof fn law_words_of_replies(s: Seq<char>)
    ensures
        reply_of(s) == Some(true) <==> s == "yes"@ || s == "y"@ || s == "approve"@,
        reply_of(s) == Some(false) <==> s == "no"@ || s == "n"@ || s == "deny"@,
{
    reveal_strlit("yes");
    reveal_strlit("y");
    reveal_strlit("approve");
    reveal_strlit("no");
    reveal_strlit("n");
    reveal_strlit("deny");
    assert("yes"@.len() == 3 && "y"@.len() == 1 && "approve"@.len() == 7 && "no"@.len() == 2
        && "n"@.len() == 1 && "deny"@.len() == 4);
    assert("y"@[0] == 'y' && "n"@[0] == 'n');
}

/// A command is one of its two spellings.
pub proof fn law_words_of_commands(s: Seq<char>)
    ensures
        command_of(s) == Some(ThreadCommand::SkipApproval) <==> s == "/skip-approval"@ || s
            == "/skip_approval"@,
        command_of(s) == Some(ThreadCommand::RequireApproval) <==> s == "/require-approval"@ || s
            == "/require_approval"@,
        command_of(s) == Some(ThreadCommand::Status) <==> s == "/approval-status"@ || s
            == "/approval_status"@,
        command_of(s) == Some(ThreadCommand::Help) <==> s == "/help"@ || s == "/?"@,
{
    reveal_strlit("/skip-approval");
    reveal_strlit("/skip_approval");
    reveal_strlit("/require-approval");
    reveal_strlit("/require_approval");
    reveal_strlit("/approval-status");
    reveal_strlit("/approval_status");
    reveal_strlit("/help");
    reveal_strlit("/?");
    assert("/skip-approval"@.len() == 14 && "/skip_approval"@.len() == 14
        && "/require-approval"@.len() == 17 && "/require_approval"@.len() == 17
        && "/approval-status"@.len() == 16 && "/approval_status"@.len() == 16 && "/help"@.len()
        == 5 && "/?"@.len() == 2);
}

/// A message is taken first as the confirmation of what the thread asked for in time,
/// then as a command, then as a reply, and goes on to the agent where it is none. A
/// reply that names its request answers that one; any other answers the oldest.
pub proof fn law_what_becomes_of_messages(
    pending: Map<ThreadV, ConfirmV>,
    thread: ThreadV,
    msg: InboundV,
    now: u64,
)
    ensures
        ({
            let said = trim(msg.content);
            let step = intercepted(pending, thread, msg, now);
            let live = pending.contains_key(thread) && now < pending[thread].deadline;
            let injected = msg.metadata.contains_key("inject_kind"@);
            &&& step is Confirmed <==> live && lower(said) == lower("confirm"@)
            &&& step matches InterceptV::Confirmed(channel, chat_id) ==> channel
                == pending[thread].channel && chat_id == pending[thread].chat_id
            &&& !(step is Confirmed) ==> (command_of(lower(said)) matches Some(cmd) ==> step
                == InterceptV::Command(cmd))
            &&& !(step is Confirmed) && command_of(lower(said)) is None ==> {
                &&& reply_of(lowered(said)) is None ==> step is Pass
                &&& reply_of(lowered(said)) matches Some(approved) ==> {
                    &&& !injected ==> step == InterceptV::ResolveOldest(approved)
                    &&& injected && msg.metadata["inject_kind"@] != "approval_response"@ ==> step
                        is Pass
                    &&& injected && !msg.metadata.contains_key("request_id"@) ==> step is Pass
                    &&& injected && msg.metadata["inject_kind"@] == "approval_response"@
                        && msg.metadata.contains_key("request_id"@)
                        && msg.metadata["request_id"@].len() > 0 ==> step
                        == InterceptV::ResolveById(msg.metadata["request_id"@], approved)
                    &&& injected && msg.metadata["inject_kind"@] == "approval_response"@
                        && msg.metadata.contains_key("request_id"@)
                        && msg.metadata["request_id"@].len() == 0 ==> step
                        == InterceptV::ResolveOldest(approved)
                }
            }
        }),
{
}

/// What the commands do. Skipping approvals opens, in a thread that requires them, a
/// request that names the chat and can be confirmed for sixty seconds; requiring them
/// drops it. The help is the list of commands.
pub proof fn law_what_commands_do(
    pending: Map<ThreadV, ConfirmV>,
    thread: ThreadV,
    channel: Seq<char>,
    chat_id: Seq<char>,
    now: u64,
    mode: ThreadApprovalMode,
    state: ThreadApprovalState,
    count: nat,
)
    ensures
        ({
            let open = pending_after(
                ThreadCommand::SkipApproval,
                pending,
                thread,
                ThreadApprovalMode::RequireApproval,
                channel,
                chat_id,
                now,
            );
            &&& open.contains_key(thread)
            &&& open[thread].channel == channel
            &&& open[thread].chat_id == chat_id
            &&& now + 60_000_000_000 <= u64::MAX ==> open[thread].deadline == now + 60_000_000_000
            &&& open.remove(thread) == pending.remove(thread)
        }),
        pending_after(
            ThreadCommand::RequireApproval,
            pending,
            thread,
            mode,
            channel,
            chat_id,
            now,
        ) == pending.remove(thread),
        command_step(ThreadCommand::RequireApproval, state, count) is RequireApproval,
        command_step(ThreadCommand::Help, state, count) == CommandV::Reply(THREAD_HELP_TEXT@),
        command_step(ThreadCommand::SkipApproval, state, count) is Reply,
        command_step(ThreadCommand::Status, state, count) == CommandV::Reply(
            status_text(state, count),
        ),
{
    let open = pending_after(
        ThreadCommand::SkipApproval,
        pending,
        thread,
        ThreadApprovalMode::RequireApproval,
        channel,
        chat_id,
        now,
    );
    assert(open.remove(thread) =~= pending.remove(thread));
}

/// Before a thread skips approvals the chat is told how to confirm that, and a thread
/// that skips them already is told so.
pub proof fn law_skipping_is_announced(state: ThreadApprovalState, count: nat)
    ensures
        command_step(ThreadCommand::SkipApproval, state, count) matches CommandV::Reply(t) && (
        state.mode == ThreadApprovalMode::RequireApproval ==> contains(
            t,
            "Reply `confirm` within 60s"@,
        )) && (state.mode == ThreadApprovalMode::AutoApprove ==> contains(
            t,
            "AutoApprove is already active"@,
        )),
{
    reveal_strlit(
        "⚠️ You're about to disable manual approval for this thread. Dangerous tools will run without prompting. Reply `confirm` within 60s to proceed (any other reply cancels).",
    );
    reveal_strlit(
        "⚠️ You're about to disable manual approval for this thread. Dangerous tools will run without prompting. ",
    );
    reveal_strlit("Reply `confirm` within 60s");
    reveal_strlit(" to proceed (any other reply cancels).");
    reveal_strlit(
        "ℹ️ AutoApprove is already active for this thread. Use `/require-approval` to switch back.",
    );
    reveal_strlit("ℹ️ ");
    reveal_strlit("AutoApprove is already active");
    reveal_strlit(" for this thread. Use `/require-approval` to switch back.");
    let a =
        "⚠️ You're about to disable manual approval for this thread. Dangerous tools will run without prompting. "@;
    let b = " to proceed (any other reply cancels)."@;
    assert("⚠️ You're about to disable manual approval for this thread. Dangerous tools will run without prompting. Reply `confirm` within 60s to proceed (any other reply cancels)."@
        =~= a + "Reply `confirm` within 60s"@ + b);
    lemma_holds_middle(a, "Reply `confirm` within 60s"@, b);
    let c = " for this thread. Use `/require-approval` to switch back."@;
    assert("ℹ️ AutoApprove is already active for this thread. Use `/require-approval` to switch back."@
        =~= "ℹ️ "@ + "AutoApprove is already active"@ + c);
    lemma_holds_middle("ℹ️ "@, "AutoApprove is already active"@, c);
}

/// The status of a thread tells its mode, who set it and when, and how many requests
/// wait.
pub proof fn law_status_tells_the_mode(state: ThreadApprovalState, count: nat)
    ensures
        state.mode == ThreadApprovalMode::AutoApprove ==> contains(
            status_text(state, count),
            "Mode: `"@ + "AutoApprove"@ + "`"@,
        ),
        state.mode == ThreadApprovalMode::RequireApproval ==> contains(
            status_text(state, count),
            "Mode: `"@ + "RequireApproval (default)"@ + "`"@,
        ),
        state.updated_by@.len() == 0 ==> contains(status_text(state, count), "never changed"@),
        state.updated_by@.len() > 0 ==> contains(
            status_text(state, count),
            "last changed by `"@ + state.updated_by@ + "` at "@ + state.updated_at@,
        ),
        count == 0 ==> contains(status_text(state, count), "no pending approvals"@),
        count > 0 ==> contains(
            status_text(state, count),
            decimal(count) + " pending approval(s) on this thread"@,
        ),
{
    let a = "**Approval status**\n• Mode: `"@;
    let b = match state.mode {
        ThreadApprovalMode::RequireApproval => "RequireApproval (default)"@,
        ThreadApprovalMode::AutoApprove => "AutoApprove"@,
    };
    let c = "`\n• "@;
    let d = if state.updated_by@.len() == 0 {
        "never changed"@
    } else {
        "last changed by `"@ + state.updated_by@ + "` at "@ + state.updated_at@
    };
    let f = if count == 0 {
        "no pending approvals"@
    } else {
        decimal(count) + " pending approval(s) on this thread"@
    };
    lemma_status(state, count, a, b, c, d, f);
}

proof fn lemma_status(
    state: ThreadApprovalState,
    count: nat,
    a: Seq<char>,
    b: Seq<char>,
    c: Seq<char>,
    d: Seq<char>,
    f: Seq<char>,
)
    requires
        a == "**Approval status**\n• Mode: `"@,
        c == "`\n• "@,
        status_text(state, count) == a + b + c + d + "\n• "@ + f
            + "\n\nSend `/help` for the full command list."@,
    ensures
        contains(status_text(state, count), "Mode: `"@ + b + "`"@),
        contains(status_text(state, count), d),
        contains(status_text(state, count), f),
{
    let e = "\n• "@;
    let g = "\n\nSend `/help` for the full command list."@;
    let none = Seq::<char>::empty();
    let t = status_text(state, count);
    assert(a + b + c + d + e + f + g + none =~= t);
    lemma_holds_middle(none, d, none);
    lemma_holds_middle(none, f, none);
    lemma_card(a + b + c, d, e, f, g, none, d);
    lemma_card(a + b + c, d, e, f, g, none, f);
    let quoted = "Mode: `"@ + b + "`"@;
    reveal_strlit("`");
    reveal_strlit("Mode: `");
    reveal_strlit("**Approval status**\n• Mode: `");
    reveal_strlit("**Approval status**\n• ");
    reveal_strlit("`\n• ");
    reveal_strlit("\n• ");
    assert(a =~= "**Approval status**\n• "@ + "Mode: `"@);
    assert(c =~= "`"@ + e);
    assert(a + b + c =~= "**Approval status**\n• "@ + quoted + e);
    lemma_holds_middle("**Approval status**\n• "@, quoted, e);
    lemma_card(a + b + c, d, e, f, g, none, quoted);
}

/// A delivery target is a channel and a chat with a colon between them, neither empty;
/// the first colon counts.
pub proof fn law_delivery_targets(channel: Seq<char>, chat: Seq<char>, s: Seq<char>)
    requires
        forall|k: int| 0 <= k < channel.len() ==> #[trigger] channel[k] != ':',
    ensures
        channel.len() > 0 && chat.len() > 0 ==> delivery_target(channel.push(':') + chat) == Some(
            (channel, chat),
        ),
        channel.len() == 0 || chat.len() == 0 ==> delivery_target(channel.push(':') + chat) is None,
        delivery_target(channel) is None,
        delivery_target(s) matches Some((a, b)) ==> s == a.push(':') + b && a.len() > 0 && b.len()
            > 0,
{
    let p = seq![':'];
    let t = channel.push(':') + chat;
    let n = channel.len() as int;
    lemma_first_at(t, p, 0);
    assert(t[n] == ':');
    assert(t.subrange(n, n + 1) =~= p);
    assert(occurs_at(t, p, n));
    let i = first_at(t, p, 0).unwrap();
    if i < n {
        assert(t.subrange(i, i + 1)[0] == ':');
        assert(t[i] == channel[i]);
    }
    assert(t.take(n) =~= channel);
    assert(t.skip(n + 1) =~= chat);
    lemma_first_at(channel, p, 0);
    if let Some(k) = first_at(channel, p, 0) {
        assert(channel.subrange(k, k + 1)[0] == ':');
        assert(channel[k] == ':');
    }
    lemma_first_at(s, p, 0);
    if let Some(k) = first_at(s, p, 0) {
        assert(s.subrange(k, k + 1)[0] == ':');
        assert(s =~= s.take(k).push(':') + s.skip(k + 1));
    }
}

/// A flag names a container backend: `auto` leaves the choice to the configuration,
/// `docker` and, where the machine offers it, `apple` name theirs, and any other word
/// is refused with an error that repeats it.
pub proof fn law_container_flags(flag: Seq<char>, apple: bool)
    ensures
        flag == "auto"@ ==> backend_of(flag, apple) == Ok::<
            Option<ContainerBackend>,
            Seq<char>,
        >(None),
        flag != "auto"@ ==> {
            let name = lowered(flag);
            &&& name == "docker"@ ==> backend_of(flag, apple) == Ok::<
                Option<ContainerBackend>,
                Seq<char>,
            >(Some(ContainerBackend::Docker))
            &&& name == "apple"@ && apple ==> backend_of(flag, apple) == Ok::<
                Option<ContainerBackend>,
                Seq<char>,
            >(Some(ContainerBackend::Apple))
            &&& name == "auto"@ ==> backend_of(flag, apple) == Ok::<
                Option<ContainerBackend>,
                Seq<char>,
            >(Some(ContainerBackend::Auto))
            &&& name != "docker"@ && name != "auto"@ && (name != "apple"@ || !apple) ==> (
            backend_of(flag, apple) matches Err(e) && contains(e, "'"@ + name + "'"@))
        },
{
    reveal_strlit("docker");
    reveal_strlit("apple");
    reveal_strlit("auto");
    assert("docker"@.len() == 6 && "apple"@.len() == 5 && "auto"@.len() == 4);
    let name = lowered(flag);
    if let Err(e) = backend_of(flag, apple) {
        reveal_strlit("Unknown backend '");
        reveal_strlit("Unknown backend ");
        reveal_strlit("'");
        reveal_strlit("'. Use: docker or apple");
        reveal_strlit(". Use: docker or apple");
        reveal_strlit("'. Use: docker");
        reveal_strlit(". Use: docker");
        assert("Unknown backend '"@ =~= "Unknown backend "@ + "'"@);
        assert("'. Use: docker or apple"@ =~= "'"@ + ". Use: docker or apple"@);
        assert("'. Use: docker"@ =~= "'"@ + ". Use: docker"@);
        let after = if apple {
            ". Use: docker or apple"@
        } else {
            ". Use: docker"@
        };
        assert(e =~= "Unknown backend "@ + ("'"@ + name + "'"@) + after);
        lemma_holds_middle("Unknown backend "@, "'"@ + name + "'"@, after);
    }
}

/// A section is reported as changed exactly where it differs.
pub proof fn law_changed_sections(old: HotSections, new: HotSections)
    ensures
        changed_sections(old, new).contains("providers"@) <==> maybe_json(old.providers)
            != maybe_json(new.providers),
        changed_sections(old, new).contains("channels"@) <==> maybe_json(old.channels)
            != maybe_json(new.channels),
        changed_sections(old, new).contains("safety"@) <==> maybe_json(old.safety) != maybe_json(
            new.safety,
        ),
        changed_sections(old, new).contains("agents"@) <==> maybe_json(old.agents) != maybe_json(
            new.agents,
        ),
        old.providers matches Some(a) ==> (new.providers matches Some(b) ==> (maybe_json(
            old.providers,
        ) == maybe_json(new.providers) <==> a@ == b@)),
{
    reveal_strlit("providers");
    reveal_strlit("channels");
    reveal_strlit("safety");
    reveal_strlit("agents");
    assert("providers"@.len() == 9 && "channels"@.len() == 8 && "safety"@.len() == 6
        && "agents"@.len() == 6 && "safety"@[0] == 's' && "agents"@[0] == 'a');
    let p = maybe_json(old.providers) != maybe_json(new.providers);
    let c = maybe_json(old.channels) != maybe_json(new.channels);
    let s = maybe_json(old.safety) != maybe_json(new.safety);
    let g = maybe_json(old.agents) != maybe_json(new.agents);
    lemma_with_name(seq![], p, "providers"@);
    let a = with_name(seq![], p, "providers"@);
    lemma_with_name(a, c, "channels"@);
    let b = with_name(a, c, "channels"@);
    lemma_with_name(b, s, "safety"@);
    let d = with_name(b, s, "safety"@);
    lemma_with_name(d, g, "agents"@);
}

proof fn lemma_with_name(names: Seq<Seq<char>>, changed: bool, name: Seq<char>)
    ensures
        forall|n: Seq<char>| #[trigger]
            with_name(names, changed, name).contains(n) <==> names.contains(n) || (changed && n
                == name),
{
    let all = with_name(names, changed, name);
    assert forall|n: Seq<char>| #[trigger] all.contains(n) <==> names.contains(n) || (changed && n
        == name) by {
        if names.contains(n) {
            let i = choose|i: int| 0 <= i < names.len() && names[i] == n;
            assert(all[i] == n);
        }
        if changed && n == name {
            assert(all[names.len() as int] == n);
        }
        if all.contains(n) {
            let i = choose|i: int| 0 <= i < all.len() && all[i] == n;
            if i < names.len() {
                assert(names[i] == n);
            }
        }
    }
}

/// A request can be shown where it names a chat and a channel, and belongs to a thread
/// where it names a user and an agent; an empty name is none.
pub proof fn law_routes_of_requests(request: RequestV)
    ensures
        route_refusal(request) is None <==> (request.chat_id matches Some(c) && c.len() > 0) && (
        request.channel matches Some(c) && c.len() > 0),
        (request.user_id matches Some(u) && u.len() > 0) && (request.agent_id matches Some(a)
            && a.len() > 0) ==> named_thread(request) == Some(
            ThreadV { user: request.user_id.unwrap(), agent: request.agent_id.unwrap() },
        ),
        named_thread(request) matches Some(t) ==> request.user_id == Some(t.user)
            && request.agent_id == Some(t.agent) && t.user.len() > 0 && t.agent.len() > 0,
{
}

/// Where no provider can be used the operator is told which are configured and which
/// could be used, or that none is and where to add one.
pub proof fn law_complaints(
    configured: Seq<Seq<char>>,
    supported: Seq<Seq<char>>,
    config_path: Seq<char>,
)
    ensures
        configured.len() == 0 ==> contains(
            complaints(configured, supported, config_path).1,
            config_path,
        ),
        configured.len() > 0 ==> contains(
            complaints(configured, supported, config_path).0,
            join(configured, ", "@),
        ) && contains(complaints(configured, supported, config_path).1, join(supported, ", "@)),
{
    lemma_holds_middle("or add your API key to "@, config_path, ""@);
    lemma_holds_middle(
        "Configured provider(s) are not supported by this runtime: "@,
        join(configured, ", "@),
        ""@,
    );
    lemma_holds_middle("Currently supported runtime providers: "@, join(supported, ", "@), ""@);
}

/// What the operator reads ends with the line that the gateway runs; the warning
/// stands before it exactly in degraded mode.
pub proof fn law_banners(degraded: bool, containerized: bool)
    ensures
        banner(degraded, containerized).len() == (if degraded {
            3int
        } else {
            1int
        }),
        containerized ==> banner(degraded, containerized).last()
            == "Gateway is running (containerized mode). Press Ctrl+C to stop."@,
        !containerized ==> banner(degraded, containerized).last()
            == "Gateway is running. Press Ctrl+C to stop."@,
{
}

/// A card says nothing of rules, of other requests or of the mode where there is nothing
/// to say: without a hard-floor rule it shows no badge, with one request no queue, and
/// under a rule no hint on the mode, for no mode applies.
pub proof fn law_cards_say_no_more(pending: nat, auto_approve: bool)
    ensures
        floor_badge(None).len() == 0,
        pending <= 1 ==> queue_hint(pending).len() == 0,
        mode_hint(true, auto_approve).len() == 0,
{
    reveal_strlit("");
}

/// What becomes of a message and what a command leads to hold what their models hold.
pub proof fn law_decisions_hold_what_is_done(
    step: InterceptStep,
    command: CommandStep,
    pending: ConfirmPending,
    section: Json,
)
    ensures
        match step {
            InterceptStep::Confirmed { channel, chat_id } => step@ == InterceptV::Confirmed(
                channel@,
                chat_id@,
            ),
            InterceptStep::Command(cmd) => step@ == InterceptV::Command(cmd),
            InterceptStep::ResolveOldest(b) => step@ == InterceptV::ResolveOldest(b),
            InterceptStep::ResolveById(id, b) => step@ == InterceptV::ResolveById(id@, b),
            InterceptStep::Pass => step@ is Pass,
        },
        match command {
            CommandStep::Reply(s) => command@ == CommandV::Reply(s@),
            CommandStep::RequireApproval => command@ is RequireApproval,
        },
        confirm_view(pending).deadline == pending.deadline,
        confirm_view(pending).channel == pending.channel@,
        confirm_view(pending).chat_id == pending.chat_id@,
        maybe_json(Some(section)) == Some(section@),
        maybe_json(None) is None,
{
}

/// The help names every command.
pub proof fn law_the_help_names_the_commands()
    ensures
        contains(THREAD_HELP_TEXT@, "`/skip-approval`"@),
        contains(THREAD_HELP_TEXT@, "`/require-approval`"@),
        contains(THREAD_HELP_TEXT@, "`/approval-status`"@),
        contains(THREAD_HELP_TEXT@, "`/help`"@),
{
    reveal_strlit(
        "**zeptoclaw — available commands**\n\nApproval mode (per-thread, persistent):\n• `/skip-approval` — disable manual approval. Reply `confirm` within 60s to take effect.\n• `/require-approval` — re-enable manual approval (default).\n• `/approval-status` — show current mode + pending count.\n\nMisc:\n• `/help` — show this message.\n\nWhile an approval card is active, reply `yes` / `no` to that specific card.\nHardFloor rules (destructive shell commands) always require approval and cannot be skipped by `/skip-approval`.",
    );
    reveal_strlit("`/skip-approval`");
    reveal_strlit("`/require-approval`");
    reveal_strlit("`/approval-status`");
    reveal_strlit("`/help`");
    let t = THREAD_HELP_TEXT@;
    let a = 78int;
    let b = 167int;
    let c = 228int;
    let d = 293int;
    assert(t.subrange(a, a + 16) =~= "`/skip-approval`"@);
    assert(occurs_at(t, "`/skip-approval`"@, a));
    assert(t.subrange(b, b + 19) =~= "`/require-approval`"@);
    assert(occurs_at(t, "`/require-approval`"@, b));
    assert(t.subrange(c, c + 18) =~= "`/approval-status`"@);
    assert(occurs_at(t, "`/approval-status`"@, c));
    assert(t.subrange(d, d + 7) =~= "`/help`"@);
    assert(occurs_at(t, "`/help`"@, d));
}

} // verus!
