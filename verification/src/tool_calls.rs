//! One tool call: its arguments, whether it may run, and what became of it.
use vstd::prelude::*;

use crate::agent_loop::{dry_run_note, dry_run_result};
use crate::approval::maybe_text;
use crate::bus::{plain_outbound, InboundMessage, InboundV, OutboundMessage, OutboundV};
use crate::harness_state::{PROPOSE_PLAN_TOOL_NAME, REVISE_PLAN_TOOL_NAME};
use crate::json::{json_of_text, no_fields, object, parse_json, put_text, says, Json, JsonV};
use crate::number::{decimal, decimal_text};
use crate::observations::{rejected, ToolObservation, ToolObservationKind};
use crate::session::{text_message, Message, Role};
use crate::text::{put, same_text, text};
use crate::tool_helpers::carry;

verus! {

/// The arguments of a call; text that is not JSON becomes a note about it.
pub open spec fn arguments_of(raw: Seq<char>) -> JsonV {
    match json_of_text(raw) {
        Ok(value) => value,
        Err(e) => JsonV::Object(
            Seq::empty().push(
                ("_parse_error"@, JsonV::Text("Invalid arguments JSON: "@ + e)),
            ),
        ),
    }
}

/// The arguments of a call; text that is not JSON becomes a note about it.
pub fn tool_arguments(raw_args: &str) -> (r: Json)
    ensures
        r@ == arguments_of(raw_args@),
{
    match parse_json(raw_args) {
        Ok(value) => value,
        Err(e) => {
            let mut note = text("Invalid arguments JSON: ");
            put(&mut note, e.as_str());
            let mut fields = no_fields();
            put_text(&mut fields, "_parse_error", note.as_str());
            object(fields)
        },
    }
}

/// Who answers a tool call.
#[derive(Debug, Clone, Copy, PartialEq, Eq, Structural)]
pub enum CallRoute {
    /// The turn's plan, which the model proposes.
    ProposePlan,
    /// The turn's plan, which the model revises.
    RevisePlan,
    /// A tool.
    Tool,
}

/// Who answers a call of a tool with the given name.
pub open spec fn call_route(name: Seq<char>) -> CallRoute {
    if name == PROPOSE_PLAN_TOOL_NAME@ {
        CallRoute::ProposePlan
    } else if name == REVISE_PLAN_TOOL_NAME@ {
        CallRoute::RevisePlan
    } else {
        CallRoute::Tool
    }
}

/// Who answers a tool call.
pub fn route_call(name: &str) -> (r: CallRoute)
    ensures
        r == call_route(name@),
{
    if same_text(name, PROPOSE_PLAN_TOOL_NAME) {
        CallRoute::ProposePlan
    } else if same_text(name, REVISE_PLAN_TOOL_NAME) {
        CallRoute::RevisePlan
    } else {
        CallRoute::Tool
    }
}

/// The messages of a model call with the turn's plan at their end.
pub fn with_plan_prompt(messages: Vec<Message>, plan: Option<&str>) -> (r: Vec<Message>)
    ensures
        r.deep_view() == (match maybe_text(plan) {
            Some(p) => messages.deep_view().push(text_message(Role::System, p)),
            None => messages.deep_view(),
        }),
{
    match plan {
        Some(p) => {
            let mut all = messages;
            all.push(Message::system(p));
            proof {
                assert(all.deep_view() =~= messages.deep_view().push(
                    text_message(Role::System, p@),
                ));
            }
            all
        },
        None => messages,
    }
}

// ---------------------------------------------------------------------------
// Whether a call may run
// ---------------------------------------------------------------------------
/// What the agent's mode says to a category of tools.
#[derive(Debug, Clone, Copy, PartialEq, Eq, Structural)]
pub enum CategoryPermission {
    Allowed,
    RequiresApproval,
    Blocked,
}

/// What stands in a call's way before anybody is asked.
#[derive(Debug)]
pub struct CallChecks {
    /// Why the arguments do not fit the tool.
    pub validation_error: Option<String>,
    /// Why a hook blocks the call.
    pub hook_block: Option<String>,
    /// What the mode says to the tool; nothing where there is no such tool.
    pub permission: Option<CategoryPermission>,
    /// Whether the session is a local one that is trusted.
    pub trusted: bool,
    /// Whether the user is asked before this tool runs.
    pub gated: bool,
    /// The name of the agent's mode.
    pub mode: String,
    /// The name of the tool's category.
    pub category: String,
}

/// The model of [`CallChecks`].
pub struct ChecksV {
    pub validation_error: Option<Seq<char>>,
    pub hook_block: Option<Seq<char>>,
    pub permission: Option<CategoryPermission>,
    pub trusted: bool,
    pub gated: bool,
    pub mode: Seq<char>,
    pub category: Seq<char>,
}

impl View for CallChecks {
    type V = ChecksV;

    open spec fn view(&self) -> ChecksV {
        ChecksV {
            validation_error: self.validation_error.deep_view(),
            hook_block: self.hook_block.deep_view(),
            permission: self.permission,
            trusted: self.trusted,
            gated: self.gated,
            mode: self.mode@,
            category: self.category@,
        }
    }
}

impl ChecksV {
    /// Why a call does not run, and how bad that is: arguments that do not fit come
    /// first, then hooks, then the mode.
    pub open spec fn refusal(self, name: Seq<char>) -> Option<(Seq<char>, ToolObservationKind)> {
        match (self.validation_error, self.hook_block) {
            (Some(e), _) => Some((e, ToolObservationKind::SoftError)),
            (None, Some(why)) => Some(
                (
                    "Tool '"@ + name + "' blocked by hook: "@ + why,
                    ToolObservationKind::HardError,
                ),
            ),
            (None, None) => match self.permission {
                Some(CategoryPermission::Blocked) => Some(
                    (
                        "Tool '"@ + name + "' is blocked in "@ + self.mode
                            + " mode (category: "@ + self.category + ")"@,
                        ToolObservationKind::HardError,
                    ),
                ),
                Some(CategoryPermission::RequiresApproval) => if self.trusted || self.gated {
                    None
                } else {
                    Some(
                        (
                            "Tool '"@ + name + "' requires approval in "@ + self.mode
                                + " mode (category: "@ + self.category + "). Not executed."@,
                            ToolObservationKind::ApprovalRequired,
                        ),
                    )
                },
                _ => None,
            },
        }
    }
}

fn mode_note(
    name: &str,
    verb: &str,
    checks: &CallChecks,
    ending: &str,
) -> (r: String)
    ensures
        r@ == "Tool '"@ + name@ + verb@ + checks@.mode + " mode (category: "@ + checks@.category
            + ending@,
{
    let mut s = text("Tool '");
    put(&mut s, name);
    put(&mut s, verb);
    put(&mut s, checks.mode.as_str());
    put(&mut s, " mode (category: ");
    put(&mut s, checks.category.as_str());
    put(&mut s, ending);
    s
}

/// The observation of a call that does not run; none where nothing stands in its
/// way.
pub fn check_tool_call(call_id: &str, name: &str, checks: &CallChecks) -> (r: Option<
    ToolObservation,
>)
    ensures
        match r {
            Some(o) => checks@.refusal(name@) matches Some(why) && o.deep_view() == rejected(
                call_id@,
                name@,
                why.0,
                why.1,
            ),
            None => checks@.refusal(name@) is None,
        },
{
    if let Some(e) = &checks.validation_error {
        return Some(
            ToolObservation::pre_execution(
                call_id,
                name,
                e.as_str(),
                ToolObservationKind::SoftError,
            ),
        );
    }
    if let Some(why) = &checks.hook_block {
        let mut note = text("Tool '");
        put(&mut note, name);
        put(&mut note, "' blocked by hook: ");
        put(&mut note, why.as_str());
        return Some(
            ToolObservation::pre_execution(
                call_id,
                name,
                note.as_str(),
                ToolObservationKind::HardError,
            ),
        );
    }
    match checks.permission {
        Some(CategoryPermission::Blocked) => {
            let note = mode_note(name, "' is blocked in ", checks, ")");
            Some(
                ToolObservation::pre_execution(
                    call_id,
                    name,
                    note.as_str(),
                    ToolObservationKind::HardError,
                ),
            )
        },
        Some(CategoryPermission::RequiresApproval) => {
            if checks.trusted || checks.gated {
                return None;
            }
            let note = mode_note(name, "' requires approval in ", checks, "). Not executed.");
            Some(
                ToolObservation::pre_execution(
                    call_id,
                    name,
                    note.as_str(),
                    ToolObservationKind::ApprovalRequired,
                ),
            )
        },
        _ => None,
    }
}

/// The observation of a call for which there is no approval, or of one that is
/// only described; none where the call runs. A trusted session needs no approval.
pub fn settle_before_run(
    call_id: &str,
    name: &str,
    trusted: bool,
    approval_refusal: Option<&str>,
    dry_run: bool,
    sanitized_arguments: &str,
) -> (r: Option<ToolObservation>)
    ensures
        match (maybe_text(approval_refusal), r) {
            (Some(why), Some(o)) if !trusted => o.deep_view() == rejected(
                call_id@,
                name@,
                why,
                ToolObservationKind::ApprovalRequired,
            ),
            (_, Some(o)) => dry_run && o.deep_view() == rejected(
                call_id@,
                name@,
                dry_run_note(name@, sanitized_arguments@),
                ToolObservationKind::Success,
            ),
            (refusal, None) => !dry_run && (trusted || refusal is None),
        },
{
    if !trusted {
        if let Some(why) = approval_refusal {
            return Some(
                ToolObservation::pre_execution(
                    call_id,
                    name,
                    why,
                    ToolObservationKind::ApprovalRequired,
                ),
            );
        }
    }
    if dry_run {
        let note = dry_run_result(name, sanitized_arguments);
        return Some(
            ToolObservation::pre_execution(
                call_id,
                name,
                note.as_str(),
                ToolObservationKind::Success,
            ),
        );
    }
    None
}

/// Whether the calls of a round run one after the other: the user is to be asked
/// about one of them, or their order matters.
pub fn runs_in_sequence(
    trusted: bool,
    has_handler: bool,
    any_gated: bool,
    order_matters: bool,
) -> (r: bool)
    ensures
        r == ((!trusted && has_handler && any_gated) || order_matters),
{
    (!trusted && has_handler && any_gated) || order_matters
}

/// How long one tool call may take, in seconds: as long as the tools' own limit
/// says, or as a run may take where there is none, and never no time at all.
pub fn tool_timeout(tool_timeout_secs: u64, agent_timeout_secs: u64) -> (r: u64)
    ensures
        r == (if tool_timeout_secs > 0 {
            tool_timeout_secs
        } else if agent_timeout_secs > 0 {
            agent_timeout_secs
        } else {
            1
        }),
{
    if tool_timeout_secs > 0 {
        tool_timeout_secs
    } else if agent_timeout_secs > 0 {
        agent_timeout_secs
    } else {
        1
    }
}

// ---------------------------------------------------------------------------
// What became of a call
// ---------------------------------------------------------------------------
/// How a call that ran came to its end.
#[derive(Debug)]
pub enum Execution {
    /// The tool gave a result.
    Output { for_llm: String, is_error: bool, pause_for_input: bool },
    /// The tool could not give one.
    Failed(String),
    /// The tool panicked.
    Panicked,
    /// The tool took too long.
    TimedOut,
}

/// The model of an [`Execution`].
pub enum ExecutionV {
    Output(Seq<char>, bool, bool),
    Failed(Seq<char>),
    Panicked,
    TimedOut,
}

impl View for Execution {
    type V = ExecutionV;

    open spec fn view(&self) -> ExecutionV {
        match self {
            Execution::Output { for_llm, is_error, pause_for_input } => ExecutionV::Output(
                for_llm@,
                *is_error,
                *pause_for_input,
            ),
            Execution::Failed(e) => ExecutionV::Failed(e@),
            Execution::Panicked => ExecutionV::Panicked,
            Execution::TimedOut => ExecutionV::TimedOut,
        }
    }
}

impl ExecutionV {
    /// The result that the model reads.
    pub open spec fn result(self, name: Seq<char>, timeout_secs: u64) -> Seq<char> {
        match self {
            ExecutionV::Output(t, _, _) => t,
            ExecutionV::Failed(e) => "Error: "@ + e,
            ExecutionV::Panicked => "Error: Tool '"@ + name + "' panicked during execution"@,
            ExecutionV::TimedOut => "Error: Tool '"@ + name + "' timed out after "@ + decimal(
                timeout_secs as nat,
            ) + "s"@,
        }
    }

    /// How the call concluded: a tool that reports an error leaves the model room
    /// to react, one that gave no result at all does not.
    pub open spec fn kind(self) -> ToolObservationKind {
        match self {
            ExecutionV::Output(_, is_error, _) => if is_error {
                ToolObservationKind::SoftError
            } else {
                ToolObservationKind::Success
            },
            _ => ToolObservationKind::HardError,
        }
    }

    /// Whether the tool asks to wait for the user.
    pub open spec fn pauses(self) -> bool {
        self matches ExecutionV::Output(_, _, true)
    }
}

/// What became of a call that ran: the result, the kind, and whether the turn has
/// to wait for the user.
pub fn classify_execution(execution: &Execution, name: &str, timeout_secs: u64) -> (r: (
    String,
    ToolObservationKind,
    bool,
))
    ensures
        r.0@ == execution@.result(name@, timeout_secs),
        r.1 == execution@.kind(),
        r.2 == execution@.pauses(),
{
    match execution {
        Execution::Output { for_llm, is_error, pause_for_input } => (
            for_llm.clone(),
            if *is_error {
                ToolObservationKind::SoftError
            } else {
                ToolObservationKind::Success
            },
            *pause_for_input,
        ),
        Execution::Failed(e) => {
            let mut s = text("Error: ");
            put(&mut s, e.as_str());
            (s, ToolObservationKind::HardError, false)
        },
        Execution::Panicked => {
            let mut s = text("Error: Tool '");
            put(&mut s, name);
            put(&mut s, "' panicked during execution");
            (s, ToolObservationKind::HardError, false)
        },
        Execution::TimedOut => {
            let mut s = text("Error: Tool '");
            put(&mut s, name);
            put(&mut s, "' timed out after ");
            put(&mut s, decimal_text(timeout_secs).as_str());
            put(&mut s, "s");
            (s, ToolObservationKind::HardError, false)
        },
    }
}

/// The message by which a tool speaks to the user while the agent goes on.
pub open spec fn tool_message(
    channel: Option<Seq<char>>,
    chat_id: Option<Seq<char>>,
    content: Seq<char>,
    inbound: InboundV,
) -> OutboundV {
    let or_empty = |t: Option<Seq<char>>|
        match t {
            Some(x) => x,
            None => ""@,
        };
    OutboundV {
        metadata: carry(
            carry(Map::empty(), inbound.metadata, "telegram_thread_id"@),
            inbound.metadata,
            "telegram_message_id"@,
        ).insert("keep_typing"@, "true"@),
        ..plain_outbound(or_empty(channel), or_empty(chat_id), content)
    }
}

/// The message by which a tool speaks to the user while the agent goes on.
pub fn tool_user_message(
    channel: Option<&str>,
    chat_id: Option<&str>,
    user_msg: &str,
    inbound: &InboundMessage,
) -> (r: OutboundMessage)
    ensures
        r@ == tool_message(maybe_text(channel), maybe_text(chat_id), user_msg@, inbound@),
{
    let ch = match channel {
        Some(c) => c,
        None => "",
    };
    let id = match chat_id {
        Some(c) => c,
        None => "",
    };
    let mut out = OutboundMessage::new(ch, id, user_msg);
    if let Some(v) = inbound.metadata.get("telegram_thread_id") {
        out.metadata.insert("telegram_thread_id", v.as_str());
    }
    if let Some(v) = inbound.metadata.get("telegram_message_id") {
        out.metadata.insert("telegram_message_id", v.as_str());
    }
    out.metadata.insert("keep_typing", "true");
    out
}

// ---------------------------------------------------------------------------
// Laws
// ---------------------------------------------------------------------------
/// A tool that the mode blocks never runs, whoever asks.
pub proof fn law_blocked_tools_do_not_run(checks: ChecksV, name: Seq<char>)
    requires
        checks.permission == Some(CategoryPermission::Blocked),
    ensures
        checks.refusal(name) is Some,
{
}

/// A tool that the mode lets run only with approval runs without being asked about
/// only in a trusted session.
pub proof fn law_unasked_runs_are_trusted(checks: ChecksV, name: Seq<char>)
    requires
        checks.permission == Some(CategoryPermission::RequiresApproval),
        checks.refusal(name) is None,
    ensures
        checks.trusted || checks.gated,
{
}

/// A tool that gave a result never counts as a hard failure, and one that gave
/// none always does.
pub proof fn law_results_are_never_hard_failures(execution: ExecutionV)
    ensures
        execution is Output <==> !(execution.kind() is HardError),
        execution.pauses() ==> execution is Output,
{
}

/// Arguments are what their text stands for; text that is not JSON becomes a note that
/// holds the words of the error.
pub proof fn law_arguments_are_read(raw: Seq<char>)
    ensures
        json_of_text(raw) matches Ok(value) ==> arguments_of(raw) == value,
        json_of_text(raw) matches Err(e) ==> says(
            arguments_of(raw),
            "_parse_error"@,
            "Invalid arguments JSON: "@ + e,
        ),
{
    reveal_with_fuel(crate::json::field_at, 2);
}

/// Two tools speak of the plan; every other name is that of a tool.
pub proof fn law_calls_are_routed(name: Seq<char>)
    ensures
        call_route(name) is ProposePlan <==> name == "propose_plan"@,
        call_route(name) is RevisePlan <==> name == "revise_plan"@,
        call_route(name) is Tool <==> name != "propose_plan"@ && name != "revise_plan"@,
{
    reveal_strlit("propose_plan");
    reveal_strlit("revise_plan");
    assert("propose_plan"@.len() == 12 && "revise_plan"@.len() == 11);
}

/// A call that nothing stands in the way of runs. One whose arguments do not fit is told
/// why; one that a hook or the mode blocks is told so, with the tool's name; and one
/// that the mode lets run with approval only runs where the session is trusted or the
/// user is asked.
pub proof fn law_when_calls_may_run(checks: ChecksV, name: Seq<char>)
    ensures
        checks.validation_error matches Some(e) ==> checks.refusal(name) == Some(
            (e, ToolObservationKind::SoftError),
        ),
        checks.validation_error is None ==> (checks.hook_block matches Some(why)
            ==> checks.refusal(name) == Some(
            ("Tool '"@ + name + "' blocked by hook: "@ + why, ToolObservationKind::HardError),
        )),
        checks.validation_error is None && checks.hook_block is None ==> {
            &&& checks.permission is None || checks.permission == Some(CategoryPermission::Allowed)
                ==> checks.refusal(name) is None
            &&& checks.permission == Some(CategoryPermission::Blocked) ==> checks.refusal(name)
                == Some(
                (
                    "Tool '"@ + name + "' is blocked in "@ + checks.mode + " mode (category: "@
                        + checks.category + ")"@,
                    ToolObservationKind::HardError,
                ),
            )
            &&& checks.permission == Some(CategoryPermission::RequiresApproval) ==> {
                &&& checks.trusted || checks.gated ==> checks.refusal(name) is None
                &&& !checks.trusted && !checks.gated ==> checks.refusal(name) == Some(
                    (
                        "Tool '"@ + name + "' requires approval in "@ + checks.mode
                            + " mode (category: "@ + checks.category + "). Not executed."@,
                        ToolObservationKind::ApprovalRequired,
                    ),
                )
            }
        },
{
}

/// The result of a tool is what it gave, and whether it reports an error tells how the
/// call concluded; a tool that gave none is told of with the reason.
pub proof fn law_results_are_what_tools_gave(
    output: Seq<char>,
    pause: bool,
    e: Seq<char>,
    name: Seq<char>,
    secs: u64,
)
    ensures
        ExecutionV::Output(output, false, pause).result(name, secs) == output,
        ExecutionV::Output(output, true, pause).result(name, secs) == output,
        ExecutionV::Output(output, false, pause).kind() is Success,
        ExecutionV::Output(output, true, pause).kind() is SoftError,
        ExecutionV::Output(output, false, pause).pauses() == pause,
        ExecutionV::Output(output, true, pause).pauses() == pause,
        ExecutionV::Failed(e).result(name, secs) == "Error: "@ + e,
        ExecutionV::Panicked.result(name, secs) == "Error: Tool '"@ + name
            + "' panicked during execution"@,
        ExecutionV::TimedOut.result(name, secs) == "Error: Tool '"@ + name + "' timed out after "@
            + decimal(secs as nat) + "s"@,
{
}

/// What a tool says to the user goes to the chat of the call, as it is, into the thread
/// that the user wrote in, and leaves the user waiting for the answer.
pub proof fn law_tools_speak_to_the_user(
    channel: Seq<char>,
    chat_id: Seq<char>,
    content: Seq<char>,
    inbound: InboundV,
)
    ensures
        ({
            let m = tool_message(Some(channel), Some(chat_id), content, inbound);
            &&& m.channel == channel
            &&& m.chat_id == chat_id
            &&& m.content == content
            &&& m.metadata.contains_key("keep_typing"@)
            &&& m.metadata["keep_typing"@] == "true"@
            &&& inbound.metadata.contains_key("telegram_thread_id"@) ==> m.metadata.contains_key(
                "telegram_thread_id"@,
            ) && m.metadata["telegram_thread_id"@] == inbound.metadata["telegram_thread_id"@]
            &&& inbound.metadata.contains_key("telegram_message_id"@) ==> m.metadata.contains_key(
                "telegram_message_id"@,
            ) && m.metadata["telegram_message_id"@] == inbound.metadata["telegram_message_id"@]
        }),
{
    reveal_strlit("keep_typing");
    reveal_strlit("telegram_thread_id");
    reveal_strlit("telegram_message_id");
    assert("keep_typing"@.len() == 11 && "telegram_thread_id"@.len() == 18
        && "telegram_message_id"@.len() == 19);
}

/// What became of a call, and what stands in its way, hold what their models hold.
pub proof fn law_executions_hold_what_tools_gave(execution: Execution, checks: CallChecks)
    ensures
        match execution {
            Execution::Output { for_llm, is_error, pause_for_input } => execution@
                == ExecutionV::Output(for_llm@, is_error, pause_for_input),
            Execution::Failed(e) => execution@ == ExecutionV::Failed(e@),
            Execution::Panicked => execution@ is Panicked,
            Execution::TimedOut => execution@ is TimedOut,
        },
        checks.validation_error matches Some(e) ==> checks@.validation_error == Some(e@),
        checks.validation_error is None ==> checks@.validation_error is None,
        checks.hook_block matches Some(e) ==> checks@.hook_block == Some(e@),
        checks.hook_block is None ==> checks@.hook_block is None,
        checks@.permission == checks.permission,
        checks@.trusted == checks.trusted,
        checks@.gated == checks.gated,
        checks@.mode == checks.mode@,
        checks@.category == checks.category@,
{
}

} // verus!
