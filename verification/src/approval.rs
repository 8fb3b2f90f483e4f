//! Approval of tool calls by the user.
use vstd::prelude::*;

use crate::json::{Json, JsonV};
use crate::text::{put, text};

verus! {

/// A rule that makes an approval unconditional.
#[derive(Debug)]
pub struct HardFloorRule {
    pub id: String,
    pub reason: String,
}

/// The model of a [`HardFloorRule`].
pub struct RuleV {
    pub id: Seq<char>,
    pub reason: Seq<char>,
}

impl DeepView for HardFloorRule {
    type V = RuleV;

    open spec fn deep_view(&self) -> RuleV {
        RuleV { id: self.id@, reason: self.reason@ }
    }
}

/// The user and the agent that a thread belongs to.
#[derive(Debug)]
pub struct ThreadKey {
    pub user: String,
    pub agent: String,
}

/// The model of a [`ThreadKey`].
pub struct ThreadV {
    pub user: Seq<char>,
    pub agent: Seq<char>,
}

impl View for ThreadKey {
    type V = ThreadV;

    open spec fn view(&self) -> ThreadV {
        ThreadV { user: self.user@, agent: self.agent@ }
    }
}

impl ThreadKey {
    /// The thread of a user and an agent.
    pub fn new(user: &str, agent: &str) -> (r: Self)
        ensures
            r@ == (ThreadV { user: user@, agent: agent@ }),
    {
        ThreadKey { user: text(user), agent: text(agent) }
    }
}

impl Clone for ThreadKey {
    fn clone(&self) -> (r: Self)
        ensures
            r@ == self@,
    {
        ThreadKey { user: self.user.clone(), agent: self.agent.clone() }
    }
}

/// The question whether a tool call may run.
#[derive(Debug)]
pub struct ApprovalRequest {
    pub tool_name: String,
    pub arguments: Json,
    pub channel: Option<String>,
    pub chat_id: Option<String>,
    pub user_id: Option<String>,
    pub agent_id: Option<String>,
    pub hard_floor_reason: Option<String>,
}

/// The model of an [`ApprovalRequest`].
pub struct RequestV {
    pub tool_name: Seq<char>,
    pub arguments: JsonV,
    pub channel: Option<Seq<char>>,
    pub chat_id: Option<Seq<char>>,
    pub user_id: Option<Seq<char>>,
    pub agent_id: Option<Seq<char>>,
    pub hard_floor_reason: Option<Seq<char>>,
}

impl View for ApprovalRequest {
    type V = RequestV;

    open spec fn view(&self) -> RequestV {
        RequestV {
            tool_name: self.tool_name@,
            arguments: self.arguments@,
            channel: self.channel.deep_view(),
            chat_id: self.chat_id.deep_view(),
            user_id: self.user_id.deep_view(),
            agent_id: self.agent_id.deep_view(),
            hard_floor_reason: self.hard_floor_reason.deep_view(),
        }
    }
}

/// The answer to an approval request.
#[derive(Debug)]
pub enum ApprovalResponse {
    Approved,
    /// The user said no, for the given reason.
    Denied(String),
    /// The user did not answer in time.
    TimedOut,
}

/// The model of an [`ApprovalResponse`].
pub enum AnswerV {
    Approved,
    Denied(Seq<char>),
    TimedOut,
}

impl View for ApprovalResponse {
    type V = AnswerV;

    open spec fn view(&self) -> AnswerV {
        match self {
            ApprovalResponse::Approved => AnswerV::Approved,
            ApprovalResponse::Denied(reason) => AnswerV::Denied(reason@),
            ApprovalResponse::TimedOut => AnswerV::TimedOut,
        }
    }
}

/// Whether a tool call needs an approval: a hard-floor rule asks for one even
/// where the approval policy does not.
pub fn approval_needed(hard_floor: &Option<HardFloorRule>, gate_requires: bool) -> (r: bool)
    ensures
        r == (hard_floor is Some || gate_requires),
{
    hard_floor.is_some() || gate_requires
}

/// The request for a tool call: it carries the routing, the thread where it is
/// known, and the reason of a hard-floor rule.
pub fn approval_request(
    tool_name: &str,
    arguments: &Json,
    channel: Option<&str>,
    chat_id: Option<&str>,
    thread: Option<&ThreadKey>,
    hard_floor: &Option<HardFloorRule>,
) -> (r: ApprovalRequest)
    ensures
        r@ == (RequestV {
            tool_name: tool_name@,
            arguments: arguments@,
            channel: maybe_text(channel),
            chat_id: maybe_text(chat_id),
            user_id: match thread {
                Some(t) => Some(t@.user),
                None => None,
            },
            agent_id: match thread {
                Some(t) => Some(t@.agent),
                None => None,
            },
            hard_floor_reason: match hard_floor.deep_view() {
                Some(rule) => Some(rule.reason),
                None => None,
            },
        }),
{
    let (user_id, agent_id) = match thread {
        Some(t) => (Some(t.user.clone()), Some(t.agent.clone())),
        None => (None, None),
    };
    let hard_floor_reason = match hard_floor {
        Some(rule) => Some(rule.reason.clone()),
        None => None,
    };
    ApprovalRequest {
        tool_name: text(tool_name),
        arguments: arguments.clone(),
        channel: own(channel),
        chat_id: own(chat_id),
        user_id,
        agent_id,
        hard_floor_reason,
    }
}

/// The characters of an optional text.
pub open spec fn maybe_text(s: Option<&str>) -> Option<Seq<char>> {
    match s {
        Some(t) => Some(t@),
        None => None,
    }
}

/// A copy of an optional text.
pub fn own(s: Option<&str>) -> (r: Option<String>)
    ensures
        r.deep_view() == maybe_text(s),
{
    match s {
        Some(t) => Some(text(t)),
        None => None,
    }
}

/// Why a tool call is not run, given the user's answer; none where it is run. An
/// unanswered request is a refusal, and under a hard-floor rule a denial.
pub open spec fn refusal(
    tool_name: Seq<char>,
    hard_floor: Option<RuleV>,
    answer: AnswerV,
) -> Option<Seq<char>> {
    match (answer, hard_floor) {
        (AnswerV::Approved, _) => None,
        (AnswerV::Denied(reason), _) => Some(
            "Tool '"@ + tool_name + "' was denied by user approval. "@ + reason,
        ),
        (AnswerV::TimedOut, Some(rule)) => Some(
            "Tool '"@ + tool_name + "' was denied: HardFloor approval ("@ + rule.id
                + ") timed out."@,
        ),
        (AnswerV::TimedOut, None) => Some(
            "Tool '"@ + tool_name + "' approval timed out and was not executed."@,
        ),
    }
}

/// Why a tool call is not run, given the user's answer; none where it is run.
pub fn approval_refusal(
    tool_name: &str,
    hard_floor: &Option<HardFloorRule>,
    response: &ApprovalResponse,
) -> (r: Option<String>)
    ensures
        r.deep_view() == refusal(tool_name@, hard_floor.deep_view(), response@),
{
    let mut s = text("Tool '");
    put(&mut s, tool_name);
    match response {
        ApprovalResponse::Approved => None,
        ApprovalResponse::Denied(reason) => {
            put(&mut s, "' was denied by user approval. ");
            put(&mut s, reason.as_str());
            Some(s)
        },
        ApprovalResponse::TimedOut => {
            match hard_floor {
                Some(rule) => {
                    put(&mut s, "' was denied: HardFloor approval (");
                    put(&mut s, rule.id.as_str());
                    put(&mut s, ") timed out.");
                },
                None => {
                    put(&mut s, "' approval timed out and was not executed.");
                },
            }
            Some(s)
        },
    }
}

/// Why a tool call is not run where nobody can be asked.
pub open spec fn unattended(tool_name: Seq<char>, prompt: Seq<char>) -> Seq<char> {
    "Tool '"@ + tool_name + "' requires user approval and was not executed. "@ + prompt
}

/// What becomes of a tool call: whether it runs, is refused, or waits for the
/// user's answer to a request.
pub enum ApprovalStep {
    /// The tool runs.
    Run,
    /// The tool does not run, for the given reason.
    Refuse(String),
    /// The user is asked.
    Ask(ApprovalRequest),
}

/// Decides on a tool call before the user is asked. `gate_requires` is what the
/// approval policy says of the tool, `prompt` its own question, used where
/// there is nobody to ask.
pub fn resolve_tool_approval(
    tool_name: &str,
    arguments: &Json,
    channel: Option<&str>,
    chat_id: Option<&str>,
    thread: Option<&ThreadKey>,
    hard_floor: &Option<HardFloorRule>,
    gate_requires: bool,
    has_handler: bool,
    prompt: &str,
) -> (r: ApprovalStep)
    ensures
        r is Run <==> hard_floor is None && !gate_requires,
        r is Ask <==> (hard_floor is Some || gate_requires) && has_handler,
        r matches ApprovalStep::Refuse(reason) ==> reason@ == unattended(tool_name@, prompt@),
        r matches ApprovalStep::Ask(request) ==> request@.tool_name == tool_name@
            && request@.arguments == arguments@ && request@.channel == maybe_text(channel)
            && request@.chat_id == maybe_text(chat_id) && request@.user_id == (match thread {
            Some(t) => Some(t@.user),
            None => None,
        }) && request@.agent_id == (match thread {
            Some(t) => Some(t@.agent),
            None => None,
        }) && request@.hard_floor_reason == (match hard_floor.deep_view() {
            Some(rule) => Some(rule.reason),
            None => None,
        }),
{
    if !approval_needed(hard_floor, gate_requires) {
        return ApprovalStep::Run;
    }
    if has_handler {
        return ApprovalStep::Ask(
            approval_request(tool_name, arguments, channel, chat_id, thread, hard_floor),
        );
    }
    let mut s = text("Tool '");
    put(&mut s, tool_name);
    put(&mut s, "' requires user approval and was not executed. ");
    put(&mut s, prompt);
    ApprovalStep::Refuse(s)
}

/// A tool call runs only if the user approved it: any other answer is a refusal.
pub proof fn law_only_approval_runs(
    tool_name: Seq<char>,
    hard_floor: Option<RuleV>,
    answer: AnswerV,
)
    ensures
        refusal(tool_name, hard_floor, answer) is None <==> answer is Approved,
{
}

/// A call runs only where it was approved. A denial is told with its reason, an answer
/// that did not come as such, and under a hard-floor rule with the rule's name.
pub proof fn law_only_approved_calls_run(
    tool: Seq<char>,
    hard_floor: Option<RuleV>,
    answer: AnswerV,
)
    ensures
        refusal(tool, hard_floor, answer) is None <==> answer is Approved,
        answer matches AnswerV::Denied(reason) ==> refusal(tool, hard_floor, answer) == Some(
            "Tool '"@ + tool + "' was denied by user approval. "@ + reason,
        ),
        answer is TimedOut && hard_floor is None ==> refusal(tool, hard_floor, answer) == Some(
            "Tool '"@ + tool + "' approval timed out and was not executed."@,
        ),
        answer is TimedOut ==> (hard_floor matches Some(rule) ==> refusal(tool, hard_floor, answer)
            == Some(
            "Tool '"@ + tool + "' was denied: HardFloor approval ("@ + rule.id + ") timed out."@,
        )),
        unattended(tool, ""@) == "Tool '"@ + tool
            + "' requires user approval and was not executed. "@ + ""@,
{
}

/// A request, a rule, a thread and an answer hold what their models hold.
pub proof fn law_requests_hold_what_is_asked(
    request: ApprovalRequest,
    answer: ApprovalResponse,
    thread: ThreadKey,
)
    ensures
        request@.tool_name == request.tool_name@,
        request@.arguments == request.arguments@,
        request.channel matches Some(c) ==> request@.channel == Some(c@),
        request.channel is None ==> request@.channel is None,
        request.chat_id matches Some(c) ==> request@.chat_id == Some(c@),
        request.chat_id is None ==> request@.chat_id is None,
        request.user_id matches Some(c) ==> request@.user_id == Some(c@),
        request.agent_id matches Some(c) ==> request@.agent_id == Some(c@),
        request.hard_floor_reason matches Some(c) ==> request@.hard_floor_reason == Some(c@),
        request.hard_floor_reason is None ==> request@.hard_floor_reason is None,
        answer@ is Approved <==> answer is Approved,
        answer@ is TimedOut <==> answer is TimedOut,
        answer matches ApprovalResponse::Denied(reason) ==> answer@ == AnswerV::Denied(reason@),
        thread@.user == thread.user@,
        thread@.agent == thread.agent@,
{
}

/// The model of an optional text is the text, where there is one.
pub proof fn law_optional_texts(s: &str)
    ensures
        maybe_text(Some(s)) == Some(s@),
        maybe_text(None) is None,
{
}

} // verus!
