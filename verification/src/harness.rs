//! One turn of the agent as a state machine: model calls, tool rounds, the loop
//! guard, the last call without tools, and the answer.
use vstd::prelude::*;

use crate::agent_loop::{overflow_retry_urgency, retry_urgency, CompactionUrgency};
use crate::format::assistant_message_with_tool_calls;
use crate::intake::{budget_error, budget_error_text};
use crate::json::{
    find_field, get_field, json_of_text, no_fields, object, parse_json, put_field, put_text, Json,
    JsonV,
};
use crate::observations::{ObservationV, ToolObservation};
use crate::providers::{LLMResponse, LLMToolCall, ResponseV};
use crate::session::{text_message, CallV, Message, MessageV, PartV, Role};
use crate::text::{same_text, text, trim};
use crate::tool_helpers::{
    check_loop_guard, check_loop_guard_outcomes, noted_answers, outcome_probes, probes, GuardV,
    LoopGuardAction, OutcomeProbe, ProbeV,
};
use crate::turn::{
    classify_final_content, content_outcome, law_plain_texts_are_answers, OutcomeV, TurnOutcome,
};

verus! {

// ---------------------------------------------------------------------------
// The number of tool calls
// ---------------------------------------------------------------------------
/// How many tool calls a turn may make, and how many it made.
#[derive(Debug, Clone, Copy, PartialEq, Eq, Structural)]
pub struct ToolCallLimit {
    pub limit: Option<u32>,
    pub count: u32,
}

impl ToolCallLimit {
    /// Whether no further call may be made.
    pub open spec fn reached(self) -> bool {
        self.limit matches Some(n) && self.count >= n
    }

    /// How many of `wanted` calls may still be made.
    pub open spec fn allowed(self, wanted: nat) -> nat {
        match self.limit {
            Some(n) => if self.count >= n {
                0
            } else if n - self.count < wanted {
                (n - self.count) as nat
            } else {
                wanted
            },
            None => wanted,
        }
    }

    /// The limit after `n` more calls.
    pub open spec fn after(self, n: nat) -> ToolCallLimit {
        ToolCallLimit {
            count: if self.count + n > u32::MAX {
                u32::MAX
            } else {
                (self.count + n) as u32
            },
            ..self
        }
    }

    /// A limit with no call made.
    pub fn new(limit: Option<u32>) -> (r: Self)
        ensures
            r == (ToolCallLimit { limit, count: 0 }),
    {
        ToolCallLimit { limit, count: 0 }
    }

    /// Whether no further call may be made.
    pub fn is_exceeded(&self) -> (r: bool)
        ensures
            r == self.reached(),
    {
        match self.limit {
            Some(n) => self.count >= n,
            None => false,
        }
    }

    /// How many calls may still be made; none where there is no limit.
    pub fn remaining(&self) -> (r: Option<u32>)
        ensures
            match self.limit {
                Some(n) => r == Some(
                    if self.count >= n {
                        0u32
                    } else {
                        (n - self.count) as u32
                    },
                ),
                None => r is None,
            },
    {
        match self.limit {
            Some(n) => Some(n.saturating_sub(self.count)),
            None => None,
        }
    }

    /// Counts calls that were made.
    pub fn increment(&mut self, n: usize)
        ensures
            *final(self) == old(self).after(n as nat),
    {
        let room: u32 = u32::MAX - self.count;
        if n > room as usize {
            self.count = u32::MAX;
        } else {
            self.count = self.count + n as u32;
        }
    }
}

// ---------------------------------------------------------------------------
// The state of a turn
// ---------------------------------------------------------------------------
/// The settings of a turn.
#[derive(Debug, Clone, Copy, PartialEq, Eq, Structural)]
pub struct TurnLimits {
    pub max_tool_iterations: usize,
    /// How often a model call is made again after the conversation was cut.
    pub overflow_retries: u32,
    /// Whether conversations are cut at all.
    pub compaction: bool,
    pub loop_guard: bool,
    pub final_synthesis_on_empty: bool,
    pub final_synthesis_on_tool_limit: bool,
}

/// What a model call is for.
#[derive(Debug, Clone, Copy, PartialEq, Eq, Structural)]
pub enum ModelCall {
    /// The first call.
    Initial,
    /// The call after a round of tools.
    ToolLoop,
    /// The call without tools once no more tool call may be made.
    LimitSynthesis,
    /// The call without tools that is to give the answer the turn still lacks.
    FinalSynthesis,
    /// The call after a final answer that cannot be shown.
    Reprompt,
}

impl ModelCall {
    /// Whether the model may call tools.
    pub fn with_tools(self) -> (r: bool)
        ensures
            r == !(self is LimitSynthesis || self is FinalSynthesis),
    {
        match self {
            ModelCall::LimitSynthesis => false,
            ModelCall::FinalSynthesis => false,
            _ => true,
        }
    }
}

/// What a turn waits for.
#[derive(Debug, Clone, Copy, PartialEq, Eq, Structural)]
pub enum Stage {
    Calling(ModelCall),
    RunningTools,
    /// The loop guard looks at the calls of a round.
    Guarding,
    /// The loop guard looks at the results of a round.
    GuardingOutcomes,
    Over,
}

/// One turn.
pub struct Harness {
    limits: TurnLimits,
    tool_limit: ToolCallLimit,
    stage: Stage,
    iteration: usize,
    attempt: u32,
    tool_calls_total: u64,
    budget_exceeded: bool,
    response: LLMResponse,
    results: Vec<(String, String)>,
    session: Vec<Message>,
}

/// The model of a [`Harness`].
#[verifier::ext_equal]
pub struct HarnessV {
    pub limits: TurnLimits,
    pub tool_limit: ToolCallLimit,
    pub stage: Stage,
    /// How many rounds of tools there were.
    pub iteration: usize,
    /// How often the model call was made again.
    pub attempt: u32,
    /// How many tool calls were handed out.
    pub tool_calls_total: u64,
    /// Whether the tokens of the turn are used up.
    pub budget_exceeded: bool,
    /// The last answer of the model.
    pub response: ResponseV,
    /// The results of the last round: identifiers and texts.
    pub results: Seq<(Seq<char>, Seq<char>)>,
    pub session: Seq<MessageV>,
}

impl View for Harness {
    type V = HarnessV;

    closed spec fn view(&self) -> HarnessV {
        HarnessV {
            limits: self.limits,
            tool_limit: self.tool_limit,
            stage: self.stage,
            iteration: self.iteration,
            attempt: self.attempt,
            tool_calls_total: self.tool_calls_total,
            budget_exceeded: self.budget_exceeded,
            response: self.response.deep_view(),
            results: self.results.deep_view(),
            session: self.session.deep_view(),
        }
    }
}

/// What a turn is told.
#[derive(Debug)]
pub enum TurnEvent {
    /// The tokens were used up before the first model call.
    BudgetSpent(String),
    /// The answer to the first model call is known from an earlier turn. A text that
    /// cannot be shown is no hit.
    CacheHit(String),
    /// The model answered.
    Answered(LLMResponse),
    /// The model call failed; `overflow` where the conversation was too long.
    CallFailed { overflow: bool, error: String },
    /// A round of tools is done.
    ToolsRan { observations: Vec<ToolObservation>, budget_exceeded: bool },
    /// What the loop guard says to the calls of a round.
    GuardSaid(LoopGuardAction),
    /// What the loop guard says to the results of a round.
    OutcomesSaid(Vec<Option<LoopGuardAction>>),
}

/// The model of a [`TurnEvent`].
pub enum EventV {
    BudgetSpent(Seq<char>),
    CacheHit(Seq<char>),
    Answered(ResponseV),
    CallFailed(bool, Seq<char>),
    ToolsRan(Seq<ObservationV>, bool),
    GuardSaid(GuardV),
    OutcomesSaid(Seq<Option<GuardV>>),
}

impl View for TurnEvent {
    type V = EventV;

    open spec fn view(&self) -> EventV {
        match self {
            TurnEvent::BudgetSpent(summary) => EventV::BudgetSpent(summary@),
            TurnEvent::CacheHit(content) => EventV::CacheHit(content@),
            TurnEvent::Answered(r) => EventV::Answered(r.deep_view()),
            TurnEvent::CallFailed { overflow, error } => EventV::CallFailed(*overflow, error@),
            TurnEvent::ToolsRan { observations, budget_exceeded } => EventV::ToolsRan(
                observations.deep_view(),
                *budget_exceeded,
            ),
            TurnEvent::GuardSaid(a) => EventV::GuardSaid(a.deep_view()),
            TurnEvent::OutcomesSaid(a) => EventV::OutcomesSaid(a.deep_view()),
        }
    }
}

/// What has to be done for a turn.
#[derive(Debug)]
pub enum TurnAction {
    /// Call the model.
    CallModel(ModelCall),
    /// Cut the conversation down, to the last messages first, and call the model
    /// again.
    CutAndRetry { urgency: CompactionUrgency, keep_recent: usize, call: ModelCall },
    /// Run the tool calls of the last answer.
    RunTools,
    /// Ask the loop guard about the calls of the round.
    AskGuard,
    /// Ask the loop guard about the results of the round.
    AskOutcomes(Vec<OutcomeProbe>),
    /// Deliver the answer, which stands at the end of the conversation. `implicit`
    /// tells that the model ended the turn with plain text.
    Finish { content: String, implicit: bool },
    /// Report the error.
    Fail(String),
    /// Nothing: the turn waits for something else.
    Nothing,
}

/// The model of a [`TurnAction`].
pub enum ActionV {
    CallModel(ModelCall),
    CutAndRetry(CompactionUrgency, usize, ModelCall),
    RunTools,
    AskGuard,
    AskOutcomes(Seq<ProbeV>),
    Finish(Seq<char>, bool),
    Fail(Seq<char>),
    Nothing,
}

impl View for TurnAction {
    type V = ActionV;

    open spec fn view(&self) -> ActionV {
        match self {
            TurnAction::CallModel(c) => ActionV::CallModel(*c),
            TurnAction::CutAndRetry { urgency, keep_recent, call } => ActionV::CutAndRetry(
                *urgency,
                *keep_recent,
                *call,
            ),
            TurnAction::RunTools => ActionV::RunTools,
            TurnAction::AskGuard => ActionV::AskGuard,
            TurnAction::AskOutcomes(p) => ActionV::AskOutcomes(p.deep_view()),
            TurnAction::Finish { content, implicit } => ActionV::Finish(content@, *implicit),
            TurnAction::Fail(e) => ActionV::Fail(e@),
            TurnAction::Nothing => ActionV::Nothing,
        }
    }
}

// ---------------------------------------------------------------------------
// The final answer as a tool call
// ---------------------------------------------------------------------------
/// The tool by which the model ends a turn.
pub const FINAL_ANSWER_TOOL_NAME: &'static str = "final_answer";

/// What the user reads when the turn has no answer that can be shown.
pub const FALLBACK_ANSWER: &'static str =
    "Sorry, I could not produce a displayable final answer for this request. Please try again or narrow the task.";

/// What the model is told after a final answer that cannot be shown.
pub const FINAL_ANSWER_REPROMPT: &'static str =
    "The final answer was empty or held only tool markup. Call final_answer once more with a readable answer for the user.";

/// The first call that ends the turn, from `from` on.
pub open spec fn final_call(calls: Seq<CallV>, from: int) -> Option<CallV>
    decreases calls.len() - from,
{
    if from < 0 || from >= calls.len() {
        None
    } else if calls[from].name == FINAL_ANSWER_TOOL_NAME@ {
        Some(calls[from])
    } else {
        final_call(calls, from + 1)
    }
}

/// A text field of arguments; the default where there is none.
pub open spec fn text_field(arguments: Seq<char>, name: Seq<char>, default: Seq<char>) -> Seq<
    char,
> {
    match json_of_text(arguments) {
        Ok(JsonV::Object(fields)) => match get_field(fields, name) {
            Some(JsonV::Text(t)) => t,
            _ => default,
        },
        _ => default,
    }
}

fn field_text(arguments: &str, name: &str, default: &str) -> (r: String)
    ensures
        r@ == text_field(arguments@, name@, default@),
{
    let value = match parse_json(arguments) {
        Ok(v) => v,
        Err(_) => {
            return text(default);
        },
    };
    if let Json::Object(fields) = &value {
        proof {
            crate::json::lemma_object_view(*fields);
        }
        if let Some(Json::Text(t)) = find_field(fields, name) {
            return t.clone();
        }
    }
    text(default)
}

/// The answer that a call holds.
pub open spec fn answer_of(call: CallV) -> Seq<char> {
    text_field(call.arguments, "content"@, ""@)
}

/// What the model says of its answer, such as that it is complete.
pub open spec fn status_of(call: CallV) -> Seq<char> {
    text_field(call.arguments, "status"@, "complete"@)
}

fn find_final_call(calls: &Vec<LLMToolCall>) -> (r: Option<&LLMToolCall>)
    ensures
        match r {
            Some(c) => final_call(calls.deep_view(), 0) == Some(c.deep_view()),
            None => final_call(calls.deep_view(), 0) is None,
        },
{
    let ghost all = calls.deep_view();
    let mut i: usize = 0;
    while i < calls.len()
        invariant
            i <= calls@.len(),
            all == calls.deep_view(),
            final_call(all, 0) == final_call(all, i as int),
        decreases calls@.len() - i,
    {
        proof {
            assert(all[i as int] == calls@[i as int].deep_view());
        }
        if same_text(calls[i].name.as_str(), FINAL_ANSWER_TOOL_NAME) {
            return Some(&calls[i]);
        }
        i = i + 1;
    }
    None
}

// ---------------------------------------------------------------------------
// Transitions
// ---------------------------------------------------------------------------
/// Why the turn has no answer that can be shown.
pub open spec fn fallback_reason(outcome: OutcomeV) -> Seq<char> {
    if outcome is ProviderMarkupOnly {
        "synthesis_markup"@
    } else {
        "synthesis_empty"@
    }
}

/// Metadata with one text.
pub open spec fn one_text(name: Seq<char>, value: Seq<char>) -> JsonV {
    JsonV::Object(Seq::empty().push((name, JsonV::Text(value))))
}

/// Messages with the results of tools behind them.
pub open spec fn with_results(session: Seq<MessageV>, obs: Seq<ObservationV>) -> Seq<MessageV> {
    session + obs.map_values(
        |o: ObservationV|
            MessageV {
                tool_call_id: Some(o.call_id),
                ..text_message(Role::Tool, o.content)
            },
    )
}

/// Whether a tool asks to wait for the user.
pub open spec fn asks_to_pause(obs: Seq<ObservationV>) -> bool {
    exists|i: int| 0 <= i < obs.len() && (#[trigger] obs[i]).pause_for_input
}

impl HarnessV {
    /// A turn before its first model call.
    pub open spec fn initial(
        limits: TurnLimits,
        max_tool_calls: Option<u32>,
        session: Seq<MessageV>,
    ) -> HarnessV {
        HarnessV {
            limits,
            tool_limit: ToolCallLimit { limit: max_tool_calls, count: 0 },
            stage: Stage::Calling(ModelCall::Initial),
            iteration: 0,
            attempt: 0,
            tool_calls_total: 0,
            budget_exceeded: false,
            response: ResponseV { content: ""@, tool_calls: seq![], usage: None },
            results: seq![],
            session,
        }
    }

    /// Whether the rounds ended while the model still asked for tools.
    pub open spec fn max_iterations_reached(self) -> bool {
        self.iteration >= self.limits.max_tool_iterations && self.response.tool_calls.len() > 0
    }

    /// Calls the model.
    pub open spec fn call(self, call: ModelCall) -> (HarnessV, ActionV) {
        (
            HarnessV { stage: Stage::Calling(call), attempt: 0, ..self },
            ActionV::CallModel(call),
        )
    }

    /// Ends the turn with an answer.
    pub open spec fn deliver(self, content: Seq<char>, metadata: JsonV, implicit: bool) -> (
        HarnessV,
        ActionV,
    ) {
        (
            HarnessV {
                stage: Stage::Over,
                session: self.session.push(
                    MessageV { metadata, ..text_message(Role::Assistant, content) },
                ),
                ..self
            },
            ActionV::Finish(content, implicit),
        )
    }

    /// What is kept of a turn that has no answer that can be shown.
    pub open spec fn fallback_metadata(self, reason: Seq<char>) -> JsonV {
        JsonV::Object(
            Seq::empty().push(("fallback_reason"@, JsonV::Text(reason))).push(
                ("harness_fallback"@, JsonV::Text("phase0"@)),
            ).push(("iterations"@, JsonV::Unsigned(self.iteration as u64))).push(
                ("tool_calls_total"@, JsonV::Unsigned(self.tool_calls_total)),
            ).push(
                (
                    "tool_limit_hit"@,
                    JsonV::Bool(self.max_iterations_reached() || self.tool_limit.reached()),
                ),
            ),
        )
    }

    /// Ends the turn without an answer of the model.
    pub open spec fn fall_back(self, outcome: OutcomeV) -> (HarnessV, ActionV) {
        self.deliver(
            FALLBACK_ANSWER@,
            self.fallback_metadata(fallback_reason(outcome)),
            false,
        )
    }

    /// Ends the turn with what the last text amounts to.
    pub open spec fn settle(self, outcome: OutcomeV) -> (HarnessV, ActionV) {
        match outcome {
            OutcomeV::FinalAnswer(t) => self.deliver(t, JsonV::Object(Seq::empty()), true),
            _ => self.fall_back(outcome),
        }
    }

    /// Whether the turn needs one more call without tools.
    pub open spec fn needs_synthesis(self) -> bool {
        ||| self.limits.final_synthesis_on_tool_limit && self.max_iterations_reached()
        ||| self.limits.final_synthesis_on_empty && !(content_outcome(
            self.response.content,
        ) is FinalAnswer)
    }

    /// Leaves the rounds of tools.
    pub open spec fn conclude(self) -> (HarnessV, ActionV) {
        if self.needs_synthesis() {
            self.call(ModelCall::FinalSynthesis)
        } else {
            self.settle(content_outcome(self.response.content))
        }
    }

    /// The turn with another text as the model's last one.
    pub open spec fn saying(self, content: Seq<char>) -> HarnessV {
        HarnessV { response: ResponseV { content, ..self.response }, ..self }
    }

    /// Starts a round of tools, with as many calls as may still be made.
    pub open spec fn start_round(self) -> (HarnessV, ActionV) {
        let t = HarnessV { iteration: (self.iteration + 1) as usize, ..self };
        if t.tool_limit.reached() {
            t.conclude()
        } else {
            let n = t.tool_limit.allowed(t.response.tool_calls.len());
            let calls = t.response.tool_calls.take(n as int);
            (
                HarnessV {
                    stage: Stage::RunningTools,
                    tool_calls_total: if t.tool_calls_total + n > u64::MAX {
                        u64::MAX
                    } else {
                        (t.tool_calls_total + n) as u64
                    },
                    response: ResponseV { tool_calls: calls, ..t.response },
                    session: t.session.push(
                        MessageV {
                            tool_calls: Some(calls),
                            ..text_message(Role::Assistant, ""@)
                        },
                    ),
                    ..t
                },
                ActionV::RunTools,
            )
        }
    }

    /// Acts on an answer that may call tools.
    pub open spec fn dispatch(self) -> (HarnessV, ActionV) {
        match final_call(self.response.tool_calls, 0) {
            Some(call) => if content_outcome(answer_of(call)) is FinalAnswer {
                self.deliver(
                    answer_of(call),
                    one_text("final_answer_status"@, status_of(call)),
                    false,
                )
            } else {
                self.call(ModelCall::Reprompt)
            },
            None => if self.response.tool_calls.len() > 0 && self.iteration
                < self.limits.max_tool_iterations {
                self.start_round()
            } else {
                self.conclude()
            },
        }
    }

    /// Acts on the answer to a second request for a final answer.
    pub open spec fn settle_reprompt(self, response: ResponseV) -> (HarnessV, ActionV) {
        match final_call(response.tool_calls, 0) {
            Some(call) => if content_outcome(answer_of(call)) is FinalAnswer {
                self.deliver(
                    answer_of(call),
                    one_text("final_answer_status"@, status_of(call)),
                    false,
                )
            } else {
                self.fall_back(content_outcome(answer_of(call)))
            },
            None => self.settle(content_outcome(response.content)),
        }
    }

    /// Acts on an answer of the model.
    pub open spec fn answered(self, response: ResponseV) -> (HarnessV, ActionV) {
        match self.stage {
            Stage::Calling(ModelCall::Initial) | Stage::Calling(
                ModelCall::ToolLoop,
            ) => (HarnessV { response, ..self }).dispatch(),
            Stage::Calling(ModelCall::LimitSynthesis) => (HarnessV {
                response,
                ..self
            }).conclude(),
            Stage::Calling(ModelCall::FinalSynthesis) => self.settle(
                content_outcome(response.content),
            ),
            Stage::Calling(ModelCall::Reprompt) => self.settle_reprompt(response),
            _ => (self, ActionV::Nothing),
        }
    }

    /// Acts on a model call that failed.
    pub open spec fn failed(self, overflow: bool, error: Seq<char>) -> (HarnessV, ActionV) {
        match self.stage {
            Stage::Calling(ModelCall::FinalSynthesis) => self.settle(
                content_outcome(self.response.content),
            ),
            Stage::Calling(ModelCall::Reprompt) => self.fall_back(
                match final_call(self.response.tool_calls, 0) {
                    Some(call) => content_outcome(answer_of(call)),
                    None => OutcomeV::EmptyAnswer,
                },
            ),
            Stage::Calling(call) => if overflow && self.limits.compaction && self.attempt
                < self.limits.overflow_retries {
                (
                    HarnessV { attempt: (self.attempt + 1) as u32, ..self },
                    ActionV::CutAndRetry(
                        retry_urgency(self.attempt),
                        if call is LimitSynthesis {
                            5
                        } else {
                            8
                        },
                        call,
                    ),
                )
            } else {
                (HarnessV { stage: Stage::Over, ..self }, ActionV::Fail(error))
            },
            _ => (self, ActionV::Nothing),
        }
    }

    /// Goes on after a round of tools.
    pub open spec fn go_on(self) -> (HarnessV, ActionV) {
        if self.budget_exceeded {
            self.conclude()
        } else {
            self.call(ModelCall::ToolLoop)
        }
    }

    /// Acts on the results of a round of tools.
    pub open spec fn tools_ran(self, obs: Seq<ObservationV>, budget_exceeded: bool) -> (
        HarnessV,
        ActionV,
    ) {
        let t = HarnessV {
            session: with_results(self.session, obs),
            results: obs.map_values(|o: ObservationV| (o.call_id, o.content)),
            budget_exceeded,
            ..self
        };
        if asks_to_pause(obs) {
            t.conclude()
        } else {
            let u = HarnessV {
                tool_limit: t.tool_limit.after(t.response.tool_calls.len()),
                ..t
            };
            if u.tool_limit.reached() {
                if budget_exceeded {
                    u.saying("Tool call limit reached. Token budget exceeded."@).conclude()
                } else {
                    u.call(ModelCall::LimitSynthesis)
                }
            } else if u.limits.loop_guard {
                (HarnessV { stage: Stage::Guarding, ..u }, ActionV::AskGuard)
            } else {
                u.go_on()
            }
        }
    }

    /// Acts on what the loop guard says to the calls of a round.
    pub open spec fn guarded(self, guard: GuardV) -> (HarnessV, ActionV) {
        let t = HarnessV { session: guard.noted(self.session), ..self };
        if guard.stops() {
            t.saying("Stopped tool loop due to repeated tool-call pattern."@).conclude()
        } else {
            (
                HarnessV { stage: Stage::GuardingOutcomes, ..t },
                ActionV::AskOutcomes(probes(t.response.tool_calls, t.results)),
            )
        }
    }

    /// Acts on what the loop guard says to the results of a round.
    pub open spec fn outcomes_guarded(self, answers: Seq<Option<GuardV>>) -> (HarnessV, ActionV) {
        let (session, stops) = noted_answers(answers, 0, self.session);
        let t = HarnessV { session, ..self };
        if stops {
            t.saying("Stopped tool loop due to repeated identical outcomes."@).conclude()
        } else {
            t.go_on()
        }
    }

    /// Whether the first model call is still to be made.
    pub open spec fn is_fresh(self) -> bool {
        self.stage == Stage::Calling(ModelCall::Initial) && self.attempt == 0
    }

    /// The turn after an event, and what has to be done.
    pub open spec fn after(self, event: EventV) -> (HarnessV, ActionV) {
        match event {
            EventV::BudgetSpent(summary) => if self.is_fresh() {
                (
                    HarnessV { stage: Stage::Over, ..self },
                    ActionV::Fail(budget_error(summary)),
                )
            } else {
                (self, ActionV::Nothing)
            },
            EventV::CacheHit(content) => if self.is_fresh() && content_outcome(
                content,
            ) is FinalAnswer {
                self.deliver(content, JsonV::Object(Seq::empty()), true)
            } else {
                (self, ActionV::Nothing)
            },
            EventV::Answered(response) => self.answered(response),
            EventV::CallFailed(overflow, error) => self.failed(overflow, error),
            EventV::ToolsRan(obs, budget_exceeded) => if self.stage is RunningTools {
                self.tools_ran(obs, budget_exceeded)
            } else {
                (self, ActionV::Nothing)
            },
            EventV::GuardSaid(guard) => if self.stage is Guarding {
                self.guarded(guard)
            } else {
                (self, ActionV::Nothing)
            },
            EventV::OutcomesSaid(answers) => if self.stage is GuardingOutcomes {
                self.outcomes_guarded(answers)
            } else {
                (self, ActionV::Nothing)
            },
        }
    }
}

fn push_results(session: &mut Vec<Message>, observations: &Vec<ToolObservation>)
    ensures
        final(session).deep_view() == with_results(
            old(session).deep_view(),
            observations.deep_view(),
        ),
{
    let ghost obs = observations.deep_view();
    let ghost start = session.deep_view();
    let mut i: usize = 0;
    proof {
        assert(with_results(start, obs.take(0)) =~= start);
    }
    while i < observations.len()
        invariant
            i <= observations@.len(),
            obs == observations.deep_view(),
            session.deep_view() == with_results(start, obs.take(i as int)),
        decreases observations@.len() - i,
    {
        let ghost before = session.deep_view();
        let o = &observations[i];
        let m = Message::tool_result(o.call_id.as_str(), o.content.as_str());
        session.push(m);
        proof {
            assert(session.deep_view() =~= before.push(m.deep_view()));
            assert(obs[i as int] == observations@[i as int].deep_view());
            assert(with_results(start, obs.take(i + 1)) =~= before.push(m.deep_view()));
        }
        i = i + 1;
    }
    proof {
        assert(obs.take(observations@.len() as int) =~= obs);
    }
}

fn result_texts(observations: &Vec<ToolObservation>) -> (r: Vec<(String, String)>)
    ensures
        r.deep_view() == observations.deep_view().map_values(
            |o: ObservationV| (o.call_id, o.content),
        ),
{
    let ghost all = observations.deep_view().map_values(
        |o: ObservationV| (o.call_id, o.content),
    );
    let mut out: Vec<(String, String)> = Vec::new();
    let mut i: usize = 0;
    while i < observations.len()
        invariant
            i <= observations@.len(),
            all == observations.deep_view().map_values(|o: ObservationV| (o.call_id, o.content)),
            out.deep_view() == all.take(i as int),
        decreases observations@.len() - i,
    {
        let ghost before = out.deep_view();
        out.push((observations[i].call_id.clone(), observations[i].content.clone()));
        proof {
            assert(out.deep_view() =~= before.push(all[i as int]));
            assert(all.take(i + 1) =~= all.take(i as int).push(all[i as int]));
        }
        i = i + 1;
    }
    proof {
        assert(all.take(observations@.len() as int) =~= all);
    }
    out
}

fn any_pause(observations: &Vec<ToolObservation>) -> (r: bool)
    ensures
        r == asks_to_pause(observations.deep_view()),
{
    let ghost obs = observations.deep_view();
    let mut i: usize = 0;
    while i < observations.len()
        invariant
            i <= observations@.len(),
            obs == observations.deep_view(),
            forall|j: int| 0 <= j < i ==> !(#[trigger] obs[j]).pause_for_input,
        decreases observations@.len() - i,
    {
        proof {
            assert(obs[i as int] == observations@[i as int].deep_view());
        }
        if observations[i].pause_for_input {
            return true;
        }
        i = i + 1;
    }
    false
}

impl Harness {
    /// A turn before its first model call, in a conversation that holds the user's
    /// message already.
    pub fn new(limits: TurnLimits, max_tool_calls: Option<u32>, session: Vec<Message>) -> (r: Self)
        ensures
            r@ == HarnessV::initial(limits, max_tool_calls, session.deep_view()),
    {
        let r = Harness {
            limits,
            tool_limit: ToolCallLimit::new(max_tool_calls),
            stage: Stage::Calling(ModelCall::Initial),
            iteration: 0,
            attempt: 0,
            tool_calls_total: 0,
            budget_exceeded: false,
            response: LLMResponse::text(""),
            results: Vec::new(),
            session,
        };
        proof {
            assert(r@ =~= HarnessV::initial(limits, max_tool_calls, session.deep_view()));
        }
        r
    }

    /// The conversation.
    pub fn session(&self) -> (r: &Vec<Message>)
        ensures
            r.deep_view() == self@.session,
    {
        &self.session
    }

    /// Puts another conversation in place of the one there is, such as one that was
    /// cut.
    pub fn replace_session(&mut self, session: Vec<Message>)
        ensures
            final(self)@ == (HarnessV { session: session.deep_view(), ..old(self)@ }),
    {
        self.session = session;
    }

    /// The tool calls of the last answer.
    pub fn tool_calls(&self) -> (r: &Vec<LLMToolCall>)
        ensures
            r.deep_view() == self@.response.tool_calls,
    {
        &self.response.tool_calls
    }

    /// How many rounds of tools there were.
    pub fn iteration(&self) -> (r: usize)
        ensures
            r == self@.iteration,
    {
        self.iteration
    }

    /// What the turn waits for.
    pub fn stage(&self) -> (r: Stage)
        ensures
            r == self@.stage,
    {
        self.stage
    }

    fn call(&mut self, call: ModelCall) -> (r: TurnAction)
        ensures
            (final(self)@, r@) == old(self)@.call(call),
    {
        self.stage = Stage::Calling(call);
        self.attempt = 0;
        TurnAction::CallModel(call)
    }

    fn deliver(&mut self, content: String, metadata: Json, implicit: bool) -> (r: TurnAction)
        ensures
            (final(self)@, r@) == old(self)@.deliver(content@, metadata@, implicit),
    {
        self.stage = Stage::Over;
        let ghost before = self.session.deep_view();
        let answer = Message::assistant(content.as_str()).with_metadata(metadata);
        self.session.push(answer);
        proof {
            assert(self@.session =~= before.push(answer.deep_view()));
        }
        TurnAction::Finish { content, implicit }
    }

    fn max_iterations_reached(&self) -> (r: bool)
        ensures
            r == self@.max_iterations_reached(),
    {
        self.iteration >= self.limits.max_tool_iterations && self.response.has_tool_calls()
    }

    fn fall_back(&mut self, markup: bool) -> (r: TurnAction)
        ensures
            (final(self)@, r@) == old(self)@.fall_back(
                if markup {
                    OutcomeV::ProviderMarkupOnly
                } else {
                    OutcomeV::EmptyAnswer
                },
            ),
    {
        let reason = if markup {
            "synthesis_markup"
        } else {
            "synthesis_empty"
        };
        let mut fields = no_fields();
        put_text(&mut fields, "fallback_reason", reason);
        put_text(&mut fields, "harness_fallback", "phase0");
        put_field(&mut fields, "iterations", Json::Unsigned(self.iteration as u64));
        put_field(&mut fields, "tool_calls_total", Json::Unsigned(self.tool_calls_total));
        let hit = self.max_iterations_reached() || self.tool_limit.is_exceeded();
        put_field(&mut fields, "tool_limit_hit", Json::Bool(hit));
        self.deliver(text(FALLBACK_ANSWER), object(fields), false)
    }

    fn settle(&mut self, outcome: TurnOutcome) -> (r: TurnAction)
        requires
            !(outcome is ToolCalls),
        ensures
            (final(self)@, r@) == old(self)@.settle(outcome.deep_view()),
    {
        match outcome {
            TurnOutcome::FinalAnswer(content) => self.deliver(content, object(no_fields()), true),
            TurnOutcome::ProviderMarkupOnly => self.fall_back(true),
            _ => self.fall_back(false),
        }
    }

    fn conclude(&mut self) -> (r: TurnAction)
        ensures
            (final(self)@, r@) == old(self)@.conclude(),
    {
        let outcome = classify_final_content(self.response.content.as_str());
        let usable = matches!(outcome, TurnOutcome::FinalAnswer(_));
        let synthesis = (self.limits.final_synthesis_on_tool_limit
            && self.max_iterations_reached()) || (self.limits.final_synthesis_on_empty && !usable);
        if synthesis {
            return self.call(ModelCall::FinalSynthesis);
        }
        self.settle(outcome)
    }

    fn stop_saying(&mut self, content: &str) -> (r: TurnAction)
        ensures
            (final(self)@, r@) == old(self)@.saying(content@).conclude(),
    {
        self.response.content = text(content);
        proof {
            assert(self@ =~= old(self)@.saying(content@));
        }
        self.conclude()
    }

    fn start_round(&mut self) -> (r: TurnAction)
        requires
            old(self)@.iteration < old(self)@.limits.max_tool_iterations,
        ensures
            (final(self)@, r@) == old(self)@.start_round(),
    {
        self.iteration = self.iteration + 1;
        if self.tool_limit.is_exceeded() {
            return self.conclude();
        }
        let ghost wanted = self.response.tool_calls.deep_view();
        let ghost n = self.tool_limit.allowed(wanted.len());
        if let Some(left) = self.tool_limit.remaining() {
            if (left as usize) < self.response.tool_calls.len() {
                self.response.tool_calls.truncate(left as usize);
            }
        }
        proof {
            assert(self.response.tool_calls.deep_view() =~= wanted.take(n as int));
        }
        self.tool_calls_total =
        self.tool_calls_total.saturating_add(self.response.tool_calls.len() as u64);
        let ghost before = self.session.deep_view();
        let m = assistant_message_with_tool_calls(&self.response.tool_calls);
        self.session.push(m);
        proof {
            assert(self@.session =~= before.push(m.deep_view()));
        }
        self.stage = Stage::RunningTools;
        TurnAction::RunTools
    }

    fn dispatch(&mut self) -> (r: TurnAction)
        ensures
            (final(self)@, r@) == old(self)@.dispatch(),
    {
        let last = match find_final_call(&self.response.tool_calls) {
            Some(call) => Some(
                (
                    field_text(call.arguments.as_str(), "content", ""),
                    field_text(call.arguments.as_str(), "status", "complete"),
                ),
            ),
            None => None,
        };
        match last {
            Some((content, status)) => self.deliver_final(content, status),
            None => if self.response.has_tool_calls() && self.iteration
                < self.limits.max_tool_iterations {
                self.start_round()
            } else {
                self.conclude()
            },
        }
    }

    fn deliver_final(&mut self, content: String, status: String) -> (r: TurnAction)
        ensures
            (final(self)@, r@) == (if content_outcome(content@) is FinalAnswer {
                old(self)@.deliver(
                    content@,
                    one_text("final_answer_status"@, status@),
                    false,
                )
            } else {
                old(self)@.call(ModelCall::Reprompt)
            }),
    {
        if let TurnOutcome::FinalAnswer(_) = classify_final_content(content.as_str()) {
            let mut fields = no_fields();
            put_text(&mut fields, "final_answer_status", status.as_str());
            return self.deliver(content, object(fields), false);
        }
        self.call(ModelCall::Reprompt)
    }

    fn settle_reprompt(&mut self, response: &LLMResponse) -> (r: TurnAction)
        ensures
            (final(self)@, r@) == old(self)@.settle_reprompt(response.deep_view()),
    {
        match find_final_call(&response.tool_calls) {
            Some(call) => {
                let content = field_text(call.arguments.as_str(), "content", "");
                let status = field_text(call.arguments.as_str(), "status", "complete");
                match classify_final_content(content.as_str()) {
                    TurnOutcome::FinalAnswer(_) => {
                        let mut fields = no_fields();
                        put_text(&mut fields, "final_answer_status", status.as_str());
                        self.deliver(content, object(fields), false)
                    },
                    TurnOutcome::ProviderMarkupOnly => self.fall_back(true),
                    _ => self.fall_back(false),
                }
            },
            None => self.settle(classify_final_content(response.content.as_str())),
        }
    }

    fn answered(&mut self, response: LLMResponse) -> (r: TurnAction)
        ensures
            (final(self)@, r@) == old(self)@.answered(response.deep_view()),
    {
        match self.stage {
            Stage::Calling(ModelCall::Initial) | Stage::Calling(ModelCall::ToolLoop) => {
                self.response = response;
                self.dispatch()
            },
            Stage::Calling(ModelCall::LimitSynthesis) => {
                self.response = response;
                self.conclude()
            },
            Stage::Calling(ModelCall::FinalSynthesis) => self.settle(
                classify_final_content(response.content.as_str()),
            ),
            Stage::Calling(ModelCall::Reprompt) => self.settle_reprompt(&response),
            _ => TurnAction::Nothing,
        }
    }

    fn failed(&mut self, overflow: bool, error: String) -> (r: TurnAction)
        ensures
            (final(self)@, r@) == old(self)@.failed(overflow, error@),
    {
        match self.stage {
            Stage::Calling(ModelCall::FinalSynthesis) => {
                let outcome = classify_final_content(self.response.content.as_str());
                self.settle(outcome)
            },
            Stage::Calling(ModelCall::Reprompt) => {
                let markup = match find_final_call(&self.response.tool_calls) {
                    Some(call) => {
                        let content = field_text(call.arguments.as_str(), "content", "");
                        matches!(
                            classify_final_content(content.as_str()),
                            TurnOutcome::ProviderMarkupOnly
                        )
                    },
                    None => false,
                };
                self.fall_back(markup)
            },
            Stage::Calling(call) => if overflow && self.limits.compaction && self.attempt
                < self.limits.overflow_retries {
                let urgency = overflow_retry_urgency(self.attempt);
                self.attempt = self.attempt + 1;
                let keep_recent: usize = match call {
                    ModelCall::LimitSynthesis => 5,
                    _ => 8,
                };
                TurnAction::CutAndRetry { urgency, keep_recent, call }
            } else {
                self.stage = Stage::Over;
                TurnAction::Fail(error)
            },
            _ => TurnAction::Nothing,
        }
    }

    fn go_on(&mut self) -> (r: TurnAction)
        ensures
            (final(self)@, r@) == old(self)@.go_on(),
    {
        if self.budget_exceeded {
            self.conclude()
        } else {
            self.call(ModelCall::ToolLoop)
        }
    }

    fn tools_ran(&mut self, observations: Vec<ToolObservation>, budget_exceeded: bool) -> (r:
        TurnAction)
        ensures
            (final(self)@, r@) == old(self)@.tools_ran(observations.deep_view(), budget_exceeded),
    {
        push_results(&mut self.session, &observations);
        self.results = result_texts(&observations);
        self.budget_exceeded = budget_exceeded;
        if any_pause(&observations) {
            return self.conclude();
        }
        self.tool_limit.increment(self.response.tool_calls.len());
        if self.tool_limit.is_exceeded() {
            if budget_exceeded {
                return self.stop_saying("Tool call limit reached. Token budget exceeded.");
            }
            return self.call(ModelCall::LimitSynthesis);
        }
        if self.limits.loop_guard {
            self.stage = Stage::Guarding;
            return TurnAction::AskGuard;
        }
        self.go_on()
    }

    fn guarded(&mut self, guard: &LoopGuardAction) -> (r: TurnAction)
        ensures
            (final(self)@, r@) == old(self)@.guarded(guard.deep_view()),
    {
        if check_loop_guard(guard, &mut self.session) {
            return self.stop_saying("Stopped tool loop due to repeated tool-call pattern.");
        }
        self.stage = Stage::GuardingOutcomes;
        TurnAction::AskOutcomes(outcome_probes(&self.response.tool_calls, &self.results))
    }

    fn outcomes_guarded(&mut self, answers: &Vec<Option<LoopGuardAction>>) -> (r: TurnAction)
        ensures
            (final(self)@, r@) == old(self)@.outcomes_guarded(answers.deep_view()),
    {
        if check_loop_guard_outcomes(answers, &mut self.session) {
            return self.stop_saying("Stopped tool loop due to repeated identical outcomes.");
        }
        self.go_on()
    }

    fn is_fresh(&self) -> (r: bool)
        ensures
            r == self@.is_fresh(),
    {
        matches!(self.stage, Stage::Calling(ModelCall::Initial)) && self.attempt == 0
    }

    /// Tells the turn what happened; what has to be done next.
    pub fn step(&mut self, event: TurnEvent) -> (r: TurnAction)
        ensures
            (final(self)@, r@) == old(self)@.after(event@),
    {
        match event {
            TurnEvent::BudgetSpent(summary) => if self.is_fresh() {
                self.stage = Stage::Over;
                TurnAction::Fail(budget_error_text(summary.as_str()))
            } else {
                TurnAction::Nothing
            },
            TurnEvent::CacheHit(content) => if self.is_fresh() && matches!(
                classify_final_content(content.as_str()),
                TurnOutcome::FinalAnswer(_)
            ) {
                self.deliver(content, object(no_fields()), true)
            } else {
                TurnAction::Nothing
            },
            TurnEvent::Answered(response) => self.answered(response),
            TurnEvent::CallFailed { overflow, error } => self.failed(overflow, error),
            TurnEvent::ToolsRan { observations, budget_exceeded } => match self.stage {
                Stage::RunningTools => self.tools_ran(observations, budget_exceeded),
                _ => TurnAction::Nothing,
            },
            TurnEvent::GuardSaid(guard) => match self.stage {
                Stage::Guarding => self.guarded(&guard),
                _ => TurnAction::Nothing,
            },
            TurnEvent::OutcomesSaid(answers) => match self.stage {
                Stage::GuardingOutcomes => self.outcomes_guarded(&answers),
                _ => TurnAction::Nothing,
            },
        }
    }
}

// ---------------------------------------------------------------------------
// Laws
// ---------------------------------------------------------------------------
impl HarnessV {
    /// The limits of a turn are kept.
    pub open spec fn within_limits(self) -> bool {
        &&& self.iteration <= self.limits.max_tool_iterations
        &&& self.attempt <= self.limits.overflow_retries
        &&& self.tool_limit.limit matches Some(n) ==> self.tool_limit.count <= n
        &&& self.stage is RunningTools ==> !self.tool_limit.reached()
            && self.tool_limit.allowed(self.response.tool_calls.len())
            == self.response.tool_calls.len()
    }

    /// How far a turn is from its end: the rounds that are left, the steps that are
    /// left in the round, and the calls that may be made again.
    pub open spec fn distance(self) -> (int, int, int) {
        (
            self.limits.max_tool_iterations - self.iteration,
            match self.stage {
                Stage::RunningTools => 6,
                Stage::Guarding => 5,
                Stage::GuardingOutcomes => 4,
                Stage::Calling(ModelCall::Initial) => 3,
                Stage::Calling(ModelCall::ToolLoop) => 3,
                Stage::Calling(ModelCall::LimitSynthesis) => 2,
                Stage::Calling(ModelCall::FinalSynthesis) => 1,
                Stage::Calling(ModelCall::Reprompt) => 1,
                Stage::Over => 0,
            },
            self.limits.overflow_retries - self.attempt,
        )
    }
}

/// Whether one distance is less than another.
pub open spec fn nearer(a: (int, int, int), b: (int, int, int)) -> bool {
    a.0 < b.0 || (a.0 == b.0 && (a.1 < b.1 || (a.1 == b.1 && a.2 < b.2)))
}

proof fn lemma_fallback_can_be_shown()
    ensures
        content_outcome(FALLBACK_ANSWER@) is FinalAnswer,
{
    reveal_strlit(
        "Sorry, I could not produce a displayable final answer for this request. Please try again or narrow the task.",
    );
    let s = FALLBACK_ANSWER@;
    assert(s[0] == 'S');
    assert(s.last() == '.');
    assert(trim(s) == s);
}

/// A turn starts within its limits.
pub proof fn law_turn_starts_within_limits(
    limits: TurnLimits,
    max_tool_calls: Option<u32>,
    session: Seq<MessageV>,
)
    ensures
        HarnessV::initial(limits, max_tool_calls, session).within_limits(),
{
}

/// Whatever happens, a turn stays within its limits: it has no more rounds of
/// tools than allowed, makes no model call again more often than allowed, and
/// counts no more tool calls than allowed.
pub proof fn law_turn_stays_within_limits(turn: HarnessV, event: EventV)
    requires
        turn.within_limits(),
    ensures
        turn.after(event).0.within_limits(),
        turn.after(event).0.limits == turn.limits,
        turn.after(event).0.tool_limit.limit == turn.tool_limit.limit,
{
}

/// The calls of a round are as many as may still be made, and the first of those
/// that the model asked for.
pub proof fn law_rounds_fit_the_tool_limit(turn: HarnessV, response: ResponseV)
    requires
        turn.within_limits(),
        turn.after(EventV::Answered(response)).1 is RunTools,
    ensures
        turn.after(EventV::Answered(response)).0.response.tool_calls
            == response.tool_calls.take(
            turn.tool_limit.allowed(response.tool_calls.len()) as int,
        ),
        turn.after(EventV::Answered(response)).0.response.tool_calls.len() > 0,
        turn.tool_limit.limit matches Some(n) ==> turn.tool_limit.count + turn.after(
            EventV::Answered(response),
        ).0.response.tool_calls.len() <= n,
{
}

/// Every event that a turn waits for brings it nearer to its end, so every turn
/// ends.
pub proof fn law_every_turn_ends(turn: HarnessV, event: EventV)
    requires
        turn.within_limits(),
        !(turn.after(event).1 is Nothing),
    ensures
        nearer(turn.after(event).0.distance(), turn.distance()),
        turn.after(event).0.distance().0 >= 0,
        turn.after(event).0.distance().1 >= 0,
        turn.after(event).0.distance().2 >= 0,
{
}

/// A reply is never blank and never bare tool markup: every answer that a turn
/// delivers can be shown.
pub proof fn law_answers_can_be_shown(turn: HarnessV, event: EventV)
    ensures
        turn.after(event).1 matches ActionV::Finish(content, _) ==> content_outcome(
            content,
        ) is FinalAnswer,
{
    lemma_fallback_can_be_shown();
}

/// An answer ends the turn and stands at the end of the conversation.
pub proof fn law_answers_are_kept(turn: HarnessV, event: EventV)
    ensures
        turn.after(event).1 matches ActionV::Finish(content, _) ==> {
            &&& turn.after(event).0.stage is Over
            &&& turn.after(event).0.session.len() > 0
            &&& turn.after(event).0.session.last().role == Role::Assistant
            &&& turn.after(event).0.session.last().content == content
            &&& turn.after(event).0.session.last().tool_calls is None
        },
{
}

/// A turn that is over stays as it is.
pub proof fn law_over_is_over(turn: HarnessV, event: EventV)
    requires
        turn.stage is Over,
    ensures
        turn.after(event) == (turn, ActionV::Nothing),
{
}

/// Where the model ends the turn with a final answer, no tool runs, whatever else
/// it asked for.
pub proof fn law_final_answer_runs_no_tools(turn: HarnessV, response: ResponseV)
    requires
        final_call(response.tool_calls, 0) is Some,
    ensures
        !(turn.after(EventV::Answered(response)).1 is RunTools),
        turn.after(EventV::Answered(response)).0.tool_calls_total == turn.tool_calls_total,
{
}

/// The call without tools that is to give the missing answer is the last one,
/// whether it succeeds or not.
pub proof fn law_synthesis_is_the_last_call(turn: HarnessV, response: ResponseV, error: Seq<char>)
    requires
        turn.stage == Stage::Calling(ModelCall::FinalSynthesis),
    ensures
        turn.after(EventV::Answered(response)).1 is Finish,
        turn.after(EventV::CallFailed(true, error)).1 is Finish,
        turn.after(EventV::CallFailed(false, error)).1 is Finish,
{
}

/// The results of a round follow what was said before, one for each observation
/// and in their order, whatever comes after them.
pub proof fn law_results_are_kept(turn: HarnessV, obs: Seq<ObservationV>, budget_exceeded: bool)
    requires
        turn.stage is RunningTools,
    ensures
        with_results(turn.session, obs).is_prefix_of(
            turn.after(EventV::ToolsRan(obs, budget_exceeded)).0.session,
        ),
        with_results(turn.session, obs).len() == turn.session.len() + obs.len(),
{
}

/// A conversation that is too long is cut harder each time, and never where
/// cutting is switched off.
pub proof fn law_cuts_get_harder(turn: HarnessV, error: Seq<char>)
    ensures
        turn.after(EventV::CallFailed(true, error)).1 matches ActionV::CutAndRetry(
            urgency,
            _,
            call,
        ) ==> {
            &&& turn.limits.compaction
            &&& urgency == retry_urgency(turn.attempt)
            &&& turn.after(EventV::CallFailed(true, error)).0.attempt == turn.attempt + 1
            &&& turn.stage == Stage::Calling(call)
        },
        !(turn.after(EventV::CallFailed(false, error)).1 is CutAndRetry),
{
}

impl HarnessV {
    /// The turn after several events.
    pub open spec fn run(self, events: Seq<EventV>) -> HarnessV
        decreases events.len(),
    {
        if events.len() == 0 {
            self
        } else {
            self.run(events.drop_last()).after(events.last()).0
        }
    }

    /// How often several events end the turn, with an answer or an error.
    pub open spec fn endings(self, events: Seq<EventV>) -> nat
        decreases events.len(),
    {
        if events.len() == 0 {
            0
        } else {
            let last = self.run(events.drop_last()).after(events.last()).1;
            self.endings(events.drop_last()) + if last is Finish || last is Fail {
                1nat
            } else {
                0nat
            }
        }
    }
}

/// Whatever happens, and in whatever order, a turn stays within its limits.
pub proof fn law_every_run_stays_within_limits(turn: HarnessV, events: Seq<EventV>)
    requires
        turn.within_limits(),
    ensures
        turn.run(events).within_limits(),
        turn.run(events).limits == turn.limits,
        turn.run(events).tool_limit.limit == turn.tool_limit.limit,
    decreases events.len(),
{
    if events.len() > 0 {
        law_every_run_stays_within_limits(turn, events.drop_last());
        law_turn_stays_within_limits(turn.run(events.drop_last()), events.last());
    }
}

/// A turn is answered once: whatever happens, and in whatever order, it ends with
/// one answer or one error at most, and is over exactly when it did.
pub proof fn law_one_answer_per_turn(turn: HarnessV, events: Seq<EventV>)
    requires
        !(turn.stage is Over),
    ensures
        turn.endings(events) <= 1,
        turn.run(events).stage is Over <==> turn.endings(events) == 1,
    decreases events.len(),
{
    if events.len() > 0 {
        law_one_answer_per_turn(turn, events.drop_last());
        let before = turn.run(events.drop_last());
        if before.stage is Over {
            law_over_is_over(before, events.last());
        }
    }
}

/// What the tools said is fed back to the model: behind what was said before stands,
/// for each observation and in their order, a tool message with the call's
/// identifier and the observation's content.
pub proof fn law_tool_results_are_fed_back(
    turn: HarnessV,
    obs: Seq<ObservationV>,
    budget_exceeded: bool,
)
    requires
        turn.stage is RunningTools,
    ensures
        ({
            let next = turn.after(EventV::ToolsRan(obs, budget_exceeded)).0;
            let n = turn.session.len() as int;
            &&& next.session.len() >= n + obs.len()
            &&& next.session.take(n) == turn.session
            &&& forall|i: int|
                0 <= i < obs.len() ==> {
                    let m = #[trigger] next.session[n + i];
                    &&& m.role == Role::Tool
                    &&& m.tool_call_id == Some(obs[i].call_id)
                    &&& m.content == obs[i].content
                    &&& m.parts == seq![PartV::Text(obs[i].content)]
                    &&& m.tool_calls is None
                }
            &&& next.session.len() > n + obs.len() ==> next.stage is Over && next.session.len()
                == n + obs.len() + 1
            &&& next.results.len() == obs.len()
            &&& forall|i: int|
                0 <= i < obs.len() ==> #[trigger] next.results[i] == (
                    obs[i].call_id,
                    obs[i].content,
                )
            &&& next.budget_exceeded == budget_exceeded
        }),
{
    let next = turn.after(EventV::ToolsRan(obs, budget_exceeded)).0;
    let n = turn.session.len() as int;
    assert(next.session.take(n) =~= turn.session);
}

/// What follows a round of tools. A tool that asks for the user ends the rounds. Where
/// no more tool calls may be made the model is called without tools, unless the
/// tokens are used up too. Otherwise the loop guard is asked where it is switched on,
/// and else the model is called again unless the tokens are used up.
pub proof fn law_what_follows_a_round(
    turn: HarnessV,
    obs: Seq<ObservationV>,
    budget_exceeded: bool,
)
    requires
        turn.stage is RunningTools,
        turn.tool_limit.count + turn.response.tool_calls.len() <= u32::MAX,
    ensures
        ({
            let (next, action) = turn.after(EventV::ToolsRan(obs, budget_exceeded));
            let used = turn.tool_limit.count + turn.response.tool_calls.len();
            let pauses = exists|i: int| 0 <= i < obs.len() && (#[trigger] obs[i]).pause_for_input;
            let used_up = turn.tool_limit.limit matches Some(n) && used >= n;
            &&& pauses ==> action is Finish || action == ActionV::CallModel(
                ModelCall::FinalSynthesis,
            )
            &&& !pauses ==> next.tool_limit.count == used
            &&& next.tool_limit.limit == turn.tool_limit.limit
            &&& !pauses && used_up && !budget_exceeded ==> action == ActionV::CallModel(
                ModelCall::LimitSynthesis,
            )
            &&& !pauses && used_up && budget_exceeded ==> action is Finish || action
                == ActionV::CallModel(ModelCall::FinalSynthesis)
            &&& !pauses && !used_up && turn.limits.loop_guard ==> action is AskGuard
            &&& !pauses && !used_up && !turn.limits.loop_guard && !budget_exceeded ==> action
                == ActionV::CallModel(ModelCall::ToolLoop)
            &&& !pauses && !used_up && !turn.limits.loop_guard && budget_exceeded ==> action
                is Finish || action == ActionV::CallModel(ModelCall::FinalSynthesis)
            &&& next.iteration == turn.iteration
        }),
{
}

proof fn lemma_no_final_call(calls: Seq<CallV>, from: int)
    requires
        0 <= from <= calls.len(),
    ensures
        final_call(calls, from) is None <==> forall|i: int|
            from <= i < calls.len() ==> (#[trigger] calls[i]).name != "final_answer"@,
    decreases calls.len() - from,
{
    if from < calls.len() {
        lemma_no_final_call(calls, from + 1);
    }
}

proof fn lemma_final_call(calls: Seq<CallV>, from: int, k: int)
    requires
        0 <= from <= k < calls.len(),
        calls[k].name == "final_answer"@,
        forall|i: int| from <= i < k ==> (#[trigger] calls[i]).name != "final_answer"@,
    ensures
        final_call(calls, from) == Some(calls[k]),
    decreases k - from,
{
    if from < k {
        lemma_final_call(calls, from + 1, k);
    }
}

/// Tools run exactly when the model, in the first call or in one after a round, asks
/// for some, none of them ends the turn, and both rounds and tool calls are left.
pub proof fn law_when_tools_run(turn: HarnessV, response: ResponseV)
    ensures
        turn.after(EventV::Answered(response)).1 is RunTools <==> {
            &&& turn.stage == Stage::Calling(ModelCall::Initial) || turn.stage == Stage::Calling(
                ModelCall::ToolLoop,
            )
            &&& response.tool_calls.len() > 0
            &&& forall|i: int|
                0 <= i < response.tool_calls.len() ==> (#[trigger] response.tool_calls[i]).name
                    != "final_answer"@
            &&& turn.iteration < turn.limits.max_tool_iterations
            &&& turn.tool_limit.limit matches Some(n) ==> turn.tool_limit.count < n
        },
{
    lemma_no_final_call(response.tool_calls, 0);
}

/// A round runs the calls that the model asked for, in their order, all of them unless
/// fewer may still be made; the conversation then ends with these calls.
pub proof fn law_rounds_run_what_was_asked_for(turn: HarnessV, response: ResponseV)
    requires
        turn.after(EventV::Answered(response)).1 is RunTools,
    ensures
        ({
            let next = turn.after(EventV::Answered(response)).0;
            let calls = next.response.tool_calls;
            let wanted = response.tool_calls;
            &&& 0 < calls.len() <= wanted.len()
            &&& forall|i: int| 0 <= i < calls.len() ==> #[trigger] calls[i] == wanted[i]
            &&& calls.len() == wanted.len() || (turn.tool_limit.limit matches Some(n)
                && turn.tool_limit.count + calls.len() == n)
            &&& turn.tool_limit.limit matches Some(n) ==> turn.tool_limit.count + calls.len() <= n
            &&& next.session.len() == turn.session.len() + 1
            &&& next.session.drop_last() == turn.session
            &&& next.session.last().role == Role::Assistant
            &&& next.session.last().tool_calls == Some(calls)
            &&& next.session.last().content == ""@
            &&& next.iteration == turn.iteration + 1
            &&& next.stage is RunningTools
            &&& turn.tool_calls_total + calls.len() <= u64::MAX ==> next.tool_calls_total
                == turn.tool_calls_total + calls.len()
        }),
{
    let next = turn.after(EventV::Answered(response)).0;
    assert(next.session.drop_last() =~= turn.session);
}

/// Text that can be shown and comes without tool calls is the answer, as it is,
/// whether it comes first, after a round or in a last call without tools.
pub proof fn law_the_models_text_is_the_answer(turn: HarnessV, response: ResponseV)
    requires
        turn.stage is Calling,
        response.tool_calls.len() == 0,
        content_outcome(response.content) is FinalAnswer,
    ensures
        turn.after(EventV::Answered(response)).1 == ActionV::Finish(response.content, true),
        turn.after(EventV::Answered(response)).0.session.drop_last() == turn.session,
        turn.after(EventV::Answered(response)).0.session.last().content == response.content,
        turn.after(EventV::Answered(response)).0.session.last().role == Role::Assistant,
{
    let next = turn.after(EventV::Answered(response)).0;
    assert(next.session.drop_last() =~= turn.session);
}

/// Text that cannot be shown is not the answer: one more call without tools is made
/// where that is switched on and was not made yet, and else the user reads a fixed
/// text, with a note on why.
pub proof fn law_unusable_text_is_replaced(turn: HarnessV, response: ResponseV)
    requires
        turn.stage is Calling,
        response.tool_calls.len() == 0,
        !(content_outcome(response.content) is FinalAnswer),
    ensures
        ({
            let (next, action) = turn.after(EventV::Answered(response));
            let last = turn.stage == Stage::Calling(ModelCall::FinalSynthesis) || turn.stage
                == Stage::Calling(ModelCall::Reprompt);
            &&& !last && turn.limits.final_synthesis_on_empty ==> action == ActionV::CallModel(
                ModelCall::FinalSynthesis,
            ) && next.session == turn.session
            &&& last || !turn.limits.final_synthesis_on_empty ==> {
                &&& action == ActionV::Finish(FALLBACK_ANSWER@, false)
                &&& next.session.drop_last() == turn.session
                &&& next.session.last().content == FALLBACK_ANSWER@
                &&& next.session.last().metadata matches JsonV::Object(fields) && fields.contains(
                    (
                        "fallback_reason"@,
                        JsonV::Text(
                            if content_outcome(response.content) is ProviderMarkupOnly {
                                "synthesis_markup"@
                            } else {
                                "synthesis_empty"@
                            },
                        ),
                    ),
                )
            }
        }),
{
    let (next, action) = turn.after(EventV::Answered(response));
    if action is Finish {
        assert(next.session.drop_last() =~= turn.session);
        let fields = next.session.last().metadata->Object_0;
        assert(fields[0].0 == "fallback_reason"@);
        assert(fields.contains(fields[0]));
    }
}

/// The first call of the tool that ends a turn does end it, with the content that its
/// arguments hold, whatever else was asked for, and with the status that they hold,
/// or that the answer is complete where they hold none.
pub proof fn law_final_answers_are_delivered(
    turn: HarnessV,
    response: ResponseV,
    k: int,
    fields: Seq<(Seq<char>, JsonV)>,
    content: Seq<char>,
)
    requires
        turn.stage == Stage::Calling(ModelCall::Initial) || turn.stage == Stage::Calling(
            ModelCall::ToolLoop,
        ) || turn.stage == Stage::Calling(ModelCall::Reprompt),
        0 <= k < response.tool_calls.len(),
        response.tool_calls[k].name == "final_answer"@,
        forall|i: int| 0 <= i < k ==> (#[trigger] response.tool_calls[i]).name != "final_answer"@,
        json_of_text(response.tool_calls[k].arguments) == Ok::<JsonV, Seq<char>>(
            JsonV::Object(fields),
        ),
        get_field(fields, "content"@) == Some(JsonV::Text(content)),
    ensures
        ({
            let (next, action) = turn.after(EventV::Answered(response));
            &&& content_outcome(content) is FinalAnswer ==> {
                &&& action == ActionV::Finish(content, false)
                &&& next.session.drop_last() == turn.session
                &&& next.session.last().content == content
                &&& next.session.last().metadata == JsonV::Object(
                    seq![
                        (
                            "final_answer_status"@,
                            JsonV::Text(
                                match get_field(fields, "status"@) {
                                    Some(JsonV::Text(status)) => status,
                                    _ => "complete"@,
                                },
                            ),
                        ),
                    ],
                )
            }
            &&& !(content_outcome(content) is FinalAnswer) && turn.stage != Stage::Calling(
                ModelCall::Reprompt,
            ) ==> action == ActionV::CallModel(ModelCall::Reprompt) && next.session
                == turn.session
            &&& !(content_outcome(content) is FinalAnswer) && turn.stage == Stage::Calling(
                ModelCall::Reprompt,
            ) ==> action == ActionV::Finish(FALLBACK_ANSWER@, false)
        }),
{
    lemma_final_call(response.tool_calls, 0, k);
    let (next, action) = turn.after(EventV::Answered(response));
    if action is Finish {
        assert(next.session.drop_last() =~= turn.session);
    }
    if content_outcome(content) is FinalAnswer {
        assert(next.session.last().metadata->Object_0 =~= seq![
            (
                "final_answer_status"@,
                JsonV::Text(
                    match get_field(fields, "status"@) {
                        Some(JsonV::Text(status)) => status,
                        _ => "complete"@,
                    },
                ),
            ),
        ]);
    }
}

/// A model call that fails ends the turn with its own error, unless the conversation
/// was too long, cutting is switched on and calls may be made again: then the same
/// call is made again, after a cut that is gentle first, harder the second time and
/// hardest from then on.
pub proof fn law_failed_calls(turn: HarnessV, call: ModelCall, overflow: bool, error: Seq<char>)
    requires
        turn.stage == Stage::Calling(call),
        call is Initial || call is ToolLoop || call is LimitSynthesis,
    ensures
        ({
            let (next, action) = turn.after(EventV::CallFailed(overflow, error));
            let again = overflow && turn.limits.compaction && turn.attempt
                < turn.limits.overflow_retries;
            &&& next.session == turn.session
            &&& !again ==> action == ActionV::Fail(error) && next.stage is Over
            &&& again ==> {
                &&& next.stage == turn.stage
                &&& next.attempt == turn.attempt + 1
                &&& action == ActionV::CutAndRetry(
                    if turn.attempt == 0 {
                        CompactionUrgency::Normal
                    } else if turn.attempt == 1 {
                        CompactionUrgency::Emergency
                    } else {
                        CompactionUrgency::Critical
                    },
                    if call is LimitSynthesis {
                        5
                    } else {
                        8
                    },
                    call,
                )
            }
        }),
{
}

/// Tokens that are used up before the first call end the turn with an error that
/// holds the account of them, and a known answer is delivered as it is. Both matter
/// before the first call only.
pub proof fn law_before_the_first_call(turn: HarnessV, summary: Seq<char>, content: Seq<char>)
    ensures
        turn.stage == Stage::Calling(ModelCall::Initial) && turn.attempt == 0 ==> {
            &&& turn.after(EventV::BudgetSpent(summary)).1 == ActionV::Fail(
                "Token budget exceeded: "@ + summary,
            )
            &&& turn.after(EventV::BudgetSpent(summary)).0.stage is Over
            &&& content_outcome(content) is FinalAnswer ==> {
                &&& turn.after(EventV::CacheHit(content)).1 == ActionV::Finish(content, true)
                &&& turn.after(EventV::CacheHit(content)).0.session.last().content == content
                &&& turn.after(EventV::CacheHit(content)).0.session.drop_last() == turn.session
            }
            &&& !(content_outcome(content) is FinalAnswer) ==> turn.after(
                EventV::CacheHit(content),
            ) == (turn, ActionV::Nothing)
        },
        turn.stage != Stage::Calling(ModelCall::Initial) || turn.attempt > 0 ==> {
            &&& turn.after(EventV::BudgetSpent(summary)) == (turn, ActionV::Nothing)
            &&& turn.after(EventV::CacheHit(content)) == (turn, ActionV::Nothing)
        },
{
    let next = turn.after(EventV::CacheHit(content)).0;
    if turn.after(EventV::CacheHit(content)).1 is Finish {
        assert(next.session.drop_last() =~= turn.session);
    }
}

/// A turn takes no notice of what it does not wait for.
pub proof fn law_only_what_is_awaited_counts(
    turn: HarnessV,
    response: ResponseV,
    overflow: bool,
    error: Seq<char>,
    obs: Seq<ObservationV>,
    budget_exceeded: bool,
    guard: GuardV,
    answers: Seq<Option<GuardV>>,
)
    ensures
        !(turn.stage is Calling) ==> turn.after(EventV::Answered(response)) == (
            turn,
            ActionV::Nothing,
        ) && turn.after(EventV::CallFailed(overflow, error)) == (turn, ActionV::Nothing),
        !(turn.stage is RunningTools) ==> turn.after(EventV::ToolsRan(obs, budget_exceeded)) == (
            turn,
            ActionV::Nothing,
        ),
        !(turn.stage is Guarding) ==> turn.after(EventV::GuardSaid(guard)) == (
            turn,
            ActionV::Nothing,
        ),
        !(turn.stage is GuardingOutcomes) ==> turn.after(EventV::OutcomesSaid(answers)) == (
            turn,
            ActionV::Nothing,
        ),
{
}

/// What follows the loop guard. Its word on the calls of a round, where it lets them
/// pass, is followed by the question about their results, and that by the next model
/// call; a word that stops the loop is followed by neither.
pub proof fn law_what_follows_the_loop_guard(turn: HarnessV, guard: GuardV)
    ensures
        turn.stage is Guarding && (guard is Allow || guard is Warn) ==> turn.after(
            EventV::GuardSaid(guard),
        ).1 is AskOutcomes && turn.after(EventV::GuardSaid(guard)).0.stage is GuardingOutcomes,
        turn.stage is Guarding && (guard is Block || guard is CircuitBreak) ==> {
            let action = turn.after(EventV::GuardSaid(guard)).1;
            ||| action is Finish
            ||| action == ActionV::CallModel(ModelCall::FinalSynthesis)
        },
        turn.stage is Guarding && guard is Allow ==> turn.after(EventV::GuardSaid(guard)).0.session
            == turn.session,
        turn.stage is GuardingOutcomes && !turn.budget_exceeded ==> turn.after(
            EventV::OutcomesSaid(seq![None]),
        ) == (
            HarnessV { stage: Stage::Calling(ModelCall::ToolLoop), attempt: 0, ..turn },
            ActionV::CallModel(ModelCall::ToolLoop),
        ),
        turn.stage is GuardingOutcomes && turn.budget_exceeded ==> {
            let action = turn.after(EventV::OutcomesSaid(seq![None])).1;
            ||| action is Finish
            ||| action == ActionV::CallModel(ModelCall::FinalSynthesis)
        },
        turn.stage is GuardingOutcomes && (guard is Block || guard is CircuitBreak) ==> {
            let action = turn.after(EventV::OutcomesSaid(seq![Some(guard)])).1;
            ||| action is Finish
            ||| action == ActionV::CallModel(ModelCall::FinalSynthesis)
        },
{
    let none = seq![None::<GuardV>];
    assert(noted_answers(none, 1, turn.session) == (turn.session, false));
    assert(noted_answers(none, 0, turn.session) == (turn.session, false));
}

/// What the user reads where the loop is stopped or its means are used up: a text that
/// says so, unless one more call without tools is to give the answer.
pub proof fn law_what_the_user_reads_when_a_turn_is_stopped(
    turn: HarnessV,
    guard: GuardV,
    obs: Seq<ObservationV>,
)
    requires
        guard is Block || guard is CircuitBreak,
        !turn.limits.final_synthesis_on_tool_limit || turn.iteration
            < turn.limits.max_tool_iterations,
        forall|i: int| 0 <= i < obs.len() ==> !(#[trigger] obs[i]).pause_for_input,
    ensures
        turn.stage is Guarding ==> turn.after(EventV::GuardSaid(guard)).1 == ActionV::Finish(
            "Stopped tool loop due to repeated tool-call pattern."@,
            true,
        ),
        turn.stage is GuardingOutcomes ==> turn.after(EventV::OutcomesSaid(seq![Some(guard)])).1
            == ActionV::Finish("Stopped tool loop due to repeated identical outcomes."@, true),
        turn.stage is RunningTools && turn.tool_limit.count + turn.response.tool_calls.len()
            <= u32::MAX && (turn.tool_limit.limit matches Some(n) && turn.tool_limit.count
            + turn.response.tool_calls.len() >= n) ==> turn.after(EventV::ToolsRan(obs, true)).1
            == ActionV::Finish("Tool call limit reached. Token budget exceeded."@, true),
{
    reveal_strlit("Stopped tool loop due to repeated tool-call pattern.");
    reveal_strlit("Stopped tool loop due to repeated identical outcomes.");
    reveal_strlit("Tool call limit reached. Token budget exceeded.");
    law_plain_texts_are_answers("Stopped tool loop due to repeated tool-call pattern."@, 0);
    law_plain_texts_are_answers("Stopped tool loop due to repeated identical outcomes."@, 0);
    law_plain_texts_are_answers("Tool call limit reached. Token budget exceeded."@, 0);
}

/// The last call without tools decides: its text is the answer where it can be shown,
/// whatever tools it asks for. Where that call fails, the text that the model gave last
/// is the answer if it can be shown, and a fixed text if not.
pub proof fn law_the_last_call_decides(
    turn: HarnessV,
    response: ResponseV,
    overflow: bool,
    error: Seq<char>,
)
    requires
        turn.stage == Stage::Calling(ModelCall::FinalSynthesis),
    ensures
        content_outcome(response.content) is FinalAnswer ==> turn.after(
            EventV::Answered(response),
        ).1 == ActionV::Finish(response.content, true),
        !(content_outcome(response.content) is FinalAnswer) ==> turn.after(
            EventV::Answered(response),
        ).1 == ActionV::Finish(FALLBACK_ANSWER@, false),
        content_outcome(turn.response.content) is FinalAnswer ==> turn.after(
            EventV::CallFailed(overflow, error),
        ).1 == ActionV::Finish(turn.response.content, true),
        !(content_outcome(turn.response.content) is FinalAnswer) ==> turn.after(
            EventV::CallFailed(overflow, error),
        ).1 == ActionV::Finish(FALLBACK_ANSWER@, false),
{
}

/// A model that asks for tools when no round or no call is left is asked once more,
/// without tools, where that is switched on, and else answers with the text it gave.
pub proof fn law_rounds_run_out(turn: HarnessV, response: ResponseV)
    requires
        turn.stage == Stage::Calling(ModelCall::Initial) || turn.stage == Stage::Calling(
            ModelCall::ToolLoop,
        ),
        response.tool_calls.len() > 0,
        forall|i: int|
            0 <= i < response.tool_calls.len() ==> (#[trigger] response.tool_calls[i]).name
                != "final_answer"@,
        turn.iteration >= turn.limits.max_tool_iterations,
    ensures
        ({
            let (next, action) = turn.after(EventV::Answered(response));
            let usable = content_outcome(response.content) is FinalAnswer;
            &&& turn.limits.final_synthesis_on_tool_limit || (!usable
                && turn.limits.final_synthesis_on_empty) ==> action == ActionV::CallModel(
                ModelCall::FinalSynthesis,
            )
            &&& !turn.limits.final_synthesis_on_tool_limit && usable ==> action == ActionV::Finish(
                response.content,
                true,
            )
            &&& !turn.limits.final_synthesis_on_tool_limit && !usable
                && !turn.limits.final_synthesis_on_empty ==> action == ActionV::Finish(
                FALLBACK_ANSWER@,
                false,
            )
            &&& next.tool_calls_total == turn.tool_calls_total
        }),
{
    lemma_no_final_call(response.tool_calls, 0);
}

/// A turn begins with the conversation as it is, before its first call, and with nothing
/// used.
pub proof fn law_how_turns_begin(
    limits: TurnLimits,
    max_tool_calls: Option<u32>,
    session: Seq<MessageV>,
)
    ensures
        ({
            let turn = HarnessV::initial(limits, max_tool_calls, session);
            &&& turn.session == session
            &&& turn.limits == limits
            &&& turn.tool_limit.limit == max_tool_calls
            &&& turn.tool_limit.count == 0
            &&& turn.iteration == 0
            &&& turn.attempt == 0
            &&& turn.tool_calls_total == 0
            &&& !turn.budget_exceeded
            &&& turn.stage == Stage::Calling(ModelCall::Initial)
        }),
{
}

/// A fixed text is kept with an account of the turn: how many rounds and tool calls it
/// had, and whether it ran into a limit.
pub proof fn law_fallbacks_are_accounted_for(turn: HarnessV, response: ResponseV)
    requires
        turn.stage == Stage::Calling(ModelCall::FinalSynthesis),
        !(content_outcome(response.content) is FinalAnswer),
    ensures
        turn.after(EventV::Answered(response)).0.session.last().metadata matches JsonV::Object(
            fields,
        ) && {
            &&& fields.contains(("harness_fallback"@, JsonV::Text("phase0"@)))
            &&& fields.contains(("iterations"@, JsonV::Unsigned(turn.iteration as u64)))
            &&& fields.contains(("tool_calls_total"@, JsonV::Unsigned(turn.tool_calls_total)))
            &&& fields.contains(
                (
                    "tool_limit_hit"@,
                    JsonV::Bool(
                        (turn.iteration >= turn.limits.max_tool_iterations
                            && turn.response.tool_calls.len() > 0) || (
                        turn.tool_limit.limit matches Some(n) && turn.tool_limit.count >= n),
                    ),
                ),
            )
        },
{
    let m = turn.after(EventV::Answered(response)).0.session.last().metadata;
    let fields = m->Object_0;
    assert(fields.contains(fields[1]));
    assert(fields.contains(fields[2]));
    assert(fields.contains(fields[3]));
    assert(fields.contains(fields[4]));
}

/// What a turn is told and what it asks for hold what their models hold.
pub proof fn law_events_hold_what_happened(event: TurnEvent, action: TurnAction)
    ensures
        match event {
            TurnEvent::BudgetSpent(s) => event@ == EventV::BudgetSpent(s@),
            TurnEvent::CacheHit(s) => event@ == EventV::CacheHit(s@),
            TurnEvent::Answered(r) => event@ matches EventV::Answered(v) && v.content == r.content@
                && v.tool_calls.len() == r.tool_calls@.len() && forall|i: int|
                0 <= i < v.tool_calls.len() ==> {
                    &&& (#[trigger] v.tool_calls[i]).id == r.tool_calls@[i].id@
                    &&& v.tool_calls[i].name == r.tool_calls@[i].name@
                    &&& v.tool_calls[i].arguments == r.tool_calls@[i].arguments@
                },
            TurnEvent::CallFailed { overflow, error } => event@ == EventV::CallFailed(
                overflow,
                error@,
            ),
            TurnEvent::ToolsRan { observations, budget_exceeded } => event@ matches EventV::ToolsRan(
                v,
                b,
            ) && b == budget_exceeded && v.len() == observations@.len() && forall|i: int|
                0 <= i < v.len() ==> {
                    &&& (#[trigger] v[i]).call_id == observations@[i].call_id@
                    &&& v[i].tool_name == observations@[i].tool_name@
                    &&& v[i].content == observations@[i].content@
                    &&& v[i].kind == observations@[i].kind
                    &&& v[i].pause_for_input == observations@[i].pause_for_input
                },
            _ => true,
        },
        match action {
            TurnAction::CallModel(c) => action@ == ActionV::CallModel(c),
            TurnAction::CutAndRetry { urgency, keep_recent, call } => action@
                == ActionV::CutAndRetry(urgency, keep_recent, call),
            TurnAction::Finish { content, implicit } => action@ == ActionV::Finish(
                content@,
                implicit,
            ),
            TurnAction::Fail(e) => action@ == ActionV::Fail(e@),
            TurnAction::RunTools => action@ is RunTools,
            TurnAction::AskGuard => action@ is AskGuard,
            TurnAction::AskOutcomes(_) => action@ is AskOutcomes,
            TurnAction::Nothing => action@ is Nothing,
        },
{
}

} // verus!
