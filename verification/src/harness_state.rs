//! What the harness remembers within one turn: the plan, if there is one, and
//! the signs of churn that may earn the model one advisory.
use std::collections::VecDeque;
use vstd::prelude::*;

use crate::observations::{rejected, ObservationV, ToolObservation, ToolObservationKind};
use crate::plan::{new_plan, out_of_range, PlanV, ProposedSubtask, ProposedV, TurnPlan};
use crate::providers::LLMResponse;
use crate::session::CallV;
use crate::text::{
    contains, contains_text, is_text, law_texts_hold_their_parts, lemma_holds_middle, lower, put,
    starts_with, text, to_lower,
};
use crate::tool_calls::{call_route, route_call, CallRoute};

verus! {

pub const ERROR_WINDOW: usize = 5;

/// The tool by which the model proposes a plan.
pub const PROPOSE_PLAN_TOOL_NAME: &'static str = "propose_plan";

/// The tool by which the model revises a plan.
pub const REVISE_PLAN_TOOL_NAME: &'static str = "revise_plan";

/// A sign that a turn is churning.
#[derive(Debug, Clone, Copy, PartialEq, Eq, Hash, Structural)]
pub enum DisorderSignal {
    ConsecutiveSameTool,
    ToolErrorRate,
    LoopGuard,
    SelfDoubt,
    PlanStagnation,
    SubtaskBudget,
}

/// The label of a signal, for telemetry.
pub open spec fn signal_label(signal: DisorderSignal) -> Seq<char> {
    match signal {
        DisorderSignal::ConsecutiveSameTool => "consecutive_same_tool"@,
        DisorderSignal::ToolErrorRate => "tool_error_rate"@,
        DisorderSignal::LoopGuard => "loop_guard"@,
        DisorderSignal::SelfDoubt => "self_doubt"@,
        DisorderSignal::PlanStagnation => "plan_stagnation"@,
        DisorderSignal::SubtaskBudget => "subtask_budget"@,
    }
}

impl DisorderSignal {
    /// The label of the signal, for telemetry.
    pub fn as_label(self) -> (r: &'static str)
        ensures
            r@ == signal_label(self),
    {
        match self {
            DisorderSignal::ConsecutiveSameTool => "consecutive_same_tool",
            DisorderSignal::ToolErrorRate => "tool_error_rate",
            DisorderSignal::LoopGuard => "loop_guard",
            DisorderSignal::SelfDoubt => "self_doubt",
            DisorderSignal::PlanStagnation => "plan_stagnation",
            DisorderSignal::SubtaskBudget => "subtask_budget",
        }
    }
}

/// The advisory for every signal but an exhausted subtask budget.
pub open spec fn disorder_advisory() -> Seq<char> {
    "Heads up: this turn shows signs of churn, such as repeated tool calls, repeated errors, or uncertainty. If you have not planned, you may call propose_plan to structure the remaining steps. If you already have a plan, you may call revise_plan to change direction. Continuing without restructuring is acceptable if you are confident in the current approach. This message is informational, not a directive."@
}

/// The arguments of a plan proposal.
#[derive(Debug)]
pub struct ProposePlanArgs {
    pub subtasks: Vec<ProposedSubtask>,
    pub rationale: Option<String>,
}

/// How a plan is revised.
#[derive(Debug, Clone, Copy, PartialEq, Eq, Structural)]
pub enum ReviseDecision {
    CompleteCurrent,
    AdvanceTo,
    MarkBlocked,
    ReplacePlan,
}

/// The arguments of a plan revision.
#[derive(Debug)]
pub struct RevisePlanArgs {
    pub decision: ReviseDecision,
    pub target_subtask_idx: Option<usize>,
    pub new_subtasks: Option<Vec<ProposedSubtask>>,
    pub reason: String,
}

/// What the harness remembers within one turn.
#[derive(Debug)]
pub struct HarnessTurnState {
    plan: Option<TurnPlan>,
    plan_last_revised_iteration: u32,
    consecutive_same_tool: u32,
    last_tool_name: Option<String>,
    recent_observation_errors: VecDeque<bool>,
    disorder_advisory_pending: Option<DisorderSignal>,
    disorder_advisory_injected: bool,
    disorder_advisory_awaiting_response: bool,
}

/// The model of a [`HarnessTurnState`].
#[verifier::ext_equal]
pub struct TurnStateV {
    pub plan: Option<PlanV>,
    /// The iteration in which the plan was made or last revised.
    pub last_revised: u32,
    /// How often the last tool was called in a row.
    pub run: nat,
    pub last_tool: Option<Seq<char>>,
    /// Which of the last observations were errors, oldest first.
    pub window: Seq<bool>,
    /// The signal that waits for its advisory.
    pub pending: Option<DisorderSignal>,
    /// Whether the turn's advisory was given.
    pub injected: bool,
    /// Whether the model's first reply to the advisory is still to come.
    pub awaiting: bool,
}

/// The texts in which a model voices doubt.
pub open spec fn voices_doubt(content: Seq<char>) -> bool {
    let c = lower(content);
    ||| contains(c, "let me reconsider"@)
    ||| contains(c, "i'm not sure how to proceed"@)
    ||| contains(c, "let me try a different"@)
    ||| contains(c, "actually, wait"@)
    ||| contains(c, "i'm stuck"@)
    ||| contains(c, "i don't know what to do next"@)
    ||| contains(c, "\u{8ba9}\u{6211}\u{91cd}\u{65b0}\u{8003}\u{8651}"@)
    ||| contains(c, "\u{6211}\u{4e0d}\u{786e}\u{5b9a}"@)
    ||| contains(c, "\u{8ba9}\u{6211}\u{6362}\u{4e2a}\u{601d}\u{8def}"@)
    ||| contains(c, "\u{6211}\u{6709}\u{70b9}\u{5361}\u{4f4f}"@)
    ||| contains(c, "\u{6211}\u{4e0d}\u{77e5}\u{9053}\u{4e0b}\u{4e00}\u{6b65}"@)
}

/// Whether a text voices doubt.
fn text_voices_doubt(content: &str) -> (r: bool)
    ensures
        r == voices_doubt(content@),
{
    let lowered = to_lower(content);
    let c = lowered.as_str();
    contains_text(c, "let me reconsider") || contains_text(c, "i'm not sure how to proceed")
        || contains_text(c, "let me try a different") || contains_text(c, "actually, wait")
        || contains_text(c, "i'm stuck") || contains_text(c, "i don't know what to do next")
        || contains_text(c, "\u{8ba9}\u{6211}\u{91cd}\u{65b0}\u{8003}\u{8651}") || contains_text(
        c,
        "\u{6211}\u{4e0d}\u{786e}\u{5b9a}",
    ) || contains_text(c, "\u{8ba9}\u{6211}\u{6362}\u{4e2a}\u{601d}\u{8def}") || contains_text(
        c,
        "\u{6211}\u{6709}\u{70b9}\u{5361}\u{4f4f}",
    ) || contains_text(c, "\u{6211}\u{4e0d}\u{77e5}\u{9053}\u{4e0b}\u{4e00}\u{6b65}")
}

/// How many of the observations were errors.
pub open spec fn error_count(window: Seq<bool>) -> nat
    decreases window.len(),
{
    if window.len() == 0 {
        0
    } else {
        error_count(window.drop_last()) + if window.last() {
            1nat
        } else {
            0nat
        }
    }
}

/// The window after one more observation: it keeps the last [`ERROR_WINDOW`].
pub open spec fn slide(window: Seq<bool>, is_error: bool) -> Seq<bool> {
    if window.len() == ERROR_WINDOW {
        window.drop_first().push(is_error)
    } else {
        window.push(is_error)
    }
}

/// The window after a batch of observations.
pub open spec fn slide_all(window: Seq<bool>, obs: Seq<ObservationV>) -> Seq<bool>
    decreases obs.len(),
{
    if obs.len() == 0 {
        window
    } else {
        slide(
            slide_all(window, obs.drop_last()),
            obs.last().kind != ToolObservationKind::Success,
        )
    }
}

/// The size of a batch as the plan counts it, in 32 bits.
pub open spec fn batch_size(n: nat) -> u32 {
    (n % 0x1_0000_0000) as u32
}

impl TurnStateV {
    /// The state at the start of a turn.
    pub open spec fn initial() -> TurnStateV {
        TurnStateV {
            plan: None,
            last_revised: 0,
            run: 0,
            last_tool: None,
            window: seq![],
            pending: None,
            injected: false,
            awaiting: false,
        }
    }

    /// What every state keeps.
    pub open spec fn wf(self) -> bool {
        &&& self.plan matches Some(p) ==> p.wf()
        &&& self.run <= u32::MAX
        &&& self.window.len() <= ERROR_WINDOW
        &&& self.awaiting ==> self.injected
    }

    /// Notes a signal: the first one of a turn is kept until its advisory is
    /// given, and after that no other is noted.
    pub open spec fn mark(self, signal: DisorderSignal) -> TurnStateV {
        if !self.injected && self.pending is None {
            TurnStateV { pending: Some(signal), ..self }
        } else {
            self
        }
    }

    /// Notes a signal where `hit` holds.
    pub open spec fn mark_if(self, hit: bool, signal: DisorderSignal) -> TurnStateV {
        if hit {
            self.mark(signal)
        } else {
            self
        }
    }

    /// One more call of a tool.
    pub open spec fn call_tool(self, name: Seq<char>) -> TurnStateV {
        let s = if self.last_tool == Some(name) {
            TurnStateV {
                run: if self.run < u32::MAX {
                    self.run + 1
                } else {
                    self.run
                },
                ..self
            }
        } else {
            TurnStateV { last_tool: Some(name), run: 1, ..self }
        };
        s.mark_if(s.run >= 4, DisorderSignal::ConsecutiveSameTool)
    }

    /// A sequence of tool calls.
    pub open spec fn call_tools(self, names: Seq<Seq<char>>) -> TurnStateV
        decreases names.len(),
    {
        if names.len() == 0 {
            self
        } else {
            self.call_tools(names.drop_last()).call_tool(names.last())
        }
    }

    /// The plan's share of a batch of tool calls.
    pub open spec fn charge_plan(self, count: u32) -> TurnStateV {
        match self.plan {
            Some(p) => TurnStateV { plan: Some(p.record_tool_calls(count)), ..self }.mark_if(
                p.exhausts(count),
                DisorderSignal::SubtaskBudget,
            ),
            None => self,
        }
    }

    /// The state after a batch of tool calls.
    pub open spec fn record_tool_calls(self, names: Seq<Seq<char>>) -> TurnStateV {
        self.charge_plan(batch_size(names.len())).call_tools(names)
    }

    /// The state after a batch of observations.
    pub open spec fn record_observations(self, obs: Seq<ObservationV>) -> TurnStateV {
        let s = TurnStateV { window: slide_all(self.window, obs), ..self };
        s.mark_if(
            s.window.len() == ERROR_WINDOW && error_count(s.window) >= 3,
            DisorderSignal::ToolErrorRate,
        )
    }

    /// The state after model content.
    pub open spec fn record_model_content(self, content: Seq<char>) -> TurnStateV {
        self.mark_if(voices_doubt(content), DisorderSignal::SelfDoubt)
    }

    /// Whether the plan was left alone for six iterations or more.
    pub open spec fn is_stagnant(self, iteration: u32) -> bool {
        self.plan is Some && iteration - self.last_revised >= 6
    }

    /// The state after the check for a plan that is not revised.
    pub open spec fn check_plan_stagnation(self, iteration: u32) -> TurnStateV {
        self.mark_if(self.is_stagnant(iteration), DisorderSignal::PlanStagnation)
    }

    /// The advisory for a signal.
    pub open spec fn advisory(self, signal: DisorderSignal) -> Seq<char> {
        match (signal, self.plan) {
            (DisorderSignal::SubtaskBudget, Some(p)) => p.budget_advisory(),
            _ => disorder_advisory(),
        }
    }

    /// Whether an advisory is due.
    pub open spec fn advisory_due(self) -> bool {
        !self.injected && self.pending is Some
    }

    /// The state after the due advisory was taken.
    pub open spec fn take_advisory(self) -> TurnStateV {
        if self.advisory_due() {
            TurnStateV { pending: None, injected: true, awaiting: true, ..self }
        } else {
            self
        }
    }

    /// A line before the rendered plan, or alone where there is no plan.
    pub open spec fn plan_ack(self, prefix: Seq<char>) -> Seq<char> {
        match self.plan {
            Some(p) => prefix + "\n\n"@ + p.render("Current plan:"@),
            None => prefix,
        }
    }

    /// The state with a new plan.
    pub open spec fn adopt(self, plan: PlanV, iteration: u32) -> TurnStateV {
        TurnStateV { plan: Some(plan), last_revised: iteration, ..self }
    }

    /// The state after a plan proposal.
    pub open spec fn propose(
        self,
        args: Result<Seq<ProposedV>, Seq<char>>,
        iteration: u32,
    ) -> TurnStateV {
        if self.plan is Some {
            self
        } else {
            match args {
                Ok(subtasks) => self.adopt(new_plan(subtasks), iteration),
                Err(_) => self,
            }
        }
    }

    /// The answer to a plan proposal.
    pub open spec fn propose_reply(
        self,
        args: Result<Seq<ProposedV>, Seq<char>>,
        iteration: u32,
    ) -> (Seq<char>, ToolObservationKind) {
        if self.plan is Some {
            (
                "A plan is already active. Use revise_plan to update it."@,
                ToolObservationKind::SoftError,
            )
        } else {
            match args {
                Ok(_) => (
                    self.propose(args, iteration).plan_ack("Plan accepted."@),
                    ToolObservationKind::Success,
                ),
                Err(e) => (
                    "Invalid propose_plan arguments: "@ + e,
                    ToolObservationKind::SoftError,
                ),
            }
        }
    }
}

/// What a revision asks for.
pub struct ReviseV {
    pub decision: ReviseDecision,
    pub target: Option<usize>,
    pub subtasks: Option<Seq<ProposedV>>,
}

impl RevisePlanArgs {
    /// What the revision asks for.
    pub open spec fn request(&self) -> ReviseV {
        ReviseV {
            decision: self.decision,
            target: self.target_subtask_idx,
            subtasks: match self.new_subtasks {
                Some(v) => Some(v.deep_view()),
                None => None,
            },
        }
    }
}

/// The plan that a revision leads to and the line that acknowledges it, or the
/// reason why it is refused.
pub open spec fn revised(p: PlanV, r: ReviseV) -> Result<(PlanV, Seq<char>), Seq<char>> {
    match r.decision {
        ReviseDecision::CompleteCurrent => Ok(
            (p.complete_current(), "Plan updated: current subtask completed."@),
        ),
        ReviseDecision::AdvanceTo => match r.target {
            None => Err(
                "Invalid revise_plan arguments: target_subtask_idx is required for advance_to."@,
            ),
            Some(idx) => if idx < p.subtasks.len() {
                Ok((p.advance_to(idx as int), "Plan updated: advanced to requested subtask."@))
            } else {
                Err(out_of_range(idx as nat))
            },
        },
        ReviseDecision::MarkBlocked => match r.target {
            None => Err(
                "Invalid revise_plan arguments: target_subtask_idx is required for mark_blocked."@,
            ),
            Some(idx) => if idx < p.subtasks.len() {
                Ok((p.mark_blocked(idx as int), "Plan updated: subtask marked blocked."@))
            } else {
                Err(out_of_range(idx as nat))
            },
        },
        ReviseDecision::ReplacePlan => match r.subtasks {
            None => Err(
                "Invalid revise_plan arguments: new_subtasks is required for replace_plan."@,
            ),
            Some(subtasks) => Ok((new_plan(subtasks), "Plan replaced."@)),
        },
    }
}

impl TurnStateV {
    /// The state after a plan revision.
    pub open spec fn revise(
        self,
        args: Result<ReviseV, Seq<char>>,
        iteration: u32,
    ) -> TurnStateV {
        match (self.plan, args) {
            (Some(p), Ok(r)) => match revised(p, r) {
                Ok((q, _)) => self.adopt(q, iteration),
                Err(_) => self,
            },
            _ => self,
        }
    }

    /// The answer to a plan revision.
    pub open spec fn revise_reply(
        self,
        args: Result<ReviseV, Seq<char>>,
        iteration: u32,
    ) -> (Seq<char>, ToolObservationKind) {
        match (self.plan, args) {
            (None, _) => (
                "No plan is active. Use propose_plan before revise_plan."@,
                ToolObservationKind::SoftError,
            ),
            (Some(_), Err(e)) => (
                "Invalid revise_plan arguments: "@ + e,
                ToolObservationKind::SoftError,
            ),
            (Some(p), Ok(r)) => match revised(p, r) {
                Ok((_, line)) => (
                    self.revise(args, iteration).plan_ack(line),
                    ToolObservationKind::Success,
                ),
                Err(e) => (e, ToolObservationKind::SoftError),
            },
        }
    }
}

/// The subtasks of a proposal, or the reason why its arguments were not read.
pub open spec fn proposal(args: Result<ProposePlanArgs, String>) -> Result<
    Seq<ProposedV>,
    Seq<char>,
> {
    match args {
        Ok(a) => Ok(a.subtasks.deep_view()),
        Err(e) => Err(e@),
    }
}

/// The revision asked for, or the reason why its arguments were not read.
pub open spec fn revision(args: Result<RevisePlanArgs, String>) -> Result<ReviseV, Seq<char>> {
    match args {
        Ok(a) => Ok(a.request()),
        Err(e) => Err(e@),
    }
}

impl View for HarnessTurnState {
    type V = TurnStateV;

    closed spec fn view(&self) -> TurnStateV {
        TurnStateV {
            plan: match self.plan {
                Some(p) => Some(p.deep_view()),
                None => None,
            },
            last_revised: self.plan_last_revised_iteration,
            run: self.consecutive_same_tool as nat,
            last_tool: self.last_tool_name.deep_view(),
            window: self.recent_observation_errors@,
            pending: self.disorder_advisory_pending,
            injected: self.disorder_advisory_injected,
            awaiting: self.disorder_advisory_awaiting_response,
        }
    }
}

impl Default for HarnessTurnState {
    /// The state at the start of a turn.
    fn default() -> (r: Self)
        ensures
            r@ == TurnStateV::initial(),
    {
        HarnessTurnState {
            plan: None,
            plan_last_revised_iteration: 0,
            consecutive_same_tool: 0,
            last_tool_name: None,
            recent_observation_errors: VecDeque::new(),
            disorder_advisory_pending: None,
            disorder_advisory_injected: false,
            disorder_advisory_awaiting_response: false,
        }
    }
}

impl HarnessTurnState {
    #[verifier::type_invariant]
    spec fn inv(self) -> bool {
        self@.wf()
    }

    fn mark_disorder(&mut self, signal: DisorderSignal)
        ensures
            final(self)@ == old(self)@.mark(signal),
    {
        proof {
            use_type_invariant(&*self);
        }
        if !self.disorder_advisory_injected && self.disorder_advisory_pending.is_none() {
            self.disorder_advisory_pending = Some(signal);
        }
    }

    fn render_disorder_advisory(&self, signal: DisorderSignal) -> (r: String)
        ensures
            r@ == self@.advisory(signal),
    {
        proof {
            use_type_invariant(self);
        }
        if let DisorderSignal::SubtaskBudget = signal {
            if let Some(plan) = &self.plan {
                return plan.render_budget_advisory();
            }
        }
        text(
            "Heads up: this turn shows signs of churn, such as repeated tool calls, repeated errors, or uncertainty. If you have not planned, you may call propose_plan to structure the remaining steps. If you already have a plan, you may call revise_plan to change direction. Continuing without restructuring is acceptable if you are confident in the current approach. This message is informational, not a directive.",
        )
    }

    fn render_plan_ack(&self, prefix: &str) -> (r: String)
        ensures
            r@ == self@.plan_ack(prefix@),
    {
        proof {
            use_type_invariant(self);
        }
        let mut s = text(prefix);
        if let Some(plan) = &self.plan {
            put(&mut s, "\n\n");
            put(&mut s, plan.render("Current plan:").as_str());
        }
        s
    }

    /// Answers a plan proposal: starts a plan unless one is active or the
    /// arguments could not be read.
    pub fn handle_propose_plan(
        &mut self,
        call_id: &str,
        args: Result<ProposePlanArgs, String>,
        iteration: u32,
    ) -> (r: ToolObservation)
        ensures
            final(self)@ == old(self)@.propose(proposal(args), iteration),
            final(self)@.wf(),
            r.deep_view() == rejected(
                call_id@,
                PROPOSE_PLAN_TOOL_NAME@,
                old(self)@.propose_reply(proposal(args), iteration).0,
                old(self)@.propose_reply(proposal(args), iteration).1,
            ),
    {
        proof {
            use_type_invariant(&*self);
        }
        if self.plan.is_some() {
            return ToolObservation::pre_execution(
                call_id,
                PROPOSE_PLAN_TOOL_NAME,
                "A plan is already active. Use revise_plan to update it.",
                ToolObservationKind::SoftError,
            );
        }
        match args {
            Ok(parsed) => {
                self.plan = Some(TurnPlan::new(&parsed.subtasks));
                self.plan_last_revised_iteration = iteration;
                let ack = self.render_plan_ack("Plan accepted.");
                ToolObservation::pre_execution(
                    call_id,
                    PROPOSE_PLAN_TOOL_NAME,
                    ack.as_str(),
                    ToolObservationKind::Success,
                )
            },
            Err(error) => {
                let mut s = text("Invalid propose_plan arguments: ");
                put(&mut s, error.as_str());
                ToolObservation::pre_execution(
                    call_id,
                    PROPOSE_PLAN_TOOL_NAME,
                    s.as_str(),
                    ToolObservationKind::SoftError,
                )
            },
        }
    }

    /// Carries out a revision on the plan: gives the line that acknowledges it,
    /// or the reason why it is refused.
    fn revise_active(plan: &mut TurnPlan, parsed: &RevisePlanArgs) -> (r: Result<String, String>)
        requires
            old(plan).wf(),
        ensures
            final(plan).wf(),
            match revised(old(plan).deep_view(), parsed.request()) {
                Ok((q, line)) => final(plan).deep_view() == q && (r matches Ok(l) && l@ == line),
                Err(reason) => final(plan).deep_view() == old(plan).deep_view() && (r matches Err(e)
                    && e@ == reason),
            },
    {
        match parsed.decision {
            ReviseDecision::CompleteCurrent => {
                plan.complete_current();
                Ok(text("Plan updated: current subtask completed."))
            },
            ReviseDecision::AdvanceTo => match parsed.target_subtask_idx {
                None => Err(
                    text(
                        "Invalid revise_plan arguments: target_subtask_idx is required for advance_to.",
                    ),
                ),
                Some(idx) => match plan.advance_to(idx) {
                    Ok(_) => Ok(text("Plan updated: advanced to requested subtask.")),
                    Err(e) => Err(e),
                },
            },
            ReviseDecision::MarkBlocked => match parsed.target_subtask_idx {
                None => Err(
                    text(
                        "Invalid revise_plan arguments: target_subtask_idx is required for mark_blocked.",
                    ),
                ),
                Some(idx) => match plan.mark_blocked(idx) {
                    Ok(_) => Ok(text("Plan updated: subtask marked blocked.")),
                    Err(e) => Err(e),
                },
            },
            ReviseDecision::ReplacePlan => match &parsed.new_subtasks {
                None => Err(
                    text("Invalid revise_plan arguments: new_subtasks is required for replace_plan."),
                ),
                Some(subtasks) => {
                    *plan = TurnPlan::new(subtasks);
                    Ok(text("Plan replaced."))
                },
            },
        }
    }

    /// Answers a plan revision. A refused revision leaves the state as it was.
    pub fn handle_revise_plan(
        &mut self,
        call_id: &str,
        args: Result<RevisePlanArgs, String>,
        iteration: u32,
    ) -> (r: ToolObservation)
        ensures
            final(self)@ == old(self)@.revise(revision(args), iteration),
            final(self)@.wf(),
            r.deep_view() == rejected(
                call_id@,
                REVISE_PLAN_TOOL_NAME@,
                old(self)@.revise_reply(revision(args), iteration).0,
                old(self)@.revise_reply(revision(args), iteration).1,
            ),
    {
        proof {
            use_type_invariant(&*self);
        }
        let mut active: Option<TurnPlan> = None;
        std::mem::swap(&mut active, &mut self.plan);
        let outcome = match &mut active {
            None => Err(text("No plan is active. Use propose_plan before revise_plan.")),
            Some(plan) => match &args {
                Err(error) => {
                    let mut s = text("Invalid revise_plan arguments: ");
                    put(&mut s, error.as_str());
                    Err(s)
                },
                Ok(parsed) => HarnessTurnState::revise_active(plan, parsed),
            },
        };
        self.plan = active;
        match outcome {
            Ok(line) => {
                self.plan_last_revised_iteration = iteration;
                let ack = self.render_plan_ack(line.as_str());
                ToolObservation::pre_execution(
                    call_id,
                    REVISE_PLAN_TOOL_NAME,
                    ack.as_str(),
                    ToolObservationKind::Success,
                )
            },
            Err(message) => ToolObservation::pre_execution(
                call_id,
                REVISE_PLAN_TOOL_NAME,
                message.as_str(),
                ToolObservationKind::SoftError,
            ),
        }
    }

    /// The prompt that reminds the model of its plan, if there is one.
    pub fn render_plan_prompt(&self) -> (r: Option<String>)
        ensures
            r.deep_view() == self@.plan_prompt(),
    {
        proof {
            use_type_invariant(self);
        }
        match &self.plan {
            Some(plan) => {
                let mut s = plan.render("Current plan:");
                put(
                    &mut s,
                    "\n\nYou may continue the current subtask, call revise_plan to update progress or direction, or call final_answer when the overall plan is complete.",
                );
                Some(s)
            },
            None => None,
        }
    }

    /// Takes the advisory that is due, if one is: at most one in a turn.
    pub fn take_disorder_advisory(&mut self) -> (r: Option<(DisorderSignal, String)>)
        ensures
            final(self)@ == old(self)@.take_advisory(),
            final(self)@.wf(),
            match r {
                Some((signal, advisory)) => old(self)@.advisory_due() && old(self)@.pending == Some(
                    signal,
                ) && advisory@ == old(self)@.advisory(signal),
                None => !old(self)@.advisory_due(),
            },
    {
        proof {
            use_type_invariant(&*self);
        }
        if self.disorder_advisory_injected {
            return None;
        }
        match self.disorder_advisory_pending {
            None => None,
            Some(signal) => {
                let advisory = self.render_disorder_advisory(signal);
                self.disorder_advisory_pending = None;
                self.disorder_advisory_injected = true;
                self.disorder_advisory_awaiting_response = true;
                Some((signal, advisory))
            },
        }
    }

    /// Notes the model's first reply after the advisory; tells whether that
    /// reply ignored it.
    pub fn note_llm_response_after_advisory(&mut self, used_plan_tool: bool) -> (r: bool)
        ensures
            r == (old(self)@.awaiting && !used_plan_tool),
            final(self)@ == (TurnStateV { awaiting: false, ..old(self)@ }),
            final(self)@.wf(),
    {
        proof {
            use_type_invariant(&*self);
        }
        if !self.disorder_advisory_awaiting_response {
            return false;
        }
        self.disorder_advisory_awaiting_response = false;
        !used_plan_tool
    }

    /// Notes one tool call.
    fn record_tool_call(&mut self, name: &String)
        ensures
            final(self)@ == old(self)@.call_tool(name@),
    {
        proof {
            use_type_invariant(&*self);
        }
        if is_text(&self.last_tool_name, name.as_str()) {
            self.consecutive_same_tool = self.consecutive_same_tool.saturating_add(1);
        } else {
            self.last_tool_name = Some(name.clone());
            self.consecutive_same_tool = 1;
        }
        if self.consecutive_same_tool >= 4 {
            self.mark_disorder(DisorderSignal::ConsecutiveSameTool);
        }
    }

    /// Notes a batch of tool calls: they count against the plan's current
    /// subtask, and four calls of one tool in a row are a signal.
    pub fn record_tool_calls(&mut self, tool_names: &Vec<String>)
        ensures
            final(self)@ == old(self)@.record_tool_calls(tool_names.deep_view()),
            final(self)@.wf(),
    {
        proof {
            use_type_invariant(&*self);
        }
        let ghost names = tool_names.deep_view();
        let mut exhausted = false;
        let count: u32 = ((tool_names.len() as u64) % 0x1_0000_0000) as u32;
        let mut active: Option<TurnPlan> = None;
        std::mem::swap(&mut active, &mut self.plan);
        if let Some(plan) = &mut active {
            exhausted = plan.record_tool_calls(count);
        }
        self.plan = active;
        if exhausted {
            self.mark_disorder(DisorderSignal::SubtaskBudget);
        }
        let ghost charged = self@;
        let mut i: usize = 0;
        proof {
            assert(names.take(0) =~= Seq::<Seq<char>>::empty());
            assert(charged == old(self)@.charge_plan(batch_size(names.len())));
        }
        while i < tool_names.len()
            invariant
                i <= tool_names@.len(),
                names == tool_names.deep_view(),
                self@ == charged.call_tools(names.take(i as int)),
                self@.wf(),
            decreases tool_names@.len() - i,
        {
            proof {
                assert(names.take(i + 1).drop_last() =~= names.take(i as int));
                assert(names.take(i + 1).last() == tool_names@[i as int]@);
            }
            self.record_tool_call(&tool_names[i]);
            i = i + 1;
        }
        proof {
            assert(names.take(names.len() as int) =~= names);
        }
    }

    /// Notes a batch of observations: three errors among the last five are a
    /// signal.
    pub fn record_observations(&mut self, observations: &Vec<ToolObservation>)
        ensures
            final(self)@ == old(self)@.record_observations(observations.deep_view()),
            final(self)@.wf(),
    {
        proof {
            use_type_invariant(&*self);
        }
        let ghost obs = observations.deep_view();
        let mut recent: VecDeque<bool> = VecDeque::new();
        std::mem::swap(&mut recent, &mut self.recent_observation_errors);
        let mut i: usize = 0;
        proof {
            assert(obs.take(0) =~= Seq::<ObservationV>::empty());
        }
        while i < observations.len()
            invariant
                i <= observations@.len(),
                obs == observations.deep_view(),
                recent@ == slide_all(old(self)@.window, obs.take(i as int)),
                recent@.len() <= ERROR_WINDOW,
            decreases observations@.len() - i,
        {
            proof {
                assert(obs.take(i + 1).drop_last() =~= obs.take(i as int));
                assert(obs.take(i + 1).last() == observations@[i as int].deep_view());
            }
            if recent.len() == ERROR_WINDOW {
                let _ = recent.pop_front();
            }
            recent.push_back(observations[i].kind.is_error());
            proof {
                assert(recent@ =~= slide_all(old(self)@.window, obs.take(i + 1)));
            }
            i = i + 1;
        }
        proof {
            assert(obs.take(obs.len() as int) =~= obs);
        }
        self.recent_observation_errors = recent;
        if self.recent_observation_errors.len() == ERROR_WINDOW {
            let mut errors: usize = 0;
            let mut j: usize = 0;
            let ghost window = self@.window;
            proof {
                assert(window.take(0) =~= Seq::<bool>::empty());
            }
            while j < self.recent_observation_errors.len()
                invariant
                    j <= window.len(),
                    window == self.recent_observation_errors@,
                    errors == error_count(window.take(j as int)),
                    errors <= j,
                decreases window.len() - j,
            {
                proof {
                    assert(window.take(j + 1).drop_last() =~= window.take(j as int));
                }
                if self.recent_observation_errors[j] {
                    errors = errors + 1;
                }
                j = j + 1;
            }
            proof {
                assert(window.take(window.len() as int) =~= window);
            }
            if errors >= 3 {
                self.mark_disorder(DisorderSignal::ToolErrorRate);
            }
        }
    }

    /// Notes what the model wrote: voiced doubt is a signal.
    pub fn record_model_content(&mut self, content: &str)
        ensures
            final(self)@ == old(self)@.record_model_content(content@),
            final(self)@.wf(),
    {
        proof {
            use_type_invariant(&*self);
        }
        if text_voices_doubt(content) {
            self.mark_disorder(DisorderSignal::SelfDoubt);
        }
    }

    /// Notes an answer of the model: what it wrote and which tools it called, besides
    /// the plan's own. Tells whether it is the first one after the advisory and left
    /// the plan alone.
    pub fn note_answer(&mut self, response: &LLMResponse) -> (r: bool)
        ensures
            r == (old(self)@.awaiting && !plans(response.tool_calls.deep_view())),
            final(self)@ == old(self)@.note_answer(
                response.content@,
                response.tool_calls.deep_view(),
            ),
            final(self)@.wf(),
    {
        proof {
            use_type_invariant(&*self);
        }
        let ghost calls = response.tool_calls.deep_view();
        let mut names: Vec<String> = Vec::new();
        let mut planned = false;
        let mut i: usize = 0;
        proof {
            assert(calls.take(0) =~= Seq::<CallV>::empty());
        }
        while i < response.tool_calls.len()
            invariant
                i <= response.tool_calls@.len(),
                calls == response.tool_calls.deep_view(),
                names.deep_view() == called_tools(calls.take(i as int)),
                planned == plans(calls.take(i as int)),
            decreases response.tool_calls@.len() - i,
        {
            let ghost before = names.deep_view();
            let call = &response.tool_calls[i];
            proof {
                assert(calls[i as int] == call.deep_view());
                assert(calls.take(i + 1).drop_last() =~= calls.take(i as int));
                assert(calls.take(i + 1).last() == calls[i as int]);
                assert forall|j: int| 0 <= j < i implies #[trigger] calls.take(i + 1)[j]
                    == calls.take(i as int)[j] by {}
            }
            if route_call(call.name.as_str()) == CallRoute::Tool {
                names.push(call.name.clone());
                proof {
                    assert(names.deep_view() =~= before.push(calls[i as int].name));
                    if plans(calls.take(i + 1)) {
                        let j = choose|j: int|
                            0 <= j < i + 1 && !(call_route(
                                (#[trigger] calls.take(i + 1)[j]).name,
                            ) is Tool);
                        assert(calls.take(i as int)[j] == calls.take(i + 1)[j]);
                    }
                    if plans(calls.take(i as int)) {
                        let j = choose|j: int|
                            0 <= j < i && !(call_route(
                                (#[trigger] calls.take(i as int)[j]).name,
                            ) is Tool);
                        assert(calls.take(i as int)[j] == calls.take(i + 1)[j]);
                    }
                }
            } else {
                planned = true;
                proof {
                    assert(!(call_route(calls.take(i + 1)[i as int].name) is Tool));
                }
            }
            i = i + 1;
        }
        proof {
            assert(calls.take(calls.len() as int) =~= calls);
        }
        let ignored = self.note_llm_response_after_advisory(planned);
        self.record_model_content(response.content.as_str());
        self.record_tool_calls(&names);
        ignored
    }

    /// Notes that the loop guard reacted.
    pub fn record_loop_guard_signal(&mut self)
        ensures
            final(self)@ == old(self)@.mark(DisorderSignal::LoopGuard),
            final(self)@.wf(),
    {
        proof {
            use_type_invariant(&*self);
        }
        self.mark_disorder(DisorderSignal::LoopGuard);
    }

    /// Notes a plan that was left alone for six iterations or more.
    pub fn check_plan_stagnation(&mut self, iteration: u32)
        ensures
            final(self)@ == old(self)@.check_plan_stagnation(iteration),
            final(self)@.wf(),
    {
        proof {
            use_type_invariant(&*self);
        }
        if self.plan.is_some() && iteration.saturating_sub(self.plan_last_revised_iteration) >= 6 {
            self.mark_disorder(DisorderSignal::PlanStagnation);
        }
    }
}

impl TurnStateV {
    /// The prompt that reminds the model of its plan.
    pub open spec fn plan_prompt(self) -> Option<Seq<char>> {
        match self.plan {
            Some(p) => Some(
                p.render("Current plan:"@)
                    + "\n\nYou may continue the current subtask, call revise_plan to update progress or direction, or call final_answer when the overall plan is complete."@,
            ),
            None => None,
        }
    }
}

/// The tools that an answer calls, besides those that speak of the plan.
pub open spec fn called_tools(calls: Seq<CallV>) -> Seq<Seq<char>>
    decreases calls.len(),
{
    if calls.len() == 0 {
        seq![]
    } else {
        let rest = called_tools(calls.drop_last());
        if call_route(calls.last().name) is Tool {
            rest.push(calls.last().name)
        } else {
            rest
        }
    }
}

/// Whether an answer proposes or revises a plan.
pub open spec fn plans(calls: Seq<CallV>) -> bool {
    exists|i: int| 0 <= i < calls.len() && !(call_route((#[trigger] calls[i]).name) is Tool)
}

impl TurnStateV {
    /// The state after an answer of the model.
    pub open spec fn note_answer(self, content: Seq<char>, calls: Seq<CallV>) -> TurnStateV {
        self.step(TurnStep::Reply).step(TurnStep::Content(content)).step(
            TurnStep::Calls(called_tools(calls)),
        )
    }
}

/// One thing that happens to the state within a turn.
pub enum TurnStep {
    Calls(Seq<Seq<char>>),
    Observations(Seq<ObservationV>),
    Content(Seq<char>),
    LoopGuard,
    StagnationCheck(u32),
    Propose(Result<Seq<ProposedV>, Seq<char>>, u32),
    Revise(Result<ReviseV, Seq<char>>, u32),
    TakeAdvisory,
    Reply,
}

impl TurnStateV {
    /// The state after one step.
    pub open spec fn step(self, e: TurnStep) -> TurnStateV {
        match e {
            TurnStep::Calls(names) => self.record_tool_calls(names),
            TurnStep::Observations(obs) => self.record_observations(obs),
            TurnStep::Content(content) => self.record_model_content(content),
            TurnStep::LoopGuard => self.mark(DisorderSignal::LoopGuard),
            TurnStep::StagnationCheck(iteration) => self.check_plan_stagnation(iteration),
            TurnStep::Propose(args, iteration) => self.propose(args, iteration),
            TurnStep::Revise(args, iteration) => self.revise(args, iteration),
            TurnStep::TakeAdvisory => self.take_advisory(),
            TurnStep::Reply => TurnStateV { awaiting: false, ..self },
        }
    }

    /// The state after a sequence of steps.
    pub open spec fn run_steps(self, steps: Seq<TurnStep>) -> TurnStateV
        decreases steps.len(),
    {
        if steps.len() == 0 {
            self
        } else {
            self.run_steps(steps.drop_last()).step(steps.last())
        }
    }
}

/// Tool calls note signals as [`TurnStateV::mark`] does and leave the plan and
/// the error window alone.
proof fn lemma_call_tools(s: TurnStateV, names: Seq<Seq<char>>)
    ensures
        s.call_tools(names).injected == s.injected,
        s.call_tools(names).awaiting == s.awaiting,
        s.call_tools(names).plan == s.plan,
        s.call_tools(names).window == s.window,
        s.call_tools(names).last_revised == s.last_revised,
        s.pending is Some ==> s.call_tools(names).pending == s.pending,
        s.injected ==> s.call_tools(names).pending == s.pending,
    decreases names.len(),
{
    if names.len() > 0 {
        lemma_call_tools(s, names.drop_last());
    }
}

/// A turn sees at most one advisory: once one was given, none becomes due again,
/// whatever happens.
pub proof fn law_one_advisory_per_turn(s: TurnStateV, steps: Seq<TurnStep>)
    requires
        s.injected,
    ensures
        s.run_steps(steps).injected,
        !s.run_steps(steps).advisory_due(),
    decreases steps.len(),
{
    if steps.len() > 0 {
        let t = s.run_steps(steps.drop_last());
        law_one_advisory_per_turn(s, steps.drop_last());
        if let TurnStep::Calls(names) = steps.last() {
            lemma_call_tools(t.charge_plan(batch_size(names.len())), names);
        }
    }
}

/// Taking the due advisory uses it up: right after it none is due.
pub proof fn law_advisory_is_taken(s: TurnStateV)
    ensures
        !s.take_advisory().advisory_due(),
        s.advisory_due() ==> s.take_advisory().injected && s.take_advisory().awaiting,
{
}

/// The first signal of a turn is the one that its advisory speaks of: later
/// signals do not replace it.
pub proof fn law_first_signal_stays(s: TurnStateV, steps: Seq<TurnStep>)
    requires
        s.advisory_due(),
        forall|i: int| 0 <= i < steps.len() ==> !(#[trigger] steps[i] is TakeAdvisory),
    ensures
        s.run_steps(steps).advisory_due(),
        s.run_steps(steps).pending == s.pending,
    decreases steps.len(),
{
    if steps.len() > 0 {
        let t = s.run_steps(steps.drop_last());
        assert forall|i: int| 0 <= i < steps.drop_last().len() implies !(
        #[trigger] steps.drop_last()[i] is TakeAdvisory) by {
            assert(steps.drop_last()[i] == steps[i]);
        }
        law_first_signal_stays(s, steps.drop_last());
        assert(!(steps[steps.len() - 1] is TakeAdvisory));
        if let TurnStep::Calls(names) = steps.last() {
            lemma_call_tools(t.charge_plan(batch_size(names.len())), names);
        }
    }
}

/// Without a plan, tool calls never lead to the advisory on a subtask budget.
pub proof fn law_no_budget_without_plan(s: TurnStateV, names: Seq<Seq<char>>)
    requires
        s.plan is None,
        s.pending is None,
    ensures
        s.record_tool_calls(names).pending != Some(DisorderSignal::SubtaskBudget),
    decreases names.len(),
{
    if names.len() > 0 {
        let rest = names.drop_last();
        law_no_budget_without_plan(s, rest);
        lemma_call_tools(s, rest);
    }
}

/// The error window holds the last observations, at most [`ERROR_WINDOW`] of them.
pub proof fn law_window_is_bounded(window: Seq<bool>, obs: Seq<ObservationV>)
    requires
        window.len() <= ERROR_WINDOW,
    ensures
        slide_all(window, obs).len() == (if window.len() + obs.len() > ERROR_WINDOW {
            ERROR_WINDOW as nat
        } else {
            window.len() + obs.len()
        }),
        forall|i: int|
            0 <= i < slide_all(window, obs).len() && i < obs.len() ==> #[trigger] slide_all(
                window,
                obs,
            )[slide_all(window, obs).len() - 1 - i] == (obs[obs.len() - 1 - i].kind
                != ToolObservationKind::Success),
    decreases obs.len(),
{
    if obs.len() > 0 {
        let rest = obs.drop_last();
        law_window_is_bounded(window, rest);
        let w = slide_all(window, rest);
        let x = slide_all(window, obs);
        assert forall|i: int| 0 <= i < x.len() && i < obs.len() implies #[trigger] x[x.len() - 1 - i]
            == (obs[obs.len() - 1 - i].kind != ToolObservationKind::Success) by {
            if i > 0 {
                assert(x[x.len() - 1 - i] == w[w.len() - 1 - (i - 1)]);
                assert(obs[obs.len() - 1 - i] == rest[rest.len() - 1 - (i - 1)]);
            }
        }
    }
}

/// A tool that is called for the fourth time in a row is a signal; a call of another
/// tool starts the count anew.
pub proof fn law_repeated_calls_are_noticed(s: TurnStateV, name: Seq<char>, other: Seq<char>)
    requires
        other != name,
        s.run < u32::MAX,
    ensures
        s.last_tool == Some(name) ==> s.call_tool(name).run == s.run + 1,
        s.last_tool != Some(name) ==> s.call_tool(name).run == 1,
        s.call_tool(name).last_tool == Some(name),
        s.pending is None && !s.injected && s.last_tool == Some(name) && s.run >= 3 ==> s.call_tool(
            name,
        ).pending == Some(DisorderSignal::ConsecutiveSameTool),
        s.pending is None && s.last_tool == Some(name) && s.run < 3 ==> s.call_tool(
            name,
        ).pending is None,
        s.pending is None && s.last_tool == Some(other) ==> s.call_tool(name).pending is None,
        s.call_tools(seq![]) == s,
        s.call_tools(seq![name]) == s.call_tool(name),
        s.call_tools(seq![name, other]) == s.call_tool(name).call_tool(other),
{
    reveal_with_fuel(TurnStateV::call_tools, 3);
    assert(seq![name].drop_last() =~= Seq::<Seq<char>>::empty());
    assert(seq![name, other].drop_last() =~= seq![name]);
}

/// Tool calls are taken one after the other, behind their count for the plan.
pub proof fn law_batches_of_calls(s: TurnStateV, names: Seq<Seq<char>>, name: Seq<char>)
    ensures
        s.call_tools(names.push(name)) == s.call_tools(names).call_tool(name),
        s.plan is None ==> s.record_tool_calls(names) == s.call_tools(names),
        names.len() < 0x1_0000_0000 ==> (s.plan matches Some(p) ==> s.record_tool_calls(names).plan
            == Some(p.record_tool_calls(names.len() as u32))),
        names.len() < 0x1_0000_0000 && s.pending is None && !s.injected ==> (s.plan matches Some(p)
            ==> (p.exhausts(names.len() as u32) ==> s.record_tool_calls(names).pending == Some(
            DisorderSignal::SubtaskBudget,
        ))),
{
    assert(names.push(name).drop_last() =~= names);
    lemma_call_tools(s.charge_plan(batch_size(names.len())), names);
}

/// Errors are a signal where three of the last five results were errors, and only where
/// there were five.
pub proof fn law_errors_are_noticed(s: TurnStateV, obs: Seq<ObservationV>, o: ObservationV)
    requires
        s.window.len() <= 5,
    ensures
        slide_all(s.window, seq![]) == s.window,
        slide_all(s.window, obs.push(o)) == slide(
            slide_all(s.window, obs),
            o.kind != ToolObservationKind::Success,
        ),
        forall|w: Seq<bool>, b: bool|
            w.len() < 5 ==> #[trigger] slide(w, b) == w.push(b),
        forall|w: Seq<bool>, b: bool|
            w.len() == 5 ==> #[trigger] slide(w, b) == w.skip(1).push(b),
        s.record_observations(obs).window == slide_all(s.window, obs),
        s.pending is None && !s.injected ==> (s.record_observations(obs).pending == Some(
            DisorderSignal::ToolErrorRate,
        ) <==> slide_all(s.window, obs).len() == 5 && error_count(slide_all(s.window, obs)) >= 3),
        error_count(seq![]) == 0,
        forall|w: Seq<bool>| #[trigger] error_count(w.push(true)) == error_count(w) + 1,
        forall|w: Seq<bool>| #[trigger] error_count(w.push(false)) == error_count(w),
{
    assert(obs.push(o).drop_last() =~= obs);
    assert forall|w: Seq<bool>, b: bool| w.len() == 5 implies #[trigger] slide(w, b) == w.skip(
        1,
    ).push(b) by {
        assert(w.drop_first() =~= w.skip(1));
    }
    assert forall|w: Seq<bool>| #[trigger] error_count(w.push(true)) == error_count(w) + 1 by {
        assert(w.push(true).drop_last() =~= w);
    }
    assert forall|w: Seq<bool>| #[trigger] error_count(w.push(false)) == error_count(w) by {
        assert(w.push(false).drop_last() =~= w);
    }
}

/// A plan that was left alone for six iterations is a signal, and so is text in which
/// the model voices doubt, in whatever case it is written.
pub proof fn law_other_signs_are_noticed(
    s: TurnStateV,
    iteration: u32,
    before: Seq<char>,
    after: Seq<char>,
)
    requires
        s.pending is None,
        !s.injected,
    ensures
        s.check_plan_stagnation(iteration).pending == Some(DisorderSignal::PlanStagnation)
            <==> s.plan is Some && iteration >= s.last_revised + 6,
        s.check_plan_stagnation(iteration).pending is Some ==> s.check_plan_stagnation(
            iteration,
        ).pending == Some(DisorderSignal::PlanStagnation),
        forall|content: Seq<char>|
            lower(content) == before + "i'm stuck"@ + after || lower(content) == before
                + "let me reconsider"@ + after || lower(content) == before
                + "i'm not sure how to proceed"@ + after || lower(content) == before
                + "let me try a different"@ + after || lower(content) == before
                + "actually, wait"@ + after || lower(content) == before
                + "i don't know what to do next"@ + after ==> (
            #[trigger] s.record_model_content(content)).pending == Some(DisorderSignal::SelfDoubt),
        s.record_model_content(seq![]) == s,
{
    law_texts_hold_their_parts(before, "i'm stuck"@, after, seq![]);
    law_texts_hold_their_parts(before, "let me reconsider"@, after, seq![]);
    law_texts_hold_their_parts(before, "i'm not sure how to proceed"@, after, seq![]);
    law_texts_hold_their_parts(before, "let me try a different"@, after, seq![]);
    law_texts_hold_their_parts(before, "actually, wait"@, after, seq![]);
    law_texts_hold_their_parts(before, "i don't know what to do next"@, after, seq![]);
    lemma_nothing_voices_no_doubt();
}

proof fn lemma_nothing_voices_no_doubt()
    ensures
        !voices_doubt(seq![]),
{
    reveal_strlit("let me reconsider");
    reveal_strlit("i'm not sure how to proceed");
    reveal_strlit("let me try a different");
    reveal_strlit("actually, wait");
    reveal_strlit("i'm stuck");
    reveal_strlit("i don't know what to do next");
    reveal_strlit("\u{8ba9}\u{6211}\u{91cd}\u{65b0}\u{8003}\u{8651}");
    reveal_strlit("\u{6211}\u{4e0d}\u{786e}\u{5b9a}");
    reveal_strlit("\u{8ba9}\u{6211}\u{6362}\u{4e2a}\u{601d}\u{8def}");
    reveal_strlit("\u{6211}\u{6709}\u{70b9}\u{5361}\u{4f4f}");
    reveal_strlit("\u{6211}\u{4e0d}\u{77e5}\u{9053}\u{4e0b}\u{4e00}\u{6b65}");
    assert(lower(Seq::<char>::empty()).len() == 0);
}

/// A proposal starts a plan where there is none, and the model is told the plan; a
/// second one, and one that cannot be read, change nothing and are told so.
pub proof fn law_proposals_are_answered(
    s: TurnStateV,
    subtasks: Seq<ProposedV>,
    e: Seq<char>,
    iteration: u32,
)
    ensures
        s.plan is None ==> {
            &&& s.propose(Ok(subtasks), iteration).plan == Some(new_plan(subtasks))
            &&& s.propose(Ok(subtasks), iteration).last_revised == iteration
            &&& s.propose_reply(Ok(subtasks), iteration) == (
                "Plan accepted."@ + "\n\n"@ + new_plan(subtasks).render("Current plan:"@),
                ToolObservationKind::Success,
            )
            &&& s.propose(Err(e), iteration) == s
            &&& s.propose_reply(Err(e), iteration) == (
                "Invalid propose_plan arguments: "@ + e,
                ToolObservationKind::SoftError,
            )
        },
        s.plan is Some ==> {
            &&& s.propose(Ok(subtasks), iteration) == s
            &&& s.propose_reply(Ok(subtasks), iteration) == (
                "A plan is already active. Use revise_plan to update it."@,
                ToolObservationKind::SoftError,
            )
        },
{
}

/// A revision does to the plan what it asks for, and the model is told the plan as it is
/// then; one that lacks what it needs, or names a subtask that the plan does not have,
/// changes nothing.
pub proof fn law_revisions_are_carried_out(
    s: TurnStateV,
    p: PlanV,
    r: ReviseV,
    iteration: u32,
    e: Seq<char>,
)
    requires
        s.plan == Some(p),
    ensures
        r.decision is CompleteCurrent ==> s.revise(Ok(r), iteration).plan == Some(
            p.complete_current(),
        ),
        r.decision is AdvanceTo ==> (r.target matches Some(i) ==> {
            &&& i < p.subtasks.len() ==> s.revise(Ok(r), iteration).plan == Some(
                p.advance_to(i as int),
            )
            &&& i >= p.subtasks.len() ==> s.revise(Ok(r), iteration) == s
        }),
        r.decision is MarkBlocked ==> (r.target matches Some(i) ==> {
            &&& i < p.subtasks.len() ==> s.revise(Ok(r), iteration).plan == Some(
                p.mark_blocked(i as int),
            )
            &&& i >= p.subtasks.len() ==> s.revise(Ok(r), iteration) == s
        }),
        (r.decision is AdvanceTo || r.decision is MarkBlocked) && r.target is None ==> s.revise(
            Ok(r),
            iteration,
        ) == s && s.revise_reply(Ok(r), iteration).1 is SoftError,
        r.decision is ReplacePlan ==> (r.subtasks matches Some(subtasks) ==> s.revise(
            Ok(r),
            iteration,
        ).plan == Some(new_plan(subtasks))),
        r.decision is ReplacePlan && r.subtasks is None ==> s.revise(Ok(r), iteration) == s
            && s.revise_reply(Ok(r), iteration).1 is SoftError,
        s.revise(Err(e), iteration) == s,
        s.revise_reply(Err(e), iteration) == (
            "Invalid revise_plan arguments: "@ + e,
            ToolObservationKind::SoftError,
        ),
        s.revise_reply(Ok(r), iteration).1 is Success ==> s.revise(
            Ok(r),
            iteration,
        ).last_revised == iteration && (s.revise(Ok(r), iteration).plan matches Some(q) && contains(
            s.revise_reply(Ok(r), iteration).0,
            q.render("Current plan:"@),
        )),
        r.decision is CompleteCurrent ==> s.revise_reply(Ok(r), iteration).1 is Success,
{
    if s.revise_reply(Ok(r), iteration).1 is Success {
        let q = s.revise(Ok(r), iteration).plan.unwrap();
        if let Ok((_, line)) = revised(p, r) {
            lemma_holds_middle(line + "\n\n"@, q.render("Current plan:"@), seq![]);
        }
    }
}

/// Without a plan there is nothing to revise.
pub proof fn law_nothing_to_revise(
    s: TurnStateV,
    args: Result<ReviseV, Seq<char>>,
    iteration: u32,
)
    requires
        s.plan is None,
    ensures
        s.revise(args, iteration) == s,
        s.revise_reply(args, iteration) == (
            "No plan is active. Use propose_plan before revise_plan."@,
            ToolObservationKind::SoftError,
        ),
        s.plan_prompt() is None,
{
}

/// The plan is put before the model at every call, and a budget that is used up earns
/// the advisory that names its subtask; every other signal earns the general one.
pub proof fn law_the_model_is_reminded(s: TurnStateV, p: PlanV, signal: DisorderSignal)
    requires
        s.plan == Some(p),
    ensures
        s.plan_prompt() matches Some(t) && starts_with(t, p.render("Current plan:"@)),
        s.advisory(DisorderSignal::SubtaskBudget) == p.budget_advisory(),
        !(signal is SubtaskBudget) ==> s.advisory(signal) == disorder_advisory(),
        s.pending == Some(signal) && !s.injected ==> s.advisory_due(),
        s.injected || s.pending is None ==> !s.advisory_due(),
{
    let shown = p.render("Current plan:"@);
    let t = s.plan_prompt().unwrap();
    assert(t.subrange(0, shown.len() as int) =~= shown);
}

/// An answer's tool calls are those of tools, in their order; calls that speak of the
/// plan are none, and tell that the model planned.
pub proof fn law_calls_in_answers(calls: Seq<CallV>, call: CallV)
    ensures
        called_tools(seq![]).len() == 0,
        call.name != "propose_plan"@ && call.name != "revise_plan"@ ==> called_tools(
            calls.push(call),
        ) == called_tools(calls).push(call.name) && plans(calls.push(call)) == plans(calls),
        call.name == "propose_plan"@ || call.name == "revise_plan"@ ==> called_tools(
            calls.push(call),
        ) == called_tools(calls) && plans(calls.push(call)),
        !plans(seq![]),
{
    crate::tool_calls::law_calls_are_routed(call.name);
    let all = calls.push(call);
    assert(all.drop_last() =~= calls);
    if plans(calls) {
        let i = choose|i: int|
            0 <= i < calls.len() && !(call_route((#[trigger] calls[i]).name) is Tool);
        assert(!(call_route(all[i].name) is Tool));
    }
    if call.name == "propose_plan"@ || call.name == "revise_plan"@ {
        assert(!(call_route(all[calls.len() as int].name) is Tool));
    } else if plans(all) {
        let i = choose|i: int|
            0 <= i < all.len() && !(call_route((#[trigger] all[i]).name) is Tool);
        assert(i < calls.len());
        assert(!(call_route(calls[i].name) is Tool));
    }
}

/// Every signal has a label of its own.
pub proof fn law_labels_of_signals(signal: DisorderSignal)
    ensures
        signal is ConsecutiveSameTool ==> signal_label(signal) == "consecutive_same_tool"@,
        signal is ToolErrorRate ==> signal_label(signal) == "tool_error_rate"@,
        signal is LoopGuard ==> signal_label(signal) == "loop_guard"@,
        signal is SelfDoubt ==> signal_label(signal) == "self_doubt"@,
        signal is PlanStagnation ==> signal_label(signal) == "plan_stagnation"@,
        signal is SubtaskBudget ==> signal_label(signal) == "subtask_budget"@,
{
}

/// A turn begins without a plan and without signals; an answer counts as the reply to an
/// advisory, then for what it says, then for the tools it calls.
pub proof fn law_answers_are_taken_in(s: TurnStateV, content: Seq<char>, calls: Seq<CallV>)
    ensures
        TurnStateV::initial().plan is None,
        TurnStateV::initial().pending is None,
        !TurnStateV::initial().injected,
        TurnStateV::initial().window.len() == 0,
        TurnStateV::initial().run == 0,
        s.note_answer(content, calls) == (TurnStateV {
            awaiting: false,
            ..s
        }).record_model_content(content).record_tool_calls(called_tools(calls)),
{
}

/// A revision that is refused is told why: what it lacks, or which subtask the plan does
/// not have.
pub proof fn law_refused_revisions_are_explained(
    s: TurnStateV,
    p: PlanV,
    r: ReviseV,
    iteration: u32,
)
    requires
        s.plan == Some(p),
    ensures
        r.decision is AdvanceTo && r.target is None ==> s.revise_reply(Ok(r), iteration).0
            == "Invalid revise_plan arguments: target_subtask_idx is required for advance_to."@,
        r.decision is MarkBlocked && r.target is None ==> s.revise_reply(Ok(r), iteration).0
            == "Invalid revise_plan arguments: target_subtask_idx is required for mark_blocked."@,
        r.decision is ReplacePlan && r.subtasks is None ==> s.revise_reply(Ok(r), iteration).0
            == "Invalid revise_plan arguments: new_subtasks is required for replace_plan."@,
        (r.decision is AdvanceTo || r.decision is MarkBlocked) ==> (r.target matches Some(i) ==> (i
            >= p.subtasks.len() ==> s.revise_reply(Ok(r), iteration) == (
            "Invalid revise_plan target: subtask index "@ + crate::number::decimal(i as nat)
                + " is out of range."@,
            ToolObservationKind::SoftError,
        ))),
        s.plan_prompt() == Some(
            p.render("Current plan:"@)
                + "\n\nYou may continue the current subtask, call revise_plan to update progress or direction, or call final_answer when the overall plan is complete."@,
        ),
{
}

/// Proposals and revisions ask for what their arguments say.
pub proof fn law_arguments_of_plans(p: ProposePlanArgs, r: RevisePlanArgs, e: String, i: int)
    ensures
        proposal(Err(e)) matches Err(why) && why == e@,
        proposal(Ok(p)) matches Ok(subtasks) && subtasks.len() == p.subtasks@.len() && (0 <= i
            < subtasks.len() ==> subtasks[i] == p.subtasks@[i].deep_view()),
        revision(Err(e)) matches Err(why) && why == e@,
        revision(Ok(r)) matches Ok(asked) && {
            &&& asked.decision == r.decision
            &&& asked.target == r.target_subtask_idx
            &&& asked.subtasks is Some <==> r.new_subtasks is Some
            &&& r.new_subtasks matches Some(new) ==> (asked.subtasks matches Some(v) && v.len()
                == new@.len() && (0 <= i < v.len() ==> v[i] == new@[i].deep_view()))
        },
{
}

/// Doubt is noticed in Chinese, too.
pub proof fn law_doubt_is_noticed_in_chinese(
    s: TurnStateV,
    before: Seq<char>,
    after: Seq<char>,
    content: Seq<char>,
)
    requires
        s.pending is None,
        !s.injected,
        lower(content) == before + "\u{8ba9}\u{6211}\u{91cd}\u{65b0}\u{8003}\u{8651}"@ + after
            || lower(content) == before + "\u{6211}\u{4e0d}\u{786e}\u{5b9a}"@ + after || lower(
            content,
        ) == before + "\u{8ba9}\u{6211}\u{6362}\u{4e2a}\u{601d}\u{8def}"@ + after || lower(content)
            == before + "\u{6211}\u{6709}\u{70b9}\u{5361}\u{4f4f}"@ + after || lower(content)
            == before + "\u{6211}\u{4e0d}\u{77e5}\u{9053}\u{4e0b}\u{4e00}\u{6b65}"@ + after,
    ensures
        s.record_model_content(content).pending == Some(DisorderSignal::SelfDoubt),
{
    law_texts_hold_their_parts(
        before,
        "\u{8ba9}\u{6211}\u{91cd}\u{65b0}\u{8003}\u{8651}"@,
        after,
        seq![],
    );
    law_texts_hold_their_parts(before, "\u{6211}\u{4e0d}\u{786e}\u{5b9a}"@, after, seq![]);
    law_texts_hold_their_parts(
        before,
        "\u{8ba9}\u{6211}\u{6362}\u{4e2a}\u{601d}\u{8def}"@,
        after,
        seq![],
    );
    law_texts_hold_their_parts(before, "\u{6211}\u{6709}\u{70b9}\u{5361}\u{4f4f}"@, after, seq![]);
    law_texts_hold_their_parts(
        before,
        "\u{6211}\u{4e0d}\u{77e5}\u{9053}\u{4e0b}\u{4e00}\u{6b65}"@,
        after,
        seq![],
    );
}

} // verus!
