//! The plan of one turn: subtasks, their status and their tool budgets.
use vstd::prelude::*;

use crate::number::{decimal, decimal_text};
use crate::split::{join, join_text, law_joined_texts_hold_each};
use crate::text::{contains, put, starts_with, text, trim, trim_text};

verus! {

/// The tool budget of a subtask that declares none.
pub const DEFAULT_TOOL_BUDGET: u32 = 5;
/// The largest number of subtasks that a plan keeps.
pub const MAX_SUBTASKS: usize = 8;
/// The largest tool budget of a subtask.
pub const MAX_TOOL_BUDGET: u32 = 15;

/// The tool budget of a subtask that declares none.
pub fn default_tool_budget() -> (r: u32)
    ensures
        r == DEFAULT_TOOL_BUDGET,
{
    DEFAULT_TOOL_BUDGET
}

/// A subtask as the model proposes it.
#[derive(Debug)]
pub struct ProposedSubtask {
    pub description: String,
    pub acceptance: String,
    pub tool_budget: u32,
}

/// The model of a [`ProposedSubtask`].
pub struct ProposedV {
    pub description: Seq<char>,
    pub acceptance: Seq<char>,
    pub tool_budget: u32,
}

impl DeepView for ProposedSubtask {
    type V = ProposedV;

    open spec fn deep_view(&self) -> ProposedV {
        ProposedV {
            description: self.description@,
            acceptance: self.acceptance@,
            tool_budget: self.tool_budget,
        }
    }
}

/// The state of a subtask.
#[derive(Debug, Clone, Copy, PartialEq, Eq, Structural)]
pub enum SubtaskStatus {
    Pending,
    InProgress,
    Completed,
    Blocked,
}

/// A subtask of a plan.
#[derive(Debug)]
pub struct Subtask {
    pub description: String,
    pub acceptance: String,
    pub tool_budget: u32,
    pub tool_calls_used: u32,
    pub budget_advisory_injected: bool,
    pub status: SubtaskStatus,
}

/// The model of a [`Subtask`].
pub struct SubtaskV {
    pub description: Seq<char>,
    pub acceptance: Seq<char>,
    pub tool_budget: u32,
    pub tool_calls_used: u32,
    pub budget_advisory_injected: bool,
    pub status: SubtaskStatus,
}

impl DeepView for Subtask {
    type V = SubtaskV;

    open spec fn deep_view(&self) -> SubtaskV {
        SubtaskV {
            description: self.description@,
            acceptance: self.acceptance@,
            tool_budget: self.tool_budget,
            tool_calls_used: self.tool_calls_used,
            budget_advisory_injected: self.budget_advisory_injected,
            status: self.status,
        }
    }
}

impl SubtaskV {
    /// The same subtask in another state.
    pub open spec fn with_status(self, status: SubtaskStatus) -> SubtaskV {
        SubtaskV { status, ..self }
    }
}

/// A budget within the bounds that a plan allows.
pub open spec fn clamped_budget(budget: u32) -> u32 {
    if budget < 1 {
        1
    } else if budget > MAX_TOOL_BUDGET {
        MAX_TOOL_BUDGET
    } else {
        budget
    }
}

/// The pending subtask that a proposal becomes.
pub open spec fn accepted(p: ProposedV) -> SubtaskV {
    SubtaskV {
        description: trim(p.description),
        acceptance: trim(p.acceptance),
        tool_budget: clamped_budget(p.tool_budget),
        tool_calls_used: 0,
        budget_advisory_injected: false,
        status: SubtaskStatus::Pending,
    }
}

impl Subtask {
    /// The pending subtask that a proposal becomes: trimmed, with a budget
    /// within bounds.
    pub fn from_proposed(value: &ProposedSubtask) -> (r: Self)
        ensures
            r.deep_view() == accepted(value.deep_view()),
    {
        let budget: u32 = if value.tool_budget < 1 {
            1
        } else if value.tool_budget > MAX_TOOL_BUDGET {
            MAX_TOOL_BUDGET
        } else {
            value.tool_budget
        };
        Subtask {
            description: trim_text(value.description.as_str()),
            acceptance: trim_text(value.acceptance.as_str()),
            tool_budget: budget,
            tool_calls_used: 0,
            budget_advisory_injected: false,
            status: SubtaskStatus::Pending,
        }
    }
}

/// The plan of one turn.
#[derive(Debug)]
pub struct TurnPlan {
    pub subtasks: Vec<Subtask>,
    pub current_subtask_idx: usize,
}

/// The model of a [`TurnPlan`].
#[verifier::ext_equal]
pub struct PlanV {
    pub subtasks: Seq<SubtaskV>,
    pub current: int,
}

impl DeepView for TurnPlan {
    type V = PlanV;

    open spec fn deep_view(&self) -> PlanV {
        PlanV { subtasks: self.subtasks.deep_view(), current: self.current_subtask_idx as int }
    }
}

/// The first pending subtask.
pub open spec fn first_pending(s: Seq<SubtaskV>, from: int) -> Option<int>
    decreases s.len() - from,
{
    if from < 0 || from >= s.len() {
        None
    } else if s[from].status == SubtaskStatus::Pending {
        Some(from)
    } else {
        first_pending(s, from + 1)
    }
}

impl PlanV {
    /// What every plan keeps: it has between one and [`MAX_SUBTASKS`] subtasks,
    /// the current one is one of them, no other is in progress, and budgets are
    /// within bounds.
    pub open spec fn wf(self) -> bool {
        &&& 1 <= self.subtasks.len() <= MAX_SUBTASKS
        &&& 0 <= self.current < self.subtasks.len()
        &&& forall|i: int|
            0 <= i < self.subtasks.len() ==> {
                &&& 1 <= (#[trigger] self.subtasks[i]).tool_budget <= MAX_TOOL_BUDGET
                &&& self.subtasks[i].status == SubtaskStatus::InProgress ==> i == self.current
            }
    }

    /// The plan with another status for one subtask.
    pub open spec fn set_status(self, i: int, status: SubtaskStatus) -> PlanV {
        PlanV {
            subtasks: self.subtasks.update(i, self.subtasks[i].with_status(status)),
            current: self.current,
        }
    }

    /// The plan in which the first pending subtask, if any, is in progress.
    pub open spec fn start_next(self) -> PlanV {
        match first_pending(self.subtasks, 0) {
            Some(i) => PlanV {
                current: i,
                ..self.set_status(i, SubtaskStatus::InProgress)
            },
            None => self,
        }
    }

    /// The plan after its current subtask is done.
    pub open spec fn complete_current(self) -> PlanV {
        self.set_status(self.current, SubtaskStatus::Completed).start_next()
    }

    /// The plan with another current subtask.
    pub open spec fn advance_to(self, idx: int) -> PlanV {
        let paused = if self.subtasks[self.current].status == SubtaskStatus::InProgress {
            self.set_status(self.current, SubtaskStatus::Pending)
        } else {
            self
        };
        PlanV { current: idx, ..paused.set_status(idx, SubtaskStatus::InProgress) }
    }

    /// The plan with one subtask blocked; if that was the current one, the next
    /// pending one starts.
    pub open spec fn mark_blocked(self, idx: int) -> PlanV {
        let blocked = self.set_status(idx, SubtaskStatus::Blocked);
        if idx == self.current {
            blocked.start_next()
        } else {
            blocked
        }
    }

    /// The tool calls of the current subtask after `count` more.
    pub open spec fn used_after(self, count: u32) -> u32 {
        let used = self.subtasks[self.current].tool_calls_used;
        if used + count > u32::MAX {
            u32::MAX
        } else {
            (used + count) as u32
        }
    }

    /// Whether `count` more tool calls exhaust the current subtask's budget for
    /// the first time.
    pub open spec fn exhausts(self, count: u32) -> bool {
        let cur = self.subtasks[self.current];
        self.used_after(count) >= cur.tool_budget && !cur.budget_advisory_injected
    }

    /// The plan after `count` more tool calls.
    pub open spec fn record_tool_calls(self, count: u32) -> PlanV {
        let cur = self.subtasks[self.current];
        let next = SubtaskV {
            tool_calls_used: self.used_after(count),
            budget_advisory_injected: cur.budget_advisory_injected || self.exhausts(count),
            ..cur
        };
        PlanV { subtasks: self.subtasks.update(self.current, next), current: self.current }
    }

    /// The advisory for a current subtask whose budget is used up.
    pub open spec fn budget_advisory(self) -> Seq<char> {
        let cur = self.subtasks[self.current];
        "Subtask \""@ + cur.description + "\" has used its declared tool budget ("@ + decimal(
            cur.tool_calls_used as nat,
        ) + " calls used, budget "@ + decimal(cur.tool_budget as nat)
            + "). If you have enough information, call revise_plan with decision=complete_current. If you need more work, you may continue, or call revise_plan with decision=replace_plan to update the budget. This is a suggestion, not a restriction."@
    }

    /// The line of one subtask.
    pub open spec fn line(self, i: int) -> Seq<char> {
        let t = self.subtasks[i];
        "- ["@ + marker(t.status) + "] subtask "@ + decimal((i + 1) as nat) + self.usage(i) + ": "@
            + t.description + " Acceptance: "@ + t.acceptance
    }

    /// The tool usage shown for the current subtask, and for it alone.
    pub open spec fn usage(self, i: int) -> Seq<char> {
        let t = self.subtasks[i];
        if i == self.current {
            " ("@ + decimal(t.tool_calls_used as nat) + "/"@ + decimal(t.tool_budget as nat)
                + " tool calls used)"@
        } else {
            seq![]
        }
    }

    /// The heading and one line for each subtask.
    pub open spec fn render(self, heading: Seq<char>) -> Seq<char> {
        join(
            seq![heading] + Seq::new(self.subtasks.len(), |i: int| self.line(i)),
            "\n"@,
        )
    }
}

/// The mark of a status in a rendered plan.
pub open spec fn marker(status: SubtaskStatus) -> Seq<char> {
    match status {
        SubtaskStatus::Completed => "x"@,
        SubtaskStatus::InProgress => ">"@,
        SubtaskStatus::Blocked => "!"@,
        SubtaskStatus::Pending => " "@,
    }
}

/// The subtasks that a proposal keeps: the first [`MAX_SUBTASKS`], or one
/// general subtask where none is proposed.
pub open spec fn kept_subtasks(p: Seq<ProposedV>) -> Seq<SubtaskV> {
    let n = if p.len() > MAX_SUBTASKS { MAX_SUBTASKS as int } else { p.len() as int };
    if n == 0 {
        seq![
            accepted(
                ProposedV {
                    description: "Complete the user's request."@,
                    acceptance: "A useful final answer is ready."@,
                    tool_budget: DEFAULT_TOOL_BUDGET,
                },
            ),
        ]
    } else {
        Seq::new(n as nat, |i: int| accepted(p[i]))
    }
}

/// The plan that a proposal starts.
pub open spec fn new_plan(p: Seq<ProposedV>) -> PlanV {
    PlanV { subtasks: kept_subtasks(p), current: 0 }.set_status(0, SubtaskStatus::InProgress)
}

/// The refusal of a subtask index that the plan does not have.
pub open spec fn out_of_range(idx: nat) -> Seq<char> {
    "Invalid revise_plan target: subtask index "@ + decimal(idx) + " is out of range."@
}

proof fn lemma_first_pending(s: Seq<SubtaskV>, from: int)
    requires
        0 <= from,
    ensures
        match first_pending(s, from) {
            Some(i) => from <= i < s.len() && s[i].status == SubtaskStatus::Pending && forall|j: int|
                from <= j < i ==> (#[trigger] s[j]).status != SubtaskStatus::Pending,
            None => forall|j: int|
                from <= j < s.len() ==> (#[trigger] s[j]).status != SubtaskStatus::Pending,
        },
    decreases s.len() - from,
{
    if from < s.len() && s[from].status != SubtaskStatus::Pending {
        lemma_first_pending(s, from + 1);
    }
}

impl TurnPlan {
    /// Whether the plan keeps what every plan keeps.
    pub open spec fn wf(&self) -> bool {
        self.deep_view().wf()
    }

    /// Starts a plan from proposed subtasks.
    pub fn new(subtasks: &Vec<ProposedSubtask>) -> (r: Self)
        ensures
            r.deep_view() == new_plan(subtasks.deep_view()),
            r.wf(),
    {
        let mut kept: Vec<Subtask> = Vec::new();
        let n: usize = if subtasks.len() > MAX_SUBTASKS { MAX_SUBTASKS } else { subtasks.len() };
        let mut i: usize = 0;
        while i < n
            invariant
                i <= n <= subtasks@.len(),
                kept@.len() == i,
                forall|j: int|
                    0 <= j < i ==> (#[trigger] kept@[j]).deep_view() == accepted(
                        subtasks@[j].deep_view(),
                    ),
            decreases n - i,
        {
            kept.push(Subtask::from_proposed(&subtasks[i]));
            i = i + 1;
        }
        if n == 0 {
            let general = ProposedSubtask {
                description: text("Complete the user's request."),
                acceptance: text("A useful final answer is ready."),
                tool_budget: DEFAULT_TOOL_BUDGET,
            };
            kept.push(Subtask::from_proposed(&general));
        }
        proof {
            assert(kept.deep_view() =~= kept_subtasks(subtasks.deep_view()));
        }
        let mut plan = TurnPlan { subtasks: kept, current_subtask_idx: 0 };
        plan.set_status(0, SubtaskStatus::InProgress);
        plan
    }

    /// Gives one subtask another status.
    fn set_status(&mut self, i: usize, status: SubtaskStatus)
        requires
            i < old(self).subtasks@.len(),
        ensures
            final(self).deep_view() == old(self).deep_view().set_status(i as int, status),
            final(self).subtasks@.len() == old(self).subtasks@.len(),
    {
        self.subtasks[i].status = status;
        proof {
            assert(self.deep_view() =~= old(self).deep_view().set_status(i as int, status));
        }
    }

    /// Lets the first pending subtask, if any, begin.
    fn start_next(&mut self)
        ensures
            final(self).deep_view() == old(self).deep_view().start_next(),
    {
        let ghost all = self.subtasks.deep_view();
        let mut i: usize = 0;
        while i < self.subtasks.len() && !matches!(self.subtasks[i].status, SubtaskStatus::Pending)
            invariant
                i <= self.subtasks@.len(),
                *self == *old(self),
                all == self.subtasks.deep_view(),
                first_pending(all, 0) == first_pending(all, i as int),
            decreases self.subtasks@.len() - i,
        {
            proof {
                assert(all[i as int].status == self.subtasks@[i as int].status);
            }
            i = i + 1;
        }
        if i < self.subtasks.len() {
            proof {
                assert(all[i as int].status == self.subtasks@[i as int].status);
            }
            self.current_subtask_idx = i;
            self.set_status(i, SubtaskStatus::InProgress);
        }
    }

    /// Marks the current subtask as done and lets the first pending one begin.
    pub fn complete_current(&mut self)
        requires
            old(self).wf(),
        ensures
            final(self).deep_view() == old(self).deep_view().complete_current(),
            final(self).wf(),
    {
        let ghost before = self.deep_view();
        let current: usize = self.current_subtask_idx;
        self.set_status(current, SubtaskStatus::Completed);
        self.start_next();
        proof {
            law_complete_keeps_plan(before);
        }
    }

    /// Makes another subtask the current one; refuses an index that the plan
    /// does not have.
    pub fn advance_to(&mut self, idx: usize) -> (r: Result<(), String>)
        requires
            old(self).wf(),
        ensures
            final(self).wf(),
            idx < old(self).subtasks@.len() ==> r is Ok && final(self).deep_view() == old(
                self,
            ).deep_view().advance_to(idx as int),
            idx >= old(self).subtasks@.len() ==> final(self).deep_view() == old(self).deep_view()
                && (r matches Err(e) && e@ == out_of_range(idx as nat)),
    {
        let ghost before = self.deep_view();
        if idx >= self.subtasks.len() {
            return Err(out_of_range_text(idx));
        }
        let current: usize = self.current_subtask_idx;
        proof {
            assert(before.subtasks[current as int].status == self.subtasks@[current as int].status);
        }
        if matches!(self.subtasks[current].status, SubtaskStatus::InProgress) {
            self.set_status(current, SubtaskStatus::Pending);
        }
        self.current_subtask_idx = idx;
        self.set_status(idx, SubtaskStatus::InProgress);
        proof {
            law_advance_keeps_plan(before, idx as int);
        }
        Ok(())
    }

    /// Marks a subtask as blocked; if it was the current one, the first pending
    /// one begins. Refuses an index that the plan does not have.
    pub fn mark_blocked(&mut self, idx: usize) -> (r: Result<(), String>)
        requires
            old(self).wf(),
        ensures
            final(self).wf(),
            idx < old(self).subtasks@.len() ==> r is Ok && final(self).deep_view() == old(
                self,
            ).deep_view().mark_blocked(idx as int),
            idx >= old(self).subtasks@.len() ==> final(self).deep_view() == old(self).deep_view()
                && (r matches Err(e) && e@ == out_of_range(idx as nat)),
    {
        let ghost before = self.deep_view();
        if idx >= self.subtasks.len() {
            return Err(out_of_range_text(idx));
        }
        self.set_status(idx, SubtaskStatus::Blocked);
        if idx == self.current_subtask_idx {
            self.start_next();
        }
        proof {
            law_block_keeps_plan(before, idx as int);
        }
        Ok(())
    }

    /// Counts tool calls against the current subtask; tells whether they use up
    /// its budget for the first time.
    pub fn record_tool_calls(&mut self, count: u32) -> (r: bool)
        requires
            old(self).wf(),
        ensures
            r == old(self).deep_view().exhausts(count),
            final(self).deep_view() == old(self).deep_view().record_tool_calls(count),
            final(self).wf(),
    {
        let ghost before = self.deep_view();
        let i: usize = self.current_subtask_idx;
        proof {
            assert(before.subtasks[i as int] == self.subtasks@[i as int].deep_view());
        }
        let used: u32 = self.subtasks[i].tool_calls_used.saturating_add(count);
        self.subtasks[i].tool_calls_used = used;
        let hit = used >= self.subtasks[i].tool_budget && !self.subtasks[i].budget_advisory_injected;
        if hit {
            self.subtasks[i].budget_advisory_injected = true;
        }
        proof {
            assert(self.deep_view().subtasks =~= before.record_tool_calls(count).subtasks);
            assert forall|j: int| 0 <= j < self.deep_view().subtasks.len() implies {
                &&& 1 <= (#[trigger] self.deep_view().subtasks[j]).tool_budget <= MAX_TOOL_BUDGET
                &&& self.deep_view().subtasks[j].status == SubtaskStatus::InProgress ==> j
                    == self.deep_view().current
            } by {
                assert(before.subtasks[j].tool_budget >= 1);
            }
        }
        hit
    }

    /// The advisory for a current subtask whose budget is used up.
    pub fn render_budget_advisory(&self) -> (r: String)
        requires
            self.wf(),
        ensures
            r@ == self.deep_view().budget_advisory(),
    {
        let current = &self.subtasks[self.current_subtask_idx];
        let mut s = text("Subtask \"");
        put(&mut s, current.description.as_str());
        put(&mut s, "\" has used its declared tool budget (");
        put(&mut s, decimal_text(current.tool_calls_used as u64).as_str());
        put(&mut s, " calls used, budget ");
        put(&mut s, decimal_text(current.tool_budget as u64).as_str());
        put(
            &mut s,
            "). If you have enough information, call revise_plan with decision=complete_current. If you need more work, you may continue, or call revise_plan with decision=replace_plan to update the budget. This is a suggestion, not a restriction.",
        );
        s
    }

    /// The line of one subtask.
    fn render_line(&self, i: usize) -> (r: String)
        requires
            self.wf(),
            i < self.subtasks@.len(),
        ensures
            r@ == self.deep_view().line(i as int),
    {
        let t = &self.subtasks[i];
        let mut s = text("- [");
        put(
            &mut s,
            match t.status {
                SubtaskStatus::Completed => "x",
                SubtaskStatus::InProgress => ">",
                SubtaskStatus::Blocked => "!",
                SubtaskStatus::Pending => " ",
            },
        );
        put(&mut s, "] subtask ");
        put(&mut s, decimal_text(i as u64 + 1).as_str());
        let mut usage = String::new();
        if i == self.current_subtask_idx {
            usage = text(" (");
            put(&mut usage, decimal_text(t.tool_calls_used as u64).as_str());
            put(&mut usage, "/");
            put(&mut usage, decimal_text(t.tool_budget as u64).as_str());
            put(&mut usage, " tool calls used)");
        }
        proof {
            assert(usage@ =~= self.deep_view().usage(i as int));
        }
        put(&mut s, usage.as_str());
        put(&mut s, ": ");
        put(&mut s, t.description.as_str());
        put(&mut s, " Acceptance: ");
        put(&mut s, t.acceptance.as_str());
        s
    }

    /// The heading and one line for each subtask.
    pub fn render(&self, heading: &str) -> (r: String)
        requires
            self.wf(),
        ensures
            r@ == self.deep_view().render(heading@),
    {
        let mut out: Vec<String> = Vec::new();
        out.push(text(heading));
        let mut i: usize = 0;
        while i < self.subtasks.len()
            invariant
                i <= self.subtasks@.len(),
                self.wf(),
                out@.len() == i + 1,
                out@[0]@ == heading@,
                forall|j: int| 0 <= j < i ==> (#[trigger] out@[j + 1])@ == self.deep_view().line(j),
            decreases self.subtasks@.len() - i,
        {
            out.push(self.render_line(i));
            i = i + 1;
        }
        proof {
            let all = seq![heading@] + Seq::new(
                self.deep_view().subtasks.len(),
                |j: int| self.deep_view().line(j),
            );
            assert forall|k: int| 0 <= k < all.len() implies out.deep_view()[k] == all[k] by {
                if k > 0 {
                    assert(out@[(k - 1) + 1]@ == self.deep_view().line(k - 1));
                }
            }
            assert(out.deep_view() =~= all);
        }
        join_text(&out, "\n")
    }
}

fn out_of_range_text(idx: usize) -> (r: String)
    ensures
        r@ == out_of_range(idx as nat),
{
    let mut s = text("Invalid revise_plan target: subtask index ");
    put(&mut s, decimal_text(idx as u64).as_str());
    put(&mut s, " is out of range.");
    s
}

/// Completing the current subtask keeps a plan well formed.
pub proof fn law_complete_keeps_plan(p: PlanV)
    requires
        p.wf(),
    ensures
        p.complete_current().wf(),
        p.complete_current().subtasks.len() == p.subtasks.len(),
        p.complete_current().subtasks[p.current].status == SubtaskStatus::Completed,
{
    let q = p.set_status(p.current, SubtaskStatus::Completed);
    lemma_first_pending(q.subtasks, 0);
    assert(forall|i: int| 0 <= i < p.subtasks.len() ==> (#[trigger] q.subtasks[i]).tool_budget
        == p.subtasks[i].tool_budget);
}

/// Moving to another subtask keeps a plan well formed: the subtask becomes the
/// only one in progress.
pub proof fn law_advance_keeps_plan(p: PlanV, idx: int)
    requires
        p.wf(),
        0 <= idx < p.subtasks.len(),
    ensures
        p.advance_to(idx).wf(),
        p.advance_to(idx).current == idx,
        p.advance_to(idx).subtasks[idx].status == SubtaskStatus::InProgress,
        p.advance_to(idx).subtasks.len() == p.subtasks.len(),
{
    assert(forall|i: int|
        0 <= i < p.subtasks.len() ==> (#[trigger] p.advance_to(idx).subtasks[i]).tool_budget
            == p.subtasks[i].tool_budget);
}

/// Blocking a subtask keeps a plan well formed.
pub proof fn law_block_keeps_plan(p: PlanV, idx: int)
    requires
        p.wf(),
        0 <= idx < p.subtasks.len(),
    ensures
        p.mark_blocked(idx).wf(),
        p.mark_blocked(idx).subtasks[idx].status == SubtaskStatus::Blocked,
        p.mark_blocked(idx).subtasks.len() == p.subtasks.len(),
{
    let q = p.set_status(idx, SubtaskStatus::Blocked);
    lemma_first_pending(q.subtasks, 0);
    assert(forall|i: int| 0 <= i < p.subtasks.len() ==> (#[trigger] q.subtasks[i]).tool_budget
        == p.subtasks[i].tool_budget);
}

/// What is done to a plan within a turn.
pub enum PlanOp {
    /// The current subtask is done.
    Complete,
    /// Another subtask becomes the current one.
    AdvanceTo(int),
    /// A subtask is blocked.
    MarkBlocked(int),
    /// So many tool calls were made.
    Charge(u32),
}

impl PlanV {
    /// The plan after an operation; a subtask that it does not have changes nothing.
    pub open spec fn apply(self, op: PlanOp) -> PlanV {
        match op {
            PlanOp::Complete => self.complete_current(),
            PlanOp::AdvanceTo(idx) => if 0 <= idx < self.subtasks.len() {
                self.advance_to(idx)
            } else {
                self
            },
            PlanOp::MarkBlocked(idx) => if 0 <= idx < self.subtasks.len() {
                self.mark_blocked(idx)
            } else {
                self
            },
            PlanOp::Charge(count) => self.record_tool_calls(count),
        }
    }

    /// The plan after several operations.
    pub open spec fn apply_all(self, ops: Seq<PlanOp>) -> PlanV
        decreases ops.len(),
    {
        if ops.len() == 0 {
            self
        } else {
            self.apply_all(ops.drop_last()).apply(ops.last())
        }
    }

    /// Whether an operation signals that the budget of a subtask is used up.
    pub open spec fn signals(self, op: PlanOp, i: int) -> bool {
        op matches PlanOp::Charge(count) && self.current == i && self.exhausts(count)
    }

    /// How often several operations signal that the budget of a subtask is used up.
    pub open spec fn signal_count(self, ops: Seq<PlanOp>, i: int) -> nat
        decreases ops.len(),
    {
        if ops.len() == 0 {
            0
        } else {
            self.signal_count(ops.drop_last(), i) + if self.apply_all(ops.drop_last()).signals(
                ops.last(),
                i,
            ) {
                1nat
            } else {
                0nat
            }
        }
    }

    /// Every subtask is marked exactly when its budget is used up.
    pub open spec fn marks_match(self) -> bool {
        forall|i: int|
            0 <= i < self.subtasks.len() ==> ((
            #[trigger] self.subtasks[i]).budget_advisory_injected
                <==> self.subtasks[i].tool_calls_used >= self.subtasks[i].tool_budget)
    }
}

proof fn lemma_apply(p: PlanV, op: PlanOp)
    requires
        p.wf(),
        p.marks_match(),
    ensures
        p.apply(op).wf(),
        p.apply(op).marks_match(),
        p.apply(op).subtasks.len() == p.subtasks.len(),
        forall|i: int|
            0 <= i < p.subtasks.len() ==> ((
            #[trigger] p.apply(op).subtasks[i]).budget_advisory_injected <==> (
            p.subtasks[i].budget_advisory_injected || p.signals(op, i))),
{
    match op {
        PlanOp::Complete => {
            law_complete_keeps_plan(p);
            lemma_first_pending(
                p.set_status(p.current, SubtaskStatus::Completed).subtasks,
                0,
            );
        },
        PlanOp::AdvanceTo(idx) => {
            if 0 <= idx < p.subtasks.len() {
                law_advance_keeps_plan(p, idx);
            }
        },
        PlanOp::MarkBlocked(idx) => {
            if 0 <= idx < p.subtasks.len() {
                law_block_keeps_plan(p, idx);
                lemma_first_pending(p.set_status(idx, SubtaskStatus::Blocked).subtasks, 0);
            }
        },
        PlanOp::Charge(_) => {},
    }
}

/// A plan that starts is well formed, and none of its budgets is used up.
pub proof fn law_plans_start_unmarked(proposed: Seq<ProposedV>)
    ensures
        new_plan(proposed).wf(),
        new_plan(proposed).marks_match(),
        forall|i: int|
            0 <= i < new_plan(proposed).subtasks.len() ==> !(
            #[trigger] new_plan(proposed).subtasks[i]).budget_advisory_injected,
{
}

/// Whatever is done to a plan, and in whatever order, a subtask is marked exactly
/// when its budget is used up, and that is signalled once for each subtask at most:
/// at the moment when it becomes marked.
pub proof fn law_budget_is_signalled_once(p: PlanV, ops: Seq<PlanOp>, i: int)
    requires
        p.wf(),
        p.marks_match(),
        0 <= i < p.subtasks.len(),
    ensures
        p.apply_all(ops).wf(),
        p.apply_all(ops).marks_match(),
        p.apply_all(ops).subtasks.len() == p.subtasks.len(),
        p.signal_count(ops, i) <= 1,
        p.signal_count(ops, i) == 1 <==> (p.apply_all(ops).subtasks[i].budget_advisory_injected
            && !p.subtasks[i].budget_advisory_injected),
        p.subtasks[i].budget_advisory_injected ==> p.apply_all(
            ops,
        ).subtasks[i].budget_advisory_injected,
    decreases ops.len(),
{
    if ops.len() > 0 {
        law_budget_is_signalled_once(p, ops.drop_last(), i);
        let before = p.apply_all(ops.drop_last());
        lemma_apply(before, ops.last());
        assert(before.apply(ops.last()).subtasks[i].budget_advisory_injected <==> (
        before.subtasks[i].budget_advisory_injected || before.signals(ops.last(), i)));
    }
}

/// A subtask that starts after another one was completed has used no tool calls,
/// if none was counted against it before.
pub proof fn law_next_subtask_starts_fresh(p: PlanV)
    requires
        p.wf(),
        forall|i: int|
            0 <= i < p.subtasks.len() && i != p.current ==> (
            #[trigger] p.subtasks[i]).tool_calls_used == 0,
        p.complete_current().current != p.current,
    ensures
        p.complete_current().subtasks[p.complete_current().current].tool_calls_used == 0,
        p.complete_current().subtasks[p.complete_current().current].status
            == SubtaskStatus::InProgress,
{
    let q = p.set_status(p.current, SubtaskStatus::Completed);
    lemma_first_pending(q.subtasks, 0);
}

/// A plan is what was proposed: the first eight subtasks in their order, each with its
/// words, without the white space around them, and with its budget, but with one call at
/// least and fifteen at most. The first one is in progress, the others wait.
pub proof fn law_plans_are_what_was_proposed(proposed: Seq<ProposedV>, i: int)
    requires
        0 <= i < proposed.len(),
        i < 8,
    ensures
        ({
            let p = new_plan(proposed);
            let t = p.subtasks[i];
            &&& p.current == 0
            &&& p.subtasks.len() == (if proposed.len() > 8 {
                8
            } else {
                proposed.len()
            })
            &&& t.description == trim(proposed[i].description)
            &&& t.acceptance == trim(proposed[i].acceptance)
            &&& 1 <= proposed[i].tool_budget <= 15 ==> t.tool_budget == proposed[i].tool_budget
            &&& proposed[i].tool_budget == 0 ==> t.tool_budget == 1
            &&& proposed[i].tool_budget > 15 ==> t.tool_budget == 15
            &&& t.tool_calls_used == 0
            &&& i == 0 ==> t.status is InProgress
            &&& i > 0 ==> t.status is Pending
        }),
{
}

/// Where nothing is proposed the plan is one general subtask.
pub proof fn law_empty_plans_have_one_subtask()
    ensures
        new_plan(seq![]).subtasks.len() == 1,
        new_plan(seq![]).subtasks[0].description == trim("Complete the user's request."@),
        new_plan(seq![]).subtasks[0].tool_budget == 5,
        new_plan(seq![]).subtasks[0].status is InProgress,
{
}

/// When the current subtask is done, the first one that waits is in progress and is the
/// current one; every other subtask stays, and where none waits only the one that is
/// done changes.
pub proof fn law_what_follows_a_subtask(p: PlanV, j: int)
    requires
        p.wf(),
        0 <= j < p.subtasks.len(),
    ensures
        ({
            let q = p.complete_current();
            let waits = j != p.current && p.subtasks[j].status is Pending && forall|k: int|
                0 <= k < j && k != p.current ==> !((#[trigger] p.subtasks[k]).status is Pending);
            &&& q.subtasks.len() == p.subtasks.len()
            &&& q.subtasks[p.current] == (SubtaskV {
                status: SubtaskStatus::Completed,
                ..p.subtasks[p.current]
            })
            &&& waits ==> q.current == j && q.subtasks[j] == (SubtaskV {
                status: SubtaskStatus::InProgress,
                ..p.subtasks[j]
            })
            &&& j != p.current && j != q.current ==> q.subtasks[j] == p.subtasks[j]
            &&& (forall|k: int|
                0 <= k < p.subtasks.len() && k != p.current ==> !((#[trigger] p.subtasks[k]).status
                    is Pending)) ==> q.current == p.current
        }),
{
    let done = p.set_status(p.current, SubtaskStatus::Completed);
    lemma_first_pending(done.subtasks, 0);
    assert(forall|k: int|
        0 <= k < p.subtasks.len() && k != p.current ==> done.subtasks[k] == #[trigger] p.subtasks[k]);
}

/// Advancing makes the given subtask the current one, in progress; the one that was in
/// progress waits again, and every other subtask stays.
pub proof fn law_advancing(p: PlanV, idx: int, j: int)
    requires
        p.wf(),
        0 <= idx < p.subtasks.len(),
        0 <= j < p.subtasks.len(),
    ensures
        ({
            let q = p.advance_to(idx);
            &&& q.current == idx
            &&& q.subtasks.len() == p.subtasks.len()
            &&& q.subtasks[idx] == (SubtaskV {
                status: SubtaskStatus::InProgress,
                ..p.subtasks[idx]
            })
            &&& p.current != idx && p.subtasks[p.current].status is InProgress
                ==> q.subtasks[p.current] == (SubtaskV {
                status: SubtaskStatus::Pending,
                ..p.subtasks[p.current]
            })
            &&& j != idx && (j != p.current || !(p.subtasks[j].status is InProgress))
                ==> q.subtasks[j] == p.subtasks[j]
        }),
{
}

/// Blocking a subtask marks it; where it is not the current one nothing else changes,
/// and where it is, the first one that waits is next.
pub proof fn law_blocking(p: PlanV, idx: int, j: int)
    requires
        p.wf(),
        0 <= idx < p.subtasks.len(),
        0 <= j < p.subtasks.len(),
    ensures
        ({
            let q = p.mark_blocked(idx);
            let waits = j != idx && p.subtasks[j].status is Pending && forall|k: int|
                0 <= k < j && k != idx ==> !((#[trigger] p.subtasks[k]).status is Pending);
            &&& q.subtasks[idx] == (SubtaskV {
                status: SubtaskStatus::Blocked,
                ..p.subtasks[idx]
            })
            &&& idx != p.current ==> q.current == p.current && (j != idx ==> q.subtasks[j]
                == p.subtasks[j])
            &&& idx == p.current && waits ==> q.current == j && q.subtasks[j] == (SubtaskV {
                status: SubtaskStatus::InProgress,
                ..p.subtasks[j]
            })
            &&& j != idx && j != q.current ==> q.subtasks[j] == p.subtasks[j]
        }),
{
    let blocked = p.set_status(idx, SubtaskStatus::Blocked);
    lemma_first_pending(blocked.subtasks, 0);
    assert(forall|k: int|
        0 <= k < p.subtasks.len() && k != idx ==> blocked.subtasks[k] == #[trigger] p.subtasks[k]);
}

/// Tool calls count for the current subtask and for no other; its budget is used up once
/// it has made as many calls as the budget allows.
pub proof fn law_calls_count_for_the_current_subtask(p: PlanV, count: u32, j: int)
    requires
        p.wf(),
        0 <= j < p.subtasks.len(),
    ensures
        ({
            let q = p.record_tool_calls(count);
            let cur = p.subtasks[p.current];
            &&& q.current == p.current
            &&& cur.tool_calls_used + count <= u32::MAX ==> q.subtasks[p.current].tool_calls_used
                == cur.tool_calls_used + count
            &&& q.subtasks[p.current].description == cur.description
            &&& q.subtasks[p.current].status == cur.status
            &&& q.subtasks[p.current].tool_budget == cur.tool_budget
            &&& j != p.current ==> q.subtasks[j] == p.subtasks[j]
            &&& cur.tool_calls_used + count >= cur.tool_budget && !cur.budget_advisory_injected
                <==> p.exhausts(count)
        }),
{
}

/// A plan is shown with a line for each subtask: its mark, its number, its words and
/// when it is done, and for the current one how many of its calls are used.
pub proof fn law_plans_are_shown(p: PlanV, heading: Seq<char>, i: int)
    requires
        p.wf(),
        0 <= i < p.subtasks.len(),
    ensures
        ({
            let t = p.subtasks[i];
            let mark = match t.status {
                SubtaskStatus::Completed => "x"@,
                SubtaskStatus::InProgress => ">"@,
                SubtaskStatus::Blocked => "!"@,
                SubtaskStatus::Pending => " "@,
            };
            let used = if i == p.current {
                " ("@ + decimal(t.tool_calls_used as nat) + "/"@ + decimal(t.tool_budget as nat)
                    + " tool calls used)"@
            } else {
                Seq::<char>::empty()
            };
            &&& contains(
                p.render(heading),
                "- ["@ + mark + "] subtask "@ + decimal((i + 1) as nat) + used + ": "@
                    + t.description + " Acceptance: "@ + t.acceptance,
            )
            &&& contains(p.render(heading), heading)
        }),
{
    let lines = seq![heading] + Seq::new(p.subtasks.len(), |k: int| p.line(k));
    assert(lines[0] == heading);
    assert(lines[i + 1] == p.line(i));
    law_joined_texts_hold_each(lines, "\n"@, 0);
    law_joined_texts_hold_each(lines, "\n"@, i + 1);
}

/// The advisory on a budget names the current subtask, the calls it made and its budget.
pub proof fn law_budget_advisories_name_the_subtask(p: PlanV)
    ensures
        ({
            let cur = p.subtasks[p.current];
            starts_with(
                p.budget_advisory(),
                "Subtask \""@ + cur.description + "\" has used its declared tool budget ("@
                    + decimal(cur.tool_calls_used as nat) + " calls used, budget "@ + decimal(
                    cur.tool_budget as nat,
                ),
            )
        }),
{
    let cur = p.subtasks[p.current];
    let head = "Subtask \""@ + cur.description + "\" has used its declared tool budget ("@
        + decimal(cur.tool_calls_used as nat) + " calls used, budget "@ + decimal(
        cur.tool_budget as nat,
    );
    assert(p.budget_advisory().subrange(0, head.len() as int) =~= head);
}

/// A proposal, a subtask and a plan hold what their models hold.
pub proof fn law_plans_hold_their_subtasks(
    proposed: ProposedSubtask,
    subtask: Subtask,
    plan: TurnPlan,
    i: int,
)
    ensures
        proposed.deep_view().description == proposed.description@,
        proposed.deep_view().acceptance == proposed.acceptance@,
        proposed.deep_view().tool_budget == proposed.tool_budget,
        subtask.deep_view().description == subtask.description@,
        subtask.deep_view().acceptance == subtask.acceptance@,
        subtask.deep_view().tool_budget == subtask.tool_budget,
        subtask.deep_view().tool_calls_used == subtask.tool_calls_used,
        subtask.deep_view().budget_advisory_injected == subtask.budget_advisory_injected,
        subtask.deep_view().status == subtask.status,
        plan.deep_view().current == plan.current_subtask_idx,
        plan.deep_view().subtasks.len() == plan.subtasks@.len(),
        0 <= i < plan.subtasks@.len() ==> plan.deep_view().subtasks[i]
            == plan.subtasks@[i].deep_view(),
{
}

} // verus!
