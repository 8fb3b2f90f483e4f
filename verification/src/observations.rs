//! How a tool call concluded.
use vstd::prelude::*;

use crate::text::text;

verus! {

/// Coarse classification of how a single tool call concluded.
#[derive(Debug, Clone, Copy, PartialEq, Eq, Hash, Structural)]
pub enum ToolObservationKind {
    /// The tool ran and its content is what the model sees.
    Success,
    /// The tool ran to completion and reported a failure the model can react to.
    SoftError,
    /// The tool failed in a way the model cannot recover from: a timeout, a
    /// panic, a permission violation, an internal error.
    HardError,
    /// The tool was refused before it ran because an approval is missing.
    ApprovalRequired,
}

/// The stable label of a kind, for logs and metrics.
pub open spec fn kind_label(kind: ToolObservationKind) -> Seq<char> {
    match kind {
        ToolObservationKind::Success => "success"@,
        ToolObservationKind::SoftError => "soft_error"@,
        ToolObservationKind::HardError => "hard_error"@,
        ToolObservationKind::ApprovalRequired => "approval_required"@,
    }
}

impl ToolObservationKind {
    /// The stable label of the kind, for logs and metrics.
    pub fn as_label(self) -> (r: &'static str)
        ensures
            r@ == kind_label(self),
    {
        match self {
            ToolObservationKind::Success => "success",
            ToolObservationKind::SoftError => "soft_error",
            ToolObservationKind::HardError => "hard_error",
            ToolObservationKind::ApprovalRequired => "approval_required",
        }
    }

    /// Whether the call did anything but succeed.
    pub fn is_error(self) -> (r: bool)
        ensures
            r == (self != ToolObservationKind::Success),
    {
        !matches!(self, ToolObservationKind::Success)
    }
}

/// Result of one tool call from the agent loop's perspective.
#[derive(Debug)]
pub struct ToolObservation {
    pub call_id: String,
    pub tool_name: String,
    pub content: String,
    pub kind: ToolObservationKind,
    pub elapsed_ms: u64,
    pub pause_for_input: bool,
}

/// The model of a [`ToolObservation`].
pub struct ObservationV {
    pub call_id: Seq<char>,
    pub tool_name: Seq<char>,
    pub content: Seq<char>,
    pub kind: ToolObservationKind,
    pub elapsed_ms: u64,
    pub pause_for_input: bool,
}

impl DeepView for ToolObservation {
    type V = ObservationV;

    open spec fn deep_view(&self) -> ObservationV {
        ObservationV {
            call_id: self.call_id@,
            tool_name: self.tool_name@,
            content: self.content@,
            kind: self.kind,
            elapsed_ms: self.elapsed_ms,
            pause_for_input: self.pause_for_input,
        }
    }
}

/// The observation of a call that was answered without running the tool.
pub open spec fn rejected(
    call_id: Seq<char>,
    tool_name: Seq<char>,
    content: Seq<char>,
    kind: ToolObservationKind,
) -> ObservationV {
    ObservationV { call_id, tool_name, content, kind, elapsed_ms: 0, pause_for_input: false }
}

impl ToolObservation {
    /// An observation with the given fields.
    pub fn new(
        call_id: &str,
        tool_name: &str,
        content: &str,
        kind: ToolObservationKind,
        elapsed_ms: u64,
        pause_for_input: bool,
    ) -> (r: Self)
        ensures
            r.deep_view() == (ObservationV {
                call_id: call_id@,
                tool_name: tool_name@,
                content: content@,
                kind,
                elapsed_ms,
                pause_for_input,
            }),
    {
        ToolObservation {
            call_id: text(call_id),
            tool_name: text(tool_name),
            content: text(content),
            kind,
            elapsed_ms,
            pause_for_input,
        }
    }

    /// An observation of a call that was answered without running the tool: it
    /// took no time and asks for no pause.
    pub fn pre_execution(
        call_id: &str,
        tool_name: &str,
        content: &str,
        kind: ToolObservationKind,
    ) -> (r: Self)
        ensures
            r.deep_view() == rejected(call_id@, tool_name@, content@, kind),
    {
        ToolObservation::new(call_id, tool_name, content, kind, 0, false)
    }
}

impl Clone for ToolObservation {
    fn clone(&self) -> (r: Self)
        ensures
            r.deep_view() == self.deep_view(),
    {
        ToolObservation {
            call_id: self.call_id.clone(),
            tool_name: self.tool_name.clone(),
            content: self.content.clone(),
            kind: self.kind,
            elapsed_ms: self.elapsed_ms,
            pause_for_input: self.pause_for_input,
        }
    }
}

/// A kind has its own label, and only a success is no error. A call that was answered
/// without running is told with its identifier, the tool and the answer.
pub proof fn law_observations_tell_what_became_of_a_call(
    call_id: Seq<char>,
    tool_name: Seq<char>,
    content: Seq<char>,
    kind: ToolObservationKind,
)
    ensures
        kind is Success ==> kind_label(kind) == "success"@,
        kind is SoftError ==> kind_label(kind) == "soft_error"@,
        kind is HardError ==> kind_label(kind) == "hard_error"@,
        kind is ApprovalRequired ==> kind_label(kind) == "approval_required"@,
        rejected(call_id, tool_name, content, kind).call_id == call_id,
        rejected(call_id, tool_name, content, kind).tool_name == tool_name,
        rejected(call_id, tool_name, content, kind).content == content,
        rejected(call_id, tool_name, content, kind).kind == kind,
        rejected(call_id, tool_name, content, kind).elapsed_ms == 0,
        !rejected(call_id, tool_name, content, kind).pause_for_input,
{
}

} // verus!
