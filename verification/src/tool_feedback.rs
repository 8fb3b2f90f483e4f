//! Tool execution feedback for display.
use vstd::prelude::*;

verus! {

/// Tool execution feedback event for display.
#[derive(Debug)]
pub struct ToolFeedback {
    /// Name of the tool being executed.
    pub tool_name: String,
    /// Current phase of execution.
    pub phase: ToolFeedbackPhase,
    /// Raw JSON arguments for extracting display hints.
    pub args_json: Option<String>,
}

/// Phase of tool execution feedback.
#[derive(Debug)]
pub enum ToolFeedbackPhase {
    /// The model is processing.
    Thinking,
    /// The model finished thinking.
    ThinkingDone,
    /// Tool execution is starting.
    Starting,
    /// Tool execution completed successfully.
    Done {
        /// Elapsed time in milliseconds.
        elapsed_ms: u64,
    },
    /// Tool execution failed.
    Failed {
        /// Elapsed time in milliseconds.
        elapsed_ms: u64,
        /// Error description.
        error: String,
    },
    /// All tool execution is complete; the final response follows.
    ResponseReady,
}

impl Clone for ToolFeedbackPhase {
    fn clone(&self) -> (r: Self)
        ensures
            r == *self,
    {
        match self {
            ToolFeedbackPhase::Thinking => ToolFeedbackPhase::Thinking,
            ToolFeedbackPhase::ThinkingDone => ToolFeedbackPhase::ThinkingDone,
            ToolFeedbackPhase::Starting => ToolFeedbackPhase::Starting,
            ToolFeedbackPhase::Done { elapsed_ms } => ToolFeedbackPhase::Done {
                elapsed_ms: *elapsed_ms,
            },
            ToolFeedbackPhase::Failed { elapsed_ms, error } => ToolFeedbackPhase::Failed {
                elapsed_ms: *elapsed_ms,
                error: error.clone(),
            },
            ToolFeedbackPhase::ResponseReady => ToolFeedbackPhase::ResponseReady,
        }
    }
}

impl Clone for ToolFeedback {
    fn clone(&self) -> (r: Self)
        ensures
            r.tool_name@ == self.tool_name@,
            r.phase == self.phase,
            r.args_json.deep_view() == self.args_json.deep_view(),
    {
        ToolFeedback {
            tool_name: self.tool_name.clone(),
            phase: self.phase.clone(),
            args_json: self.args_json.clone(),
        }
    }
}

} // verus!
