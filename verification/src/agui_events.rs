//! Names of the custom UI events.
use vstd::prelude::*;

verus! {

/// A UI surface changed.
pub const A2UI: &'static str = "a2ui";
/// A tool call waits for the user's approval.
pub const APPROVAL_REQUEST: &'static str = "approval_request";
/// The user decided on a tool call.
pub const APPROVAL_RESOLVED: &'static str = "approval_resolved";
/// A file was written or changed.
pub const FILE_ARTIFACT: &'static str = "file_artifact";
/// The model started or finished thinking.
pub const THINKING_STATUS: &'static str = "thinking_status";
/// A tool call started or finished.
pub const TOOL_CALL: &'static str = "tool_call";

} // verus!
