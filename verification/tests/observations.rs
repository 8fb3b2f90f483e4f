//! How tool calls conclude.
use zeptoclaw::observations::{ToolObservation, ToolObservationKind};
use zeptoclaw::telemetry_events::{HARNESS_MAX_ITER_REACHED, SYNTHESIS_LEGACY_INVOKED};

#[test]
fn kind_as_label_is_stable() {
    assert_eq!(ToolObservationKind::Success.as_label(), "success");
    assert_eq!(ToolObservationKind::SoftError.as_label(), "soft_error");
    assert_eq!(ToolObservationKind::HardError.as_label(), "hard_error");
    assert_eq!(
        ToolObservationKind::ApprovalRequired.as_label(),
        "approval_required"
    );
}

#[test]
fn kind_is_error_true_for_all_non_success() {
    assert!(!ToolObservationKind::Success.is_error());
    assert!(ToolObservationKind::SoftError.is_error());
    assert!(ToolObservationKind::HardError.is_error());
    assert!(ToolObservationKind::ApprovalRequired.is_error());
}

#[test]
fn new_preserves_fields() {
    let obs = ToolObservation::new(
        "call_42",
        "web_fetch",
        "hello world",
        ToolObservationKind::Success,
        123,
        true,
    );
    assert_eq!(obs.call_id, "call_42");
    assert_eq!(obs.tool_name, "web_fetch");
    assert_eq!(obs.content, "hello world");
    assert_eq!(obs.kind, ToolObservationKind::Success);
    assert_eq!(obs.elapsed_ms, 123);
    assert!(obs.pause_for_input);
}

#[test]
fn pre_execution_defaults_elapsed_and_pause() {
    let obs = ToolObservation::pre_execution(
        "call_1",
        "rm_rf",
        "blocked by hook",
        ToolObservationKind::HardError,
    );
    assert_eq!(obs.elapsed_ms, 0);
    assert!(!obs.pause_for_input);
    assert_eq!(obs.kind, ToolObservationKind::HardError);
    assert_eq!(obs.content, "blocked by hook");
}

#[test]
fn event_names_use_telemetry_namespace() {
    for name in [HARNESS_MAX_ITER_REACHED, SYNTHESIS_LEGACY_INVOKED] {
        assert!(
            name.starts_with("telemetry:"),
            "telemetry custom event must use telemetry:* namespace: {name}"
        );
    }
}
