//! Names of the internal telemetry events. They go to the outer gateway and never
//! to a client.
use vstd::prelude::*;

verus! {

/// A turn used up its tool iterations.
pub const HARNESS_MAX_ITER_REACHED: &'static str = "telemetry:harness_max_iter_reached";
/// A final synthesis was run.
pub const SYNTHESIS_LEGACY_INVOKED: &'static str = "telemetry:synthesis_legacy_invoked";

} // verus!
