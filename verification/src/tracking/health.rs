//! The tracker health probe: a `SELECT 1` round trip must give back 1.

use vstd::prelude::*;

use crate::error::TrackingError;

verus! {

/// Result of a healthy probe.
#[derive(Debug, Clone)]
pub struct HealthReport {
    /// What the `SELECT 1` round trip returned.
    pub select_one_returned: i32,
}

/// Judges the value the `SELECT 1` probe returned: healthy when it is 1,
/// otherwise `HealthProbe { expected: 1, got }`.
pub fn probe_report(got: i32) -> (r: Result<HealthReport, TrackingError>)
    ensures
        got == 1 <==> r is Ok,
        r matches Ok(h) ==> h.select_one_returned == 1,
        got != 1 ==> r == Err::<HealthReport, TrackingError>(TrackingError::HealthProbe { expected: 1, got }),
{
    if got != 1 {
        return Err(TrackingError::HealthProbe { expected: 1, got });
    }
    Ok(HealthReport { select_one_returned: got })
}

} // verus!
