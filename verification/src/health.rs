//! The application health report.

use vstd::prelude::*;

verus! {

/// Whether the application is healthy.
#[derive(Clone, Copy, Debug, PartialEq, Eq, Structural)]
pub enum HealthStatusEnum {
    Healthy,
    Unhealthy,
}

/// The health report: status, when it was taken and the application version.
#[derive(Clone, Debug, PartialEq, Eq)]
pub struct HealthStatus {
    pub status: HealthStatusEnum,
    /// RFC 3339 time of the report.
    pub timestamp: String,
    pub version: String,
}

/// A report of a running application: it is healthy at `timestamp`.
pub fn healthy_report(timestamp: String, version: String) -> (r: HealthStatus)
    ensures
        r.status == HealthStatusEnum::Healthy,
        r.timestamp == timestamp,
        r.version == version,
{
    HealthStatus { status: HealthStatusEnum::Healthy, timestamp, version }
}

} // verus!
