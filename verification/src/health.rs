//! Health scoring: folds one fleet sample into an overall score and a
//! coarse status. The sampling itself is an injectable outside source;
//! the scoring here is pure.

use vstd::prelude::*;

use crate::types::HealthMetrics;

verus! {

/// Health status enumeration.
#[derive(Debug, Clone, PartialEq, Eq, Structural)]
pub enum HealthStatus {
    /// System is healthy
    Healthy,
    /// System is degraded but operational
    Degraded,
    /// System is unhealthy
    Unhealthy,
    /// System is in critical state
    Critical,
}

/// System health checker.
pub struct HealthChecker;

/// The penalty-based health score of one sample, in hundredths of a
/// point on a 0..=100 scale: full marks, less the CPU excess over 80%,
/// the memory excess over 85%, five times the error rate, and a tenth
/// of the response-time excess over half a second, clamped to the
/// scale.
pub open spec fn health_score_of(m: HealthMetrics) -> int {
    let cpu_penalty: int = if m.cpu_usage > 8000 {
        m.cpu_usage - 8000
    } else {
        0
    };
    let mem_penalty: int = if m.memory_usage > 8500 {
        m.memory_usage - 8500
    } else {
        0
    };
    let err_penalty: int = m.error_rate * 5;
    let rt_penalty: int = if m.avg_response_time_ms > 500 {
        (m.avg_response_time_ms - 500) * 10
    } else {
        0
    };
    let raw = 10_000 - cpu_penalty - mem_penalty - err_penalty - rt_penalty;
    if raw < 0 {
        0
    } else if raw > 10_000 {
        10_000
    } else {
        raw
    }
}

/// The status band a score falls in.
pub open spec fn status_of(score: int) -> HealthStatus {
    if score >= 9000 {
        HealthStatus::Healthy
    } else if score >= 7000 {
        HealthStatus::Degraded
    } else if score >= 5000 {
        HealthStatus::Unhealthy
    } else {
        HealthStatus::Critical
    }
}

impl HealthChecker {
    /// Calculate the overall health score of one sample, in hundredths
    /// of a point of the 0..=100 scale.
    pub fn calculate_health_score(metrics: &HealthMetrics) -> (r: u32)
        ensures
            r == health_score_of(*metrics),
            r <= 10_000,
    {
        let cpu_penalty: i128 = if metrics.cpu_usage > 8000 {
            metrics.cpu_usage as i128 - 8000
        } else {
            0
        };
        let mem_penalty: i128 = if metrics.memory_usage > 8500 {
            metrics.memory_usage as i128 - 8500
        } else {
            0
        };
        let err_penalty: i128 = metrics.error_rate as i128 * 5;
        let rt_penalty: i128 = if metrics.avg_response_time_ms > 500 {
            (metrics.avg_response_time_ms as i128 - 500) * 10
        } else {
            0
        };
        let raw: i128 = 10_000 - cpu_penalty - mem_penalty - err_penalty - rt_penalty;
        if raw < 0 {
            0
        } else if raw > 10_000 {
            10_000
        } else {
            raw as u32
        }
    }

    /// Get the status band of a health score given in hundredths of a
    /// point.
    pub fn get_health_status(score: u32) -> (r: HealthStatus)
        ensures
            r == status_of(score as int),
    {
        if score >= 9000 {
            HealthStatus::Healthy
        } else if score >= 7000 {
            HealthStatus::Degraded
        } else if score >= 5000 {
            HealthStatus::Unhealthy
        } else {
            HealthStatus::Critical
        }
    }
}

} // verus!
