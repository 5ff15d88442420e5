//! Health service: uptime and status reporting.
//!
//! Uptime is computed from a start time and a current time, both plain
//! second counts supplied by the caller; the formatted form joins the
//! nonzero day, hour and minute parts with spaces, or reads `< 1m`.

use vstd::prelude::*;

verus! {

use vstd::string::StringExecFns;

use crate::text::spec_decimal;
use crate::text::u64_to_string;

/// The version the health endpoint reports.
pub const APP_VERSION: &'static str = "0.1.0";

/// Health status information.
pub struct HealthStatus {
    pub status: String,
    pub version: String,
    pub uptime_seconds: u64,
    pub uptime_formatted: String,
}

/// The JSON-facing shape of a health report.
pub struct HealthResponse {
    pub status: String,
    pub version: String,
    pub uptime_seconds: u64,
}

/// Seconds elapsed from `start` to `now`; zero when the clock reads earlier
/// than the recorded start.
pub open spec fn spec_uptime(start: u64, now: u64) -> u64 {
    if now >= start {
        (now - start) as u64
    } else {
        0
    }
}

/// The human-readable rendering of an uptime: the nonzero day, hour and
/// minute counts, each with its unit letter, joined by spaces; `< 1m` when
/// all are zero.
pub open spec fn spec_format_uptime(seconds: u64) -> Seq<char> {
    let days = seconds as int / 86400;
    let hours = (seconds as int % 86400) / 3600;
    let minutes = (seconds as int % 3600) / 60;
    let with_days = if days > 0 {
        spec_decimal(days as nat) + "d"@
    } else {
        Seq::<char>::empty()
    };
    let with_hours = if hours > 0 {
        (if with_days.len() > 0 {
            with_days + " "@
        } else {
            with_days
        }) + spec_decimal(hours as nat) + "h"@
    } else {
        with_days
    };
    let with_minutes = if minutes > 0 {
        (if with_hours.len() > 0 {
            with_hours + " "@
        } else {
            with_hours
        }) + spec_decimal(minutes as nat) + "m"@
    } else {
        with_hours
    };
    if with_minutes.len() == 0 {
        "< 1m"@
    } else {
        with_minutes
    }
}

/// Renders an uptime in seconds as days, hours and minutes.
pub fn format_uptime(seconds: u64) -> (formatted: String)
    ensures
        formatted@ == spec_format_uptime(seconds),
{
    let days = seconds / 86400;
    let hours = (seconds % 86400) / 3600;
    let minutes = (seconds % 3600) / 60;

    let mut out = String::new();
    if days > 0 {
        out.append(u64_to_string(days).as_str());
        out.append("d");
    }
    if hours > 0 {
        if !out.as_str().is_empty() {
            out.append(" ");
        }
        out.append(u64_to_string(hours).as_str());
        out.append("h");
    }
    if minutes > 0 {
        if !out.as_str().is_empty() {
            out.append(" ");
        }
        out.append(u64_to_string(minutes).as_str());
        out.append("m");
    }
    if out.as_str().is_empty() {
        out.append("< 1m");
    }
    out
}

/// Health reporting interface, specified against the recorded start time.
pub trait HealthService: Sized {
    /// The recorded start time, in seconds.
    spec fn start(&self) -> u64;

    /// The current status: always healthy, with the uptime relative to
    /// `now` in raw and formatted form.
    fn get_status(&self, now: u64) -> (health: HealthStatus)
        ensures
            health.status@ == "healthy"@,
            health.version@ == APP_VERSION@,
            health.uptime_seconds == spec_uptime(self.start(), now),
            health.uptime_formatted@ == spec_format_uptime(health.uptime_seconds),
    ;
}

/// Default implementation, remembering the startup instant.
pub struct DefaultHealthService {
    start_time: u64,
}

impl DefaultHealthService {
    pub fn new(start_time: u64) -> (service: Self)
        ensures
            service.start() == start_time,
    {
        DefaultHealthService { start_time }
    }
}

impl HealthService for DefaultHealthService {
    closed spec fn start(&self) -> u64 {
        self.start_time
    }

    fn get_status(&self, now: u64) -> (health: HealthStatus) {
        let uptime_seconds = if now >= self.start_time {
            now - self.start_time
        } else {
            0
        };
        HealthStatus {
            status: "healthy".to_owned(),
            version: APP_VERSION.to_owned(),
            uptime_seconds,
            uptime_formatted: format_uptime(uptime_seconds),
        }
    }
}

/// The JSON health payload for a status report: the same fields, copied.
pub fn health_response(health: &HealthStatus) -> (response: HealthResponse)
    ensures
        response.status@ == health.status@,
        response.version@ == health.version@,
        response.uptime_seconds == health.uptime_seconds,
{
    HealthResponse {
        status: health.status.clone(),
        version: health.version.clone(),
        uptime_seconds: health.uptime_seconds,
    }
}

} // verus!
