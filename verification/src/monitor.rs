//! Self-monitoring: service health decisions and the GPU thermal check.

use vstd::prelude::*;
use vstd::string::StringExecFns;
use crate::text::{chars_of, decimal, decimal_string, parse_u32, parse_u32_chars, str_eq, string_of, trim, trim_chars};

verus! {

/// The services that the agent watches, with the URL of their health check.
pub const MONITORED_SERVICES: [(&'static str, &'static str); 2] = [
    ("ruvultra-brain.service", "http://127.0.0.1:9876/health"),
    ("ruvultra-embedder.service", "http://127.0.0.1:9877/health"),
];

/// Whether `systemctl --user is-active UNIT` reported the unit active.
pub fn service_is_active(report: &str) -> (r: bool)
    ensures
        r == (trim(report@) == "active"@),
{
    let t = string_of(trim_chars(chars_of(report).as_slice()).as_slice());
    str_eq(t.as_str(), "active")
}

/// What the monitor does about one service.
#[derive(Clone, Copy, PartialEq, Eq, Debug, Structural)]
pub enum ServiceAction {
    /// Active and healthy: nothing.
    Leave,
    /// Not active: restart it, then check whether it came back.
    RestartInactive,
    /// Active but failing its health check: restart it.
    RestartUnhealthy,
}

/// The action for a service; `healthy` counts only when the service is active.
pub fn service_action(active: bool, healthy: bool) -> (r: ServiceAction)
    ensures
        r == if !active {
            ServiceAction::RestartInactive
        } else if !healthy {
            ServiceAction::RestartUnhealthy
        } else {
            ServiceAction::Leave
        },
{
    if !active {
        ServiceAction::RestartInactive
    } else if !healthy {
        ServiceAction::RestartUnhealthy
    } else {
        ServiceAction::Leave
    }
}

/// The issue that the monitor reports for a service after acting: an inactive service
/// that stays inactive is `UNIT down`, an unhealthy one `UNIT was unhealthy`; a service
/// that recovered or was fine reports nothing.
pub fn service_issue(unit: &str, action: ServiceAction, active_after: bool) -> (r: Option<String>)
    ensures
        match action {
            ServiceAction::Leave => r is None,
            ServiceAction::RestartInactive => if active_after {
                r is None
            } else {
                r matches Some(s) && s@ == unit@ + " down"@
            },
            ServiceAction::RestartUnhealthy => r matches Some(s) && s@ == unit@ + " was unhealthy"@,
        },
{
    match action {
        ServiceAction::Leave => None,
        ServiceAction::RestartInactive => {
            if active_after {
                None
            } else {
                let mut s = String::from_str(unit);
                s.append(" down");
                Some(s)
            }
        },
        ServiceAction::RestartUnhealthy => {
            let mut s = String::from_str(unit);
            s.append(" was unhealthy");
            Some(s)
        },
    }
}

/// The GPU temperature in an `nvidia-smi --query-gpu=temperature.gpu` report, when the
/// trimmed report parses.
pub fn parse_gpu_temp(report: &str) -> (r: Option<u32>)
    ensures
        r == parse_u32(trim(report@)),
{
    let t = trim_chars(chars_of(report).as_slice());
    parse_u32_chars(t.as_slice())
}

/// The thermal issue: above 85 C, `GPU TC`.
pub fn thermal_issue(temp: Option<u32>) -> (r: Option<String>)
    ensures
        match temp {
            Some(t) => if t > 85 {
                r matches Some(s) && s@ == "GPU "@ + decimal(t as nat) + "C"@
            } else {
                r is None
            },
            None => r is None,
        },
{
    match temp {
        Some(t) => {
            if t > 85 {
                let mut s = String::from_str("GPU ");
                s.append(decimal_string(t as u64).as_str());
                s.append("C");
                Some(s)
            } else {
                None
            }
        },
        None => None,
    }
}

} // verus!
