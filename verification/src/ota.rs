//! Over-the-air updates: which release is installed and available, and what to do.

use vstd::prelude::*;
use vstd::string::StringExecFns;
use crate::text::{decimal, decimal_string, chars_of, str_eq, string_of, trim, trim_chars};

verus! {

/// The repository whose releases are installed.
pub const REPO: &'static str = "cognitum-one/ruOS";

/// The installed version as recorded, or `unknown`.
pub fn installed_version(recorded: Option<&str>) -> (r: String)
    ensures
        r@ == match recorded {
            Some(v) => v@,
            None => "unknown"@,
        },
{
    match recorded {
        Some(v) => String::from_str(v),
        None => String::from_str("unknown"),
    }
}

/// The latest release tag that `gh release view --json tagName` printed: the trimmed
/// output, nothing when it is empty.
pub fn parse_release_tag(report: &str) -> (r: Option<String>)
    ensures
        match r {
            Some(t) => trim(report@).len() > 0 && t@ == trim(report@),
            None => trim(report@).len() == 0,
        },
{
    let t = trim_chars(chars_of(report).as_slice());
    if t.len() == 0 {
        None
    } else {
        Some(string_of(t.as_slice()))
    }
}

/// What an update run does.
#[derive(Clone, Copy, PartialEq, Eq, Debug, Structural)]
pub enum UpdatePlan {
    /// Report that the installed release is current.
    UpToDate,
    /// Only report that a newer release exists.
    Available,
    /// Download and install the latest release.
    Install,
}

/// The plan: nothing to do when current and not forced; with `check_only` a report of
/// whether an update exists; otherwise install.
pub open spec fn update_plan_of(current: Seq<char>, latest: Seq<char>, check_only: bool, force: bool) -> UpdatePlan {
    if current == latest && !force {
        UpdatePlan::UpToDate
    } else if check_only {
        if current != latest {
            UpdatePlan::Available
        } else {
            UpdatePlan::UpToDate
        }
    } else {
        UpdatePlan::Install
    }
}

/// Decides what an update run does.
pub fn plan_update(current: &str, latest: &str, check_only: bool, force: bool) -> (r: UpdatePlan)
    ensures
        r == update_plan_of(current@, latest@, check_only, force),
{
    let same = str_eq(current, latest);
    if same && !force {
        UpdatePlan::UpToDate
    } else if check_only {
        if !same {
            UpdatePlan::Available
        } else {
            UpdatePlan::UpToDate
        }
    } else {
        UpdatePlan::Install
    }
}

/// The message that an up-to-date or check-only run prints.
pub fn plan_message(plan: UpdatePlan, current: &str, latest: &str) -> (r: String)
    ensures
        r@ == match plan {
            UpdatePlan::Available => "Update available: "@ + current@ + " \u{2192} "@ + latest@,
            _ => "Up to date: "@ + current@,
        },
{
    match plan {
        UpdatePlan::Available => {
            let mut s = String::from_str("Update available: ");
            s.append(current);
            s.append(" \u{2192} ");
            s.append(latest);
            s
        },
        _ => {
            let mut s = String::from_str("Up to date: ");
            s.append(current);
            s
        },
    }
}

/// The release assets to download for an architecture: the core package of that
/// architecture, the base brain and the agent.
pub fn download_patterns(arch: &str) -> (r: Vec<String>)
    ensures
        r@.len() == 3,
        r@[0]@ == "ruos-core_*_"@ + arch@ + ".deb"@,
        r@[1]@ == "ruos-brain-base_*.deb"@,
        r@[2]@ == "ruos-agent_*.deb"@,
{
    let mut core = String::from_str("ruos-core_*_");
    core.append(arch);
    core.append(".deb");
    let mut r: Vec<String> = Vec::new();
    r.push(core);
    r.push(String::from_str("ruos-brain-base_*.deb"));
    r.push(String::from_str("ruos-agent_*.deb"));
    r
}


/// The brain memory that records an installed update, for the audit trail:
/// `ruOS update: FROM -> TO (N packages)`.
pub fn update_record(from: &str, to: &str, packages: usize) -> (r: String)
    ensures
        r@ == "ruOS update: "@ + from@ + " -> "@ + to@ + " ("@ + decimal(packages as nat) + " packages)"@,
{
    let mut r = String::from_str("ruOS update: ");
    r.append(from);
    r.append(" -> ");
    r.append(to);
    r.append(" (");
    r.append(decimal_string(packages as u64).as_str());
    r.append(" packages)");
    r
}

/// A check-only run never installs, and a forced run that is not check-only always does.
pub proof fn lemma_check_only_never_installs(current: Seq<char>, latest: Seq<char>, force: bool)
    ensures
        update_plan_of(current, latest, true, force) != UpdatePlan::Install,
        update_plan_of(current, latest, false, true) == UpdatePlan::Install,
        current == latest ==> update_plan_of(current, latest, true, force) == UpdatePlan::UpToDate,
{
}

} // verus!
