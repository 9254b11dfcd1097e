//! The agent's heartbeat: which steps run, what the session distiller stores, and the
//! bookkeeping of the embedding backfill.

use vstd::prelude::*;
use vstd::string::StringExecFns;
use vstd::string::StringSliceAdditionalSpecFns;
use crate::clock::{instant_nanos, older_than_minutes, rfc3339_nanos, whole_minutes};
use crate::defence::{ThreatLevel, scan, scan_result};
use crate::encoding::{hex_decode, hex_decoded};
use crate::text::{decimal, decimal_string, join, join_chars, chars_of, prefix_bytes};

verus! {

/// One step of the heartbeat.
#[derive(Clone, Copy, PartialEq, Eq, Debug, Structural)]
pub enum HeartbeatStep {
    /// Check the services and the GPU temperature.
    Monitor,
    /// Choose and apply a GPU profile.
    Profile,
    /// Embed memories that have no vector, when the GPU is idle.
    Backfill,
    /// Run the self-evaluation, when it is due.
    Eval,
}

/// The steps of a heartbeat, in order: only the monitor in a monitor-only run, else the
/// monitor, the profile choice, the backfill and the self-evaluation.
pub open spec fn heartbeat_plan(monitor_only: bool) -> Seq<HeartbeatStep> {
    if monitor_only {
        seq![HeartbeatStep::Monitor]
    } else {
        seq![HeartbeatStep::Monitor, HeartbeatStep::Profile, HeartbeatStep::Backfill, HeartbeatStep::Eval]
    }
}

/// The steps that a heartbeat takes, in order.
pub fn heartbeat_steps(monitor_only: bool) -> (r: Vec<HeartbeatStep>)
    ensures
        r@ == heartbeat_plan(monitor_only),
{
    let mut r: Vec<HeartbeatStep> = Vec::new();
    r.push(HeartbeatStep::Monitor);
    if !monitor_only {
        r.push(HeartbeatStep::Profile);
        r.push(HeartbeatStep::Backfill);
        r.push(HeartbeatStep::Eval);
    }
    assert(r@ =~= heartbeat_plan(monitor_only));
    r
}

/// A monitor-only heartbeat runs nothing but the monitor, and every heartbeat starts
/// with it.
pub proof fn lemma_monitor_only_runs_only_monitor(monitor_only: bool)
    ensures
        heartbeat_plan(monitor_only)[0] == HeartbeatStep::Monitor,
        monitor_only ==> forall|k: int|
            0 <= k < heartbeat_plan(monitor_only).len() ==> #[trigger] heartbeat_plan(monitor_only)[k]
                == HeartbeatStep::Monitor,
{
}

/// The backfill runs when the GPU is below 30 % busy; an unknown utilisation counts as
/// fully busy.
pub fn backfill_due(gpu_util: Option<u32>) -> (r: bool)
    ensures
        r == match gpu_util {
            Some(u) => u < 30,
            None => false,
        },
{
    match gpu_util {
        Some(u) => u < 30,
        None => false,
    }
}

/// The self-evaluation runs when the last one is more than an hour old, when its time
/// does not parse, or when there was none (`last_at` is `None`).
pub fn eval_due(last_at: Option<&str>, now: (i64, u32)) -> (r: bool)
    ensures
        r == match last_at {
            Some(at) => match rfc3339_nanos(at@) {
                Some(t) => whole_minutes(instant_nanos(now) - t) > 60,
                None => true,
            },
            None => true,
        },
{
    match last_at {
        Some(at) => older_than_minutes(at, now, 60),
        None => true,
    }
}

/// The heartbeat's record of the monitor's issues: `monitor: ` and the issues joined by
/// `, `, nothing when there are none.
pub fn monitor_action(issues: &Vec<String>) -> (r: Option<String>)
    ensures
        issues@.len() == 0 ==> r is None,
        issues@.len() > 0 ==> (r matches Some(s) && s@ == "monitor: "@ + join(
            issues@.map_values(|x: String| x@),
            ", "@,
        )),
{
    if issues.len() == 0 {
        return None;
    }
    let mut parts: Vec<Vec<char>> = Vec::new();
    let mut i: usize = 0;
    while i < issues.len()
        invariant
            i <= issues@.len(),
            parts@.len() == i,
            forall|k: int| 0 <= k < i ==> #[trigger] parts@[k]@ == issues@[k]@,
        decreases issues@.len() - i,
    {
        parts.push(chars_of(issues[i].as_str()));
        i = i + 1;
    }
    assert(parts@.map_values(|x: Vec<char>| x@) =~= issues@.map_values(|x: String| x@));
    let mut s = String::from_str("monitor: ");
    s.append(join_chars(&parts, ", ").as_str());
    Some(s)
}

/// The heartbeat's record of a profile recommendation: `profile: → P`, nothing when there
/// is none or it is empty.
pub fn profile_action(recommended: Option<&str>) -> (r: Option<String>)
    ensures
        match recommended {
            Some(p) => if p@.len() > 0 {
                r matches Some(s) && s@ == "profile: \u{2192} "@ + p@
            } else {
                r is None
            },
            None => r is None,
        },
{
    match recommended {
        Some(p) => {
            if p.is_empty() {
                None
            } else {
                let mut s = String::from_str("profile: \u{2192} ");
                s.append(p);
                Some(s)
            }
        },
        None => None,
    }
}

/// The heartbeat's record of a backfill: `backfill: embedded N memories`, nothing when
/// none was embedded.
pub fn backfill_action(embedded: usize) -> (r: Option<String>)
    ensures
        embedded == 0 ==> r is None,
        embedded > 0 ==> (r matches Some(s) && s@ == "backfill: embedded "@ + decimal(embedded as nat)
            + " memories"@),
{
    if embedded == 0 {
        return None;
    }
    let mut s = String::from_str("backfill: embedded ");
    s.append(decimal_string(embedded as u64).as_str());
    s.append(" memories");
    Some(s)
}

/// What the distiller does with an insight.
#[derive(Clone, Copy, PartialEq, Eq, Debug, Structural)]
pub enum DistillStep {
    /// Shorter than 10 bytes: refused.
    TooShort,
    /// It failed the threat scan at this level: not stored.
    Blocked(ThreatLevel),
    /// Store it in the brain.
    Store,
}

/// Decides what becomes of a session insight: under 10 bytes it is refused, text that
/// fails the threat scan is blocked with the scan's level, anything else is stored.
pub fn distill_step(text: &str) -> (r: DistillStep)
    ensures
        text.spec_bytes().len() < 10 ==> r == DistillStep::TooShort,
        text.spec_bytes().len() >= 10 && !scan_result(text@).safe ==> r == DistillStep::Blocked(
            scan_result(text@).threat_level,
        ),
        text.spec_bytes().len() >= 10 && scan_result(text@).safe ==> r == DistillStep::Store,
{
    let len = text.as_bytes().len();
    if len < 10 {
        return DistillStep::TooShort;
    }
    let report = scan(text);
    if !report.safe {
        DistillStep::Blocked(report.threat_level)
    } else {
        DistillStep::Store
    }
}

/// The first 12 bytes of a stored memory's id, as the distiller logs it (the whole id
/// when shorter). The cut must fall on a character boundary.
pub fn id_prefix(id: &str) -> (r: &str)
    requires
        id.spec_bytes().len() <= 12 || vstd::utf8::is_char_boundary(id.spec_bytes(), 12),
    ensures
        r.spec_bytes() == id.spec_bytes().take(
            if id.spec_bytes().len() < 12 {
                id.spec_bytes().len() as int
            } else {
                12
            },
        ),
{
    prefix_bytes(id, 12)
}

/// The share of memories that have a vector, in whole percent, when there are any.
pub fn coverage_percent(vectors: i64, total: i64) -> (r: Option<i64>)
    requires
        total > 0 ==> i64::MIN <= vectors * 100 <= i64::MAX,
    ensures
        total <= 0 ==> r is None,
        total > 0 ==> r == Some(crate::clock::div_toward_zero(vectors * 100, total as int) as i64),
{
    if total > 0 {
        let p = vectors * 100;
        Some(p / total)
    } else {
        None
    }
}

/// Where a content blob lies in the blob store: the directory named by the hash's first
/// two bytes and the file named by the rest. Hashes shorter than 4 bytes have no blob.
/// The cut after two bytes must fall on a character boundary.
pub fn blob_location(hash: &str) -> (r: Option<(&str, &str)>)
    requires
        hash.spec_bytes().len() < 4 || vstd::utf8::is_char_boundary(hash.spec_bytes(), 2),
    ensures
        hash.spec_bytes().len() < 4 ==> r is None,
        hash.spec_bytes().len() >= 4 ==> (r matches Some((d, f)) && d.spec_bytes() == hash.spec_bytes().take(2)
            && f.spec_bytes() == hash.spec_bytes().skip(2)),
{
    let len = hash.as_bytes().len();
    if len < 4 {
        return None;
    }
    let (d, f) = hash.split_at(2);
    assert(d.spec_bytes() =~= hash.spec_bytes().take(2));
    assert(f.spec_bytes() =~= hash.spec_bytes().skip(2));
    Some((d, f))
}

/// A blob's content is worth embedding when it has at least 3 bytes.
pub fn embeddable(content: &str) -> (r: bool)
    ensures
        r == (content.spec_bytes().len() >= 3),
{
    content.as_bytes().len() >= 3
}

/// The id of a memory as bytes, from the hexadecimal text that the database reports.
pub fn decode_memory_id(id_hex: &str) -> (r: Option<Vec<u8>>)
    ensures
        match r {
            Some(v) => hex_decoded(id_hex@) == Some(v@),
            None => hex_decoded(id_hex@) is None,
        },
{
    hex_decode(id_hex)
}

/// After embedding more than 10 memories the brain is restarted to rebuild its index.
pub fn restart_after_backfill(embedded: usize) -> (r: bool)
    ensures
        r == (embedded > 10),
{
    embedded > 10
}

} // verus!
