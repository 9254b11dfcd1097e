//! Auto-profile: reads the GPU state, decides which system profile suits the workload,
//! and checks the decisions that the local language model proposes.

use vstd::prelude::*;
use vstd::string::StringExecFns;
use crate::text::{decimal, decimal_string, join, chars_of, contains, lines, lines_chars, parse_i64, parse_i64_chars, parse_u32, parse_u32_chars, prefix_bytes, split_chars, split_on, str_contains, str_eq, string_of, strip_prefixes, strip_prefixes_chars, strip_suffixes, strip_suffixes_chars, trim, trim_chars};
use vstd::string::StringSliceAdditionalSpecFns;
use crate::defence::{is_safe, scan_result};
use crate::clock::{instant_nanos, older_than_minutes, rfc3339_nanos, whole_minutes};

verus! {

/// The profiles that the agent may switch to.
pub const PROFILES: [&'static str; 4] = [
    "gpu-train",
    "gpu-inference",
    "cognitum-balanced",
    "cognitum-idle",
];

/// The actions that the language model may answer with.
pub const LLM_ACTIONS: [&'static str; 5] = [
    "switch_profile",
    "no_action",
    "alert",
    "restart_service",
    "run_backfill",
];

/// `s` is one of the known profiles.
pub open spec fn is_profile(s: Seq<char>) -> bool {
    exists|i: int| 0 <= i < 4 && PROFILES@[i]@ == s
}

/// `s` is one of the actions that the language model may answer with.
pub open spec fn is_llm_action(s: Seq<char>) -> bool {
    exists|i: int| 0 <= i < 5 && LLM_ACTIONS@[i]@ == s
}

/// Whether `name` is one of the known profiles.
pub fn is_valid_profile(name: &str) -> (r: bool)
    ensures
        r == is_profile(name@),
{
    let mut i: usize = 0;
    while i < 4
        invariant
            i <= 4,
            forall|k: int| 0 <= k < i ==> PROFILES@[k]@ != name@,
        decreases 4 - i,
    {
        if str_eq(PROFILES[i], name) {
            return true;
        }
        i = i + 1;
    }
    false
}

/// Whether `action` is one of the actions that the language model may answer with.
pub fn is_valid_llm_action(action: &str) -> (r: bool)
    ensures
        r == is_llm_action(action@),
{
    let mut i: usize = 0;
    while i < 5
        invariant
            i <= 5,
            forall|k: int| 0 <= k < i ==> LLM_ACTIONS@[k]@ != action@,
        decreases 5 - i,
    {
        if str_eq(LLM_ACTIONS[i], action) {
            return true;
        }
        i = i + 1;
    }
    false
}

/// `o`, or `d` when it is `None`.
pub open spec fn or_u32(o: Option<u32>, d: u32) -> u32 {
    match o {
        Some(v) => v,
        None => d,
    }
}

/// The trimmed comma-separated fields of the trimmed output of the GPU query.
pub open spec fn gpu_fields(out: Seq<char>) -> Seq<Seq<char>> {
    split_on(trim(out), ',').map_values(|p: Seq<char>| trim(p))
}

/// Utilisation and temperature read from `utilization.gpu,temperature.gpu,power.draw`
/// output: nothing when fewer than three fields, a field that does not parse reads 0.
pub open spec fn gpu_query_result(out: Seq<char>) -> Option<(u32, u32)> {
    let f = gpu_fields(out);
    if f.len() < 3 {
        None
    } else {
        Some((or_u32(parse_u32(f[0]), 0), or_u32(parse_u32(f[1]), 0)))
    }
}

/// The trimmed fields of the GPU query output, as character vectors.
fn gpu_field_chars(out: &str) -> (r: Vec<Vec<char>>)
    ensures
        r@.len() == gpu_fields(out@).len(),
        forall|i: int| 0 <= i < r@.len() ==> #[trigger] r@[i]@ == gpu_fields(out@)[i],
{
    let cs = chars_of(out);
    let t = trim_chars(cs.as_slice());
    let parts = split_chars(t.as_slice(), ',');
    let mut r: Vec<Vec<char>> = Vec::new();
    let mut i: usize = 0;
    while i < parts.len()
        invariant
            i <= parts@.len(),
            parts@.len() == split_on(trim(out@), ',').len(),
            forall|k: int| 0 <= k < parts@.len() ==> #[trigger] parts@[k]@ == split_on(trim(out@), ',')[k],
            r@.len() == i,
            forall|k: int| 0 <= k < i ==> #[trigger] r@[k]@ == gpu_fields(out@)[k],
        decreases parts@.len() - i,
    {
        let f = trim_chars(parts[i].as_slice());
        r.push(f);
        i = i + 1;
    }
    r
}

/// Reads utilisation and temperature from the output of
/// `nvidia-smi --query-gpu=utilization.gpu,temperature.gpu,power.draw`.
pub fn parse_gpu_query(out: &str) -> (r: Option<(u32, u32)>)
    ensures
        r == gpu_query_result(out@),
{
    let f = gpu_field_chars(out);
    if f.len() < 3 {
        return None;
    }
    let util = match parse_u32_chars(f[0].as_slice()) {
        Some(v) => v,
        None => 0,
    };
    let temp = match parse_u32_chars(f[1].as_slice()) {
        Some(v) => v,
        None => 0,
    };
    Some((util, temp))
}

/// The utilisation that the first field of the GPU query output holds, when it parses.
pub fn gpu_util(out: &str) -> (r: Option<u32>)
    ensures
        r == parse_u32(gpu_fields(out@)[0]),
{
    let f = gpu_field_chars(out);
    proof {
        let t = trim(out@);
        assert(split_on(t, ',').len() >= 1) by {
            reveal_with_fuel(split_on, 1);
        }
    }
    parse_u32_chars(f[0].as_slice())
}

/// The trimmed, non-empty lines of `ls`, in order.
pub open spec fn nonempty_trimmed(ls: Seq<Seq<char>>) -> Seq<Seq<char>>
    decreases ls.len(),
{
    if ls.len() == 0 {
        seq![]
    } else {
        let rest = nonempty_trimmed(ls.drop_last());
        let t = trim(ls.last());
        if t.len() > 0 {
            rest.push(t)
        } else {
            rest
        }
    }
}

/// The process names listed by `nvidia-smi --query-compute-apps=process_name`.
pub fn parse_process_names(out: &str) -> (r: Vec<String>)
    ensures
        r@.map_values(|s: String| s@) == nonempty_trimmed(lines(out@)),
{
    let cs = chars_of(out);
    let ls = lines_chars(cs.as_slice());
    let ghost spec_ls = lines(out@);
    let mut r: Vec<String> = Vec::new();
    let mut i: usize = 0;
    while i < ls.len()
        invariant
            i <= ls@.len(),
            ls@.len() == spec_ls.len(),
            spec_ls == lines(out@),
            forall|k: int| 0 <= k < ls@.len() ==> #[trigger] ls@[k]@ == spec_ls[k],
            r@.map_values(|s: String| s@) == nonempty_trimmed(spec_ls.take(i as int)),
        decreases ls@.len() - i,
    {
        let t = trim_chars(ls[i].as_slice());
        assert(spec_ls.take(i + 1).drop_last() =~= spec_ls.take(i as int));
        if t.len() > 0 {
            r.push(string_of(t.as_slice()));
        }
        assert(r@.map_values(|s: String| s@) =~= nonempty_trimmed(spec_ls.take(i + 1)));
        i = i + 1;
    }
    assert(spec_ls.take(ls@.len() as int) =~= spec_ls);
    r
}

/// What the agent observed of the GPU: utilisation in percent, temperature in degrees
/// Celsius, and the names of the processes using it.
pub struct GpuReading {
    pub util: u32,
    pub temp: u32,
    pub procs: Vec<String>,
}

/// One entry of the profile tool's history log: its `action` and `profile_name` fields,
/// where they are strings.
pub struct HistoryEntry {
    pub action: Option<String>,
    pub profile_name: Option<String>,
}

/// The text of an optional string.
pub open spec fn opt_view(o: Option<String>) -> Option<Seq<char>> {
    match o {
        Some(s) => Some(s@),
        None => None,
    }
}

/// The profile of the latest successful application in the history that is not a
/// rollback.
pub open spec fn last_applied(history: Seq<HistoryEntry>) -> Option<Seq<char>>
    decreases history.len(),
{
    if history.len() == 0 {
        None
    } else {
        let e = history.last();
        if opt_view(e.action) == Some("apply-success"@) && e.profile_name is Some
            && e.profile_name->0@ != "__rollback__"@ {
            Some(e.profile_name->0@)
        } else {
            last_applied(history.drop_last())
        }
    }
}

/// The profile in force: the target of the agent's last switch, else the latest
/// successful application in the history, else `cognitum-balanced`.
pub open spec fn current_profile_of(last_switch_to: Option<Seq<char>>, history: Seq<HistoryEntry>) -> Seq<char> {
    match last_switch_to {
        Some(t) => t,
        None => match last_applied(history) {
            Some(n) => n,
            None => "cognitum-balanced"@,
        },
    }
}

/// The profile in force, from the agent's last switch and the profile tool's history.
pub fn current_profile(last_switch_to: Option<&str>, history: &[HistoryEntry]) -> (r: String)
    ensures
        r@ == current_profile_of(
            match last_switch_to {
                Some(t) => Some(t@),
                None => None,
            },
            history@,
        ),
{
    if let Some(t) = last_switch_to {
        return String::from_str(t);
    }
    let mut i: usize = history.len();
    assert(history@.take(i as int) =~= history@);
    while i > 0
        invariant
            i <= history@.len(),
            last_switch_to is None,
            last_applied(history@) == last_applied(history@.take(i as int)),
        decreases i,
    {
        let e = &history[i - 1];
        assert(history@.take(i as int).last() == history@[i - 1]);
        assert(history@.take(i as int).drop_last() =~= history@.take(i - 1));
        if let Some(a) = &e.action {
            if str_eq(a.as_str(), "apply-success") {
                if let Some(n) = &e.profile_name {
                    if !str_eq(n.as_str(), "__rollback__") {
                        assert(opt_view(e.action) == Some("apply-success"@));
                        assert(last_applied(history@.take(i as int)) == Some(n@));
                        return n.clone();
                    }
                }
            }
        }
        i = i - 1;
    }
    String::from_str("cognitum-balanced")
}

/// What the agent recorded of its last model consultation: the utilisation it observed,
/// as text, and when, as RFC 3339 text.
pub struct ReasoningRecord {
    pub gpu_util: Option<String>,
    pub at: Option<String>,
}

/// The utilisation recorded at the last consultation, or -1 when it is missing or does
/// not parse.
pub open spec fn recorded_util(rec: ReasoningRecord) -> int {
    match rec.gpu_util {
        Some(s) => match parse_i64(s@) {
            Some(v) => v as int,
            None => -1,
        },
        None => -1,
    }
}

/// The utilisation recorded at the last consultation, or -1.
pub fn recorded_util_of(rec: &ReasoningRecord) -> (r: i64)
    ensures
        r == recorded_util(*rec),
{
    match &rec.gpu_util {
        Some(s) => {
            let cs = chars_of(s.as_str());
            match parse_i64_chars(cs.as_slice()) {
                Some(v) => v,
                None => -1,
            }
        },
        None => -1,
    }
}

/// The text of the recorded time, or the empty text.
pub open spec fn recorded_at(rec: ReasoningRecord) -> Seq<char> {
    match rec.at {
        Some(s) => s@,
        None => seq![],
    }
}

/// Whether the agent consults the model again: always without a record; else when the
/// utilisation moved by more than 20 points or the GPU is above 75 C; else when the last
/// consultation is more than 15 minutes old or its time does not parse.
pub open spec fn reasoning_due(last: Option<ReasoningRecord>, util: u32, temp: u32, now: (i64, u32)) -> bool {
    match last {
        None => true,
        Some(rec) => {
            let diff = util - recorded_util(rec);
            let changed = (if diff < 0 {
                -diff
            } else {
                diff
            }) > 20 || temp > 75;
            changed || match rfc3339_nanos(recorded_at(rec)) {
                Some(t) => whole_minutes(instant_nanos(now) - t) > 15,
                None => true,
            }
        },
    }
}

/// Whether the agent consults the model again. The utilisation difference is computed in
/// `i64`, which the recorded value must not push out of range.
pub fn should_reason(last: Option<&ReasoningRecord>, util: u32, temp: u32, now: (i64, u32)) -> (r: bool)
    requires
        last matches Some(rec) ==> util - recorded_util(*rec) <= i64::MAX,
    ensures
        r == reasoning_due(
            match last {
                Some(rec) => Some(*rec),
                None => None,
            },
            util,
            temp,
            now,
        ),
{
    match last {
        None => true,
        Some(rec) => {
            let last_util = recorded_util_of(rec);
            let diff: i64 = (util as i64) - last_util;
            let abs: u64 = if diff < 0 {
                (0i128 - diff as i128) as u64
            } else {
                diff as u64
            };
            if abs > 20 || temp > 75 {
                return true;
            }
            let empty = String::new();
            let at: &str = match &rec.at {
                Some(s) => s.as_str(),
                None => empty.as_str(),
            };
            older_than_minutes(at, now, 15)
        },
    }
}

/// The fields of the model's JSON answer that the agent reads, where they are strings:
/// `action`, `params.name` and `reasoning`.
pub struct LlmDecision {
    pub action: Option<String>,
    pub name: Option<String>,
    pub reasoning: Option<String>,
}

/// What `serde_json::from_str` reads from a text as a JSON value, taken by the string
/// fields that the agent uses: `action`, `params.name` and `reasoning`, each `None` where
/// it is absent or not a string; `None` as a whole where the text is not JSON.
pub uninterp spec fn json_reply_fields(text: Seq<char>) -> Option<(Option<Seq<char>>, Option<Seq<char>>, Option<Seq<char>>)>;

/// The text of the three reply fields.
pub open spec fn fields_view(f: Option<(Option<String>, Option<String>, Option<String>)>) -> Option<(Option<Seq<char>>, Option<Seq<char>>, Option<Seq<char>>)> {
    match f {
        Some((a, n, r)) => Some((opt_view(a), opt_view(n), opt_view(r))),
        None => None,
    }
}

/// Calls `serde_json::from_str` into a `serde_json::Value` and reads its `action`,
/// `params.name` and `reasoning` strings with `get` and `as_str`. The contract claims
/// only that the result is `json_reply_fields` of the text; the JSON grammar is left to
/// that name.
#[verifier::external_body]
fn parse_reply_fields(text: &str) -> (r: Option<(Option<String>, Option<String>, Option<String>)>)
    ensures
        fields_view(r) == json_reply_fields(text@),
{
    let v: serde_json::Value = match serde_json::from_str(text) {
        Ok(v) => v,
        Err(_) => return None,
    };
    let action = v.get("action").and_then(|x| x.as_str()).map(|x| x.to_string());
    let name = v.get("params").and_then(|p| p.get("name")).and_then(|x| x.as_str()).map(|x| x.to_string());
    let reasoning = v.get("reasoning").and_then(|x| x.as_str()).map(|x| x.to_string());
    Some((action, name, reasoning))
}

/// The decision that a reply's fields make: none when the reply is not JSON or its
/// `action` is not a string.
pub open spec fn decision_of(f: Option<(Option<Seq<char>>, Option<Seq<char>>, Option<Seq<char>>)>) -> Option<(Option<Seq<char>>, Option<Seq<char>>, Option<Seq<char>>)> {
    match f {
        Some((Some(a), n, r)) => Some((Some(a), n, r)),
        _ => None,
    }
}

/// The text of an optional decision.
pub open spec fn decision_view(d: Option<LlmDecision>) -> Option<(Option<Seq<char>>, Option<Seq<char>>, Option<Seq<char>>)> {
    match d {
        Some(d) => Some((opt_view(d.action), opt_view(d.name), opt_view(d.reasoning))),
        None => None,
    }
}

/// The decision made by the given reply fields (as `parse_reply_fields` reads them).
pub fn decision_from_fields(f: Option<(Option<String>, Option<String>, Option<String>)>) -> (r: Option<LlmDecision>)
    ensures
        decision_view(r) == decision_of(fields_view(f)),
{
    match f {
        Some((Some(a), n, reasoning)) => Some(LlmDecision { action: Some(a), name: n, reasoning }),
        _ => None,
    }
}

/// The decision in the model's reply: the reply is cleaned of white space and code
/// fences, read as JSON, and taken by its `action`, `params.name` and `reasoning`
/// strings; none when it is not JSON or has no string `action`.
pub fn parse_decision(content: &str) -> (r: Option<LlmDecision>)
    ensures
        decision_view(r) == decision_of(json_reply_fields(cleaned_reply(content@))),
{
    let clean = clean_reply(content);
    decision_from_fields(parse_reply_fields(clean.as_str()))
}

/// An answer is accepted when its action is a known one and its reasoning, empty when
/// absent, passes the threat scan.
pub open spec fn decision_accepted(d: LlmDecision) -> bool {
    &&& d.action is Some
    &&& is_llm_action(d.action->0@)
    &&& scan_result(
        match d.reasoning {
            Some(s) => s@,
            None => seq![],
        },
    ).safe
}

/// Whether the agent accepts the model's answer.
pub fn accept_decision(d: &LlmDecision) -> (r: bool)
    ensures
        r == decision_accepted(*d),
{
    match &d.action {
        None => false,
        Some(a) => {
            if !is_valid_llm_action(a.as_str()) {
                return false;
            }
            match &d.reasoning {
                Some(s) => is_safe(s.as_str()),
                None => {
                    let e = String::new();
                    is_safe(e.as_str())
                },
            }
        },
    }
}

/// The profile that an accepted answer asks for: only a `switch_profile` action naming a
/// known profile asks for one.
pub open spec fn decision_profile(d: LlmDecision) -> Option<Seq<char>> {
    if opt_view(d.action) == Some("switch_profile"@) && d.name is Some && is_profile(d.name->0@) {
        Some(d.name->0@)
    } else {
        None
    }
}

/// The profile that the model's answer asks for, if any.
pub fn llm_profile_choice(d: &LlmDecision) -> (r: Option<String>)
    ensures
        opt_view(r) == decision_profile(*d),
{
    match &d.action {
        Some(a) => {
            if !str_eq(a.as_str(), "switch_profile") {
                return None;
            }
        },
        None => {
            return None;
        },
    }
    match &d.name {
        Some(n) => {
            if is_valid_profile(n.as_str()) {
                Some(n.clone())
            } else {
                None
            }
        },
        None => None,
    }
}

/// Where a recommendation came from.
#[derive(Clone, Copy, PartialEq, Eq, Debug, Structural)]
pub enum RecommendationSource {
    /// The GPU is too hot: idle, without asking the model.
    SafetyThermal,
    /// The language model chose the profile.
    Model,
    /// The fixed rules decided.
    Rules,
}

impl RecommendationSource {
    /// The name under which the agent records the source.
    pub fn name(&self) -> (r: &'static str)
        ensures
            r@ == match *self {
                RecommendationSource::SafetyThermal => "safety-thermal"@,
                RecommendationSource::Model => "ruvllm"@,
                RecommendationSource::Rules => "rules"@,
            },
    {
        match self {
            RecommendationSource::SafetyThermal => "safety-thermal",
            RecommendationSource::Model => "ruvllm",
            RecommendationSource::Rules => "rules",
        }
    }
}

/// A recommended profile, if any, and its source.
pub struct Recommendation {
    pub profile: Option<String>,
    pub source: RecommendationSource,
}

/// Some process name mentions `python` or `train`.
pub open spec fn training_running(procs: Seq<String>) -> bool {
    exists|i: int| 0 <= i < procs.len() && (contains(procs[i]@, "python"@) || contains(procs[i]@, "train"@))
}

/// The fixed rules: training processes ask for `gpu-train`; over 80 % utilisation for
/// `gpu-inference`; an idle, cool GPU between 1 and 6 o'clock, or a GPU above 80 C, for
/// `cognitum-idle`.
pub open spec fn rule_profile(util: u32, temp: u32, procs: Seq<String>, hour: u32) -> Option<Seq<char>> {
    if training_running(procs) {
        Some("gpu-train"@)
    } else if util > 80 {
        Some("gpu-inference"@)
    } else if util < 5 && temp < 50 && 1 <= hour <= 6 {
        Some("cognitum-idle"@)
    } else if temp > 80 {
        Some("cognitum-idle"@)
    } else {
        None
    }
}

/// The recommendation: above 85 C idle for safety; else the model's choice when it made
/// one; else the fixed rules.
pub open spec fn recommendation_of(util: u32, temp: u32, procs: Seq<String>, hour: u32, model: Option<Seq<char>>) -> (Option<Seq<char>>, RecommendationSource) {
    if temp > 85 {
        (Some("cognitum-idle"@), RecommendationSource::SafetyThermal)
    } else if model is Some {
        (model, RecommendationSource::Model)
    } else {
        (rule_profile(util, temp, procs, hour), RecommendationSource::Rules)
    }
}

/// The model is consulted only when the GPU is at most 85 C and a consultation is due.
pub open spec fn consult_model(temp: u32, due: bool) -> bool {
    temp <= 85 && due
}

/// Whether the agent asks the model for a decision.
pub fn should_consult_model(temp: u32, due: bool) -> (r: bool)
    ensures
        r == consult_model(temp, due),
{
    temp <= 85 && due
}

/// Whether some process name mentions `python` or `train`.
fn any_training(procs: &Vec<String>) -> (r: bool)
    ensures
        r == training_running(procs@),
{
    let mut i: usize = 0;
    while i < procs.len()
        invariant
            i <= procs@.len(),
            forall|k: int| 0 <= k < i ==> !(contains(procs@[k]@, "python"@) || contains(procs@[k]@, "train"@)),
        decreases procs@.len() - i,
    {
        if str_contains(procs[i].as_str(), "python") || str_contains(procs[i].as_str(), "train") {
            return true;
        }
        i = i + 1;
    }
    false
}

/// Recommends a profile for the observed GPU at the given local hour; `model` is the
/// profile that the model's accepted answer asked for, `None` when it was not consulted
/// or asked for none.
pub fn recommend(gpu: &GpuReading, hour: u32, model: Option<String>) -> (r: Recommendation)
    ensures
        (opt_view(r.profile), r.source) == recommendation_of(gpu.util, gpu.temp, gpu.procs@, hour, opt_view(model)),
{
    if gpu.temp > 85 {
        return Recommendation { profile: Some(String::from_str("cognitum-idle")), source: RecommendationSource::SafetyThermal };
    }
    if let Some(m) = model {
        return Recommendation { profile: Some(m), source: RecommendationSource::Model };
    }
    let p = if any_training(&gpu.procs) {
        Some(String::from_str("gpu-train"))
    } else if gpu.util > 80 {
        Some(String::from_str("gpu-inference"))
    } else if gpu.util < 5 && gpu.temp < 50 && 1 <= hour && hour <= 6 {
        Some(String::from_str("cognitum-idle"))
    } else if gpu.temp > 80 {
        Some(String::from_str("cognitum-idle"))
    } else {
        None
    };
    Recommendation { profile: p, source: RecommendationSource::Rules }
}

/// The agent switches when it has a recommendation that differs from the current profile.
pub open spec fn switch_needed(rec: Option<Seq<char>>, current: Seq<char>) -> bool {
    rec matches Some(p) && p != current
}

/// Whether the agent applies the recommended profile.
pub fn needs_switch(rec: &Option<String>, current: &str) -> (r: bool)
    ensures
        r == switch_needed(opt_view(*rec), current@),
{
    match rec {
        Some(p) => !str_eq(p.as_str(), current),
        None => false,
    }
}

/// The brain query that gives the model context: workload tuning above 50 % utilisation,
/// idle power management otherwise.
pub fn rag_query(util: u32) -> (r: &'static str)
    ensures
        r@ == if util > 50 {
            "GPU workload optimization"@
        } else {
            "system idle optimization power management"@
        },
{
    if util > 50 {
        "GPU workload optimization"
    } else {
        "system idle optimization power management"
    }
}

/// What becomes of one brain search result in the model's context.
#[derive(Debug)]
pub enum ContextLine {
    /// The result has no content.
    Empty,
    /// The content failed the threat scan and is left out.
    Blocked,
    /// The line added to the context.
    Line(String),
}

/// One context line: `- `, the first 200 bytes of the content, a newline; empty content is
/// skipped and content that fails the threat scan is blocked. The 200-byte cut must fall
/// on a character boundary, as Rust's slicing demands.
pub fn context_line(content: &str) -> (r: ContextLine)
    requires
        content.spec_bytes().len() <= 200 || vstd::utf8::is_char_boundary(content.spec_bytes(), 200),
    ensures
        content@.len() == 0 ==> r is Empty,
        content@.len() > 0 && !scan_result(content@).safe ==> r is Blocked,
        content@.len() > 0 && scan_result(content@).safe ==> (r matches ContextLine::Line(l) && l@
            == "- "@ + vstd::utf8::decode_utf8(content.spec_bytes().take(
            if content.spec_bytes().len() < 200 {
                content.spec_bytes().len() as int
            } else {
                200
            },
        )) + "\n"@),
{
    if content.is_empty() {
        return ContextLine::Empty;
    }
    if !is_safe(content) {
        return ContextLine::Blocked;
    }
    let cut = prefix_bytes(content, 200);
    proof {
        vstd::utf8::encode_utf8_decode_utf8(cut@);
    }
    let mut l = String::from_str("- ");
    l.append(cut);
    l.append("\n");
    ContextLine::Line(l)
}

/// The model's reply with white space and Markdown code fences stripped: trimmed, every
/// leading "```json" then every leading "```" removed, every trailing "```" removed,
/// trimmed again.
pub open spec fn cleaned_reply(content: Seq<char>) -> Seq<char> {
    trim(strip_suffixes(strip_prefixes(strip_prefixes(trim(content), "```json"@), "```"@), "```"@))
}

/// Strips white space and code fences from the model's reply before it is parsed.
pub fn clean_reply(content: &str) -> (r: String)
    ensures
        r@ == cleaned_reply(content@),
{
    let cs = chars_of(content);
    let t = trim_chars(cs.as_slice());
    let fence_json = chars_of("```json");
    let fence = chars_of("```");
    let a = strip_prefixes_chars(t.as_slice(), fence_json.as_slice());
    let b = strip_prefixes_chars(a.as_slice(), fence.as_slice());
    let c = strip_suffixes_chars(b.as_slice(), fence.as_slice());
    let d = trim_chars(c.as_slice());
    string_of(d.as_slice())
}


/// The instruction that precedes every consultation of the model.
pub const SYSTEM_PROMPT: &'static str = "You are ruos-agent. Given system state, decide an action. Respond with ONLY JSON: {\"action\": \"...\", \"params\": {...}, \"reasoning\": \"...\"}\nActions: switch_profile(name), no_action";

/// The process list as the prompt shows it: `none`, or the names joined by `, `.
pub open spec fn procs_text(procs: Seq<String>) -> Seq<char> {
    if procs.len() == 0 {
        "none"@
    } else {
        join(procs.map_values(|p: String| p@), ", "@)
    }
}

/// The prompt that describes the machine to the model.
pub open spec fn user_prompt_text(util: u32, temp: u32, procs: Seq<String>, current: Seq<char>, time: Seq<char>, context: Seq<char>) -> Seq<char> {
    "GPU: "@ + decimal(util as nat) + "% util, "@ + decimal(temp as nat) + "C, procs: "@
        + procs_text(procs) + "\nProfile: "@ + current + "\nTime: "@ + time
        + "\nBrain context:\n"@ + (if context.len() == 0 {
        "none"@
    } else {
        context
    }) + "\nDecide."@
}

/// The process names joined by `, `.
fn join_strings(parts: &Vec<String>, sep: &str) -> (r: String)
    ensures
        r@ == join(parts@.map_values(|p: String| p@), sep@),
{
    let ghost ps = parts@.map_values(|p: String| p@);
    let mut r = String::new();
    let mut i: usize = 0;
    while i < parts.len()
        invariant
            i <= parts@.len(),
            ps == parts@.map_values(|p: String| p@),
            r@ == join(ps.take(i as int), sep@),
        decreases parts@.len() - i,
    {
        if i > 0 {
            r.append(sep);
        }
        r.append(parts[i].as_str());
        assert(ps.take(i + 1).drop_last() =~= ps.take(i as int));
        i = i + 1;
    }
    assert(ps.take(parts@.len() as int) =~= ps);
    r
}

/// Builds the prompt that describes the machine to the model: utilisation, temperature,
/// processes, current profile, the local time as text, and the brain context lines.
pub fn user_prompt(gpu: &GpuReading, current: &str, time: &str, context: &str) -> (r: String)
    ensures
        r@ == user_prompt_text(gpu.util, gpu.temp, gpu.procs@, current@, time@, context@),
{
    let mut r = String::from_str("GPU: ");
    r.append(decimal_string(gpu.util as u64).as_str());
    r.append("% util, ");
    r.append(decimal_string(gpu.temp as u64).as_str());
    r.append("C, procs: ");
    if gpu.procs.len() == 0 {
        r.append("none");
    } else {
        r.append(join_strings(&gpu.procs, ", ").as_str());
    }
    r.append("\nProfile: ");
    r.append(current);
    r.append("\nTime: ");
    r.append(time);
    r.append("\nBrain context:\n");
    if context.is_empty() {
        r.append("none");
    } else {
        r.append(context);
    }
    r.append("\nDecide.");
    r
}

/// The reason recorded with a profile switch: `gpu=U% temp=TC hour=H`.
pub fn switch_reason(util: u32, temp: u32, hour: u32) -> (r: String)
    ensures
        r@ == "gpu="@ + decimal(util as nat) + "% temp="@ + decimal(temp as nat) + "C hour="@
            + decimal(hour as nat),
{
    let mut r = String::from_str("gpu=");
    r.append(decimal_string(util as u64).as_str());
    r.append("% temp=");
    r.append(decimal_string(temp as u64).as_str());
    r.append("C hour=");
    r.append(decimal_string(hour as u64).as_str());
    r
}


/// Thermal safety comes first: above 85 C the recommendation is `cognitum-idle` from the
/// safety rule, whatever the workload, the hour or the model's choice.
pub proof fn lemma_thermal_override(util: u32, temp: u32, procs: Seq<String>, hour: u32, model: Option<Seq<char>>)
    requires
        temp > 85,
    ensures
        recommendation_of(util, temp, procs, hour, model) == (
            Some("cognitum-idle"@),
            RecommendationSource::SafetyThermal,
        ),
{
}

/// Only known profiles are ever recommended, provided the model's choice, if any, is a
/// known profile (as `llm_profile_choice` guarantees).
pub proof fn lemma_recommendation_known(util: u32, temp: u32, procs: Seq<String>, hour: u32, model: Option<Seq<char>>)
    requires
        model matches Some(m) ==> is_profile(m),
    ensures
        recommendation_of(util, temp, procs, hour, model).0 matches Some(p) ==> is_profile(p),
{
    assert(PROFILES@[0]@ == "gpu-train"@);
    assert(PROFILES@[1]@ == "gpu-inference"@);
    assert(PROFILES@[3]@ == "cognitum-idle"@);
}

/// The model's choice is always a known profile.
pub proof fn lemma_model_choice_known(d: LlmDecision)
    ensures
        decision_profile(d) matches Some(p) ==> is_profile(p),
{
}


/// The fixed rules, in order, when the GPU is at most 85 C and the model made no choice:
/// a process whose name mentions `python` or `train` asks for `gpu-train` whatever the
/// utilisation; otherwise over 80 % asks for `gpu-inference`; otherwise an idle (< 5 %),
/// cool (< 50 C) GPU between 1 and 6 o'clock, or a GPU above 80 C, asks for
/// `cognitum-idle`; otherwise nothing is recommended.
pub proof fn lemma_fixed_rules(util: u32, temp: u32, procs: Seq<String>, hour: u32)
    requires
        temp <= 85,
    ensures
        (exists|k: int| 0 <= k < procs.len() && (contains(procs[k]@, "python"@) || contains(procs[k]@, "train"@)))
            ==> recommendation_of(util, temp, procs, hour, None) == (
            Some("gpu-train"@),
            RecommendationSource::Rules,
        ),
        (forall|k: int| 0 <= k < procs.len() ==> !contains(#[trigger] procs[k]@, "python"@) && !contains(procs[k]@, "train"@))
            ==> recommendation_of(util, temp, procs, hour, None) == (
            if util > 80 {
                Some("gpu-inference"@)
            } else if util < 5 && temp < 50 && 1 <= hour <= 6 {
                Some("cognitum-idle"@)
            } else if temp > 80 {
                Some("cognitum-idle"@)
            } else {
                None
            },
            RecommendationSource::Rules,
        ),
{
}

/// The model's choice decides whenever the GPU is at most 85 C: it is recommended as it
/// is, whatever the processes, utilisation or hour.
pub proof fn lemma_model_choice_decides(util: u32, temp: u32, procs: Seq<String>, hour: u32, m: Seq<char>)
    requires
        temp <= 85,
    ensures
        recommendation_of(util, temp, procs, hour, Some(m)) == (Some(m), RecommendationSource::Model),
{
}

/// The newest successful application wins: without a recorded switch, a history whose
/// last entry applied profile `p` successfully (and is no rollback) has `p` in force,
/// whatever came before.
pub proof fn lemma_latest_application_wins(history: Seq<HistoryEntry>, e: HistoryEntry)
    requires
        opt_view(e.action) == Some("apply-success"@),
        e.profile_name is Some,
        e.profile_name->0@ != "__rollback__"@,
    ensures
        current_profile_of(None, history.push(e)) == e.profile_name->0@,
{
    assert(history.push(e).last() == e);
}

/// An entry that is not a successful application of a real profile changes nothing: the
/// profile in force is what it was before that entry was written.
pub proof fn lemma_other_entries_skipped(history: Seq<HistoryEntry>, e: HistoryEntry)
    requires
        !(opt_view(e.action) == Some("apply-success"@) && e.profile_name is Some && e.profile_name->0@
            != "__rollback__"@),
    ensures
        current_profile_of(None, history.push(e)) == current_profile_of(None, history),
{
    assert(history.push(e).last() == e);
    assert(history.push(e).drop_last() =~= history);
}

/// The agent's own last switch wins over the history, and with neither the profile in
/// force is `cognitum-balanced`.
pub proof fn lemma_switch_then_default(t: Seq<char>, history: Seq<HistoryEntry>)
    ensures
        current_profile_of(Some(t), history) == t,
        current_profile_of(None, Seq::<HistoryEntry>::empty()) == "cognitum-balanced"@,
{
}

} // verus!
