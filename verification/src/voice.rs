//! Voice commands: what a transcribed utterance asks for, and the spoken replies.

use vstd::prelude::*;
use vstd::string::StringExecFns;
use vstd::string::StringSliceAdditionalSpecFns;
use crate::profile::{is_profile, is_valid_profile};
use crate::text::{contains_word, str_contains_word, is_ws, lemma_trim_edges, chars_of, contains, contains_chars, copy_range, decimal, decimal_string, find, find_chars, join, join_chars, lines, lines_chars, signed_decimal, signed_decimal_string, split_chars, split_on, str_contains, str_eq, string_of, trim, trim_chars};

verus! {

/// `s` in lower case, as `str::to_lowercase` maps it.
pub uninterp spec fn lowercase(s: Seq<char>) -> Seq<char>;

/// Calls `str::to_lowercase`. The contract claims only that the result is `lowercase` of
/// the text; the Unicode case mapping itself is left to that name.
#[verifier::external_body]
fn to_lowercase(s: &str) -> (r: String)
    ensures
        r@ == lowercase(s@),
{
    s.to_lowercase()
}

/// The text of a list of phrases.
pub open spec fn phrase_texts(ps: Seq<&str>) -> Seq<Seq<char>> {
    ps.map_values(|p: &str| p@)
}

/// Some phrase occurs in `text`.
pub open spec fn contains_any_of(text: Seq<char>, phrases: Seq<Seq<char>>) -> bool {
    exists|i: int| 0 <= i < phrases.len() && contains(text, phrases[i])
}

/// Whether any of the phrases occurs in `text`.
pub fn contains_any(text: &str, phrases: &[&str]) -> (r: bool)
    ensures
        r == contains_any_of(text@, phrase_texts(phrases@)),
{
    let t = chars_of(text);
    let mut i: usize = 0;
    while i < phrases.len()
        invariant
            i <= phrases@.len(),
            t@ == text@,
            forall|k: int| 0 <= k < i ==> !contains(text@, #[trigger] phrase_texts(phrases@)[k]),
        decreases phrases@.len() - i,
    {
        let p = chars_of(phrases[i]);
        if contains_chars(t.as_slice(), p.as_slice()) {
            assert(contains(text@, phrase_texts(phrases@)[i as int]));
            return true;
        }
        i = i + 1;
    }
    false
}

/// The trimmed text after the first occurrence of the first prefix, in list order, that
/// occurs and is followed by more than white space.
pub open spec fn text_after(text: Seq<char>, prefixes: Seq<Seq<char>>) -> Option<Seq<char>>
    decreases prefixes.len(),
{
    if prefixes.len() == 0 {
        None
    } else {
        match find(text, prefixes[0]) {
            Some(pos) => {
                let a = trim(text.skip(pos + prefixes[0].len()));
                if a.len() > 0 {
                    Some(a)
                } else {
                    text_after(text, prefixes.drop_first())
                }
            },
            None => text_after(text, prefixes.drop_first()),
        }
    }
}

/// What follows a prefix is handed over trimmed: it is never empty and neither starts
/// nor ends with white space.
pub proof fn lemma_text_after_trimmed(text: Seq<char>, prefixes: Seq<Seq<char>>)
    ensures
        text_after(text, prefixes) matches Some(a) ==> a.len() > 0 && !is_ws(a[0]) && !is_ws(a.last()),
    decreases prefixes.len(),
{
    if prefixes.len() > 0 {
        lemma_text_after_trimmed(text, prefixes.drop_first());
        if let Some(pos) = find(text, prefixes[0]) {
            lemma_trim_edges(text.skip(pos + prefixes[0].len()));
        }
    }
}

/// The text of an optional string.
pub open spec fn opt_text(o: Option<String>) -> Option<Seq<char>> {
    match o {
        Some(s) => Some(s@),
        None => None,
    }
}

/// The trimmed text that follows the first of `prefixes` found in `text`, if any is
/// followed by more than white space.
pub fn extract_after(text: &str, prefixes: &[&str]) -> (r: Option<String>)
    ensures
        opt_text(r) == text_after(text@, phrase_texts(prefixes@)),
        r matches Some(a) ==> a@.len() > 0 && !is_ws(a@[0]) && !is_ws(a@.last()),
{
    let t = chars_of(text);
    let ghost ps = phrase_texts(prefixes@);
    let mut i: usize = 0;
    assert(ps.skip(0) =~= ps);
    while i < prefixes.len()
        invariant
            i <= prefixes@.len(),
            t@ == text@,
            ps == phrase_texts(prefixes@),
            text_after(text@, ps) == text_after(text@, ps.skip(i as int)),
        decreases prefixes@.len() - i,
    {
        let p = chars_of(prefixes[i]);
        assert(ps.skip(i as int)[0] == p@);
        assert(ps.skip(i as int).drop_first() =~= ps.skip(i + 1));
        match find_chars(t.as_slice(), p.as_slice()) {
            Some(pos) => {
                proof {
                    crate::text::lemma_contains(t@, p@);
                }
                let tl = t.len();
                assert(pos + p@.len() <= tl);
                let rest = copy_range(t.as_slice(), pos + p.len(), tl);
                assert(rest@ =~= text@.skip(pos + p@.len()));
                let a = trim_chars(rest.as_slice());
                if a.len() > 0 {
                    proof {
                        lemma_text_after_trimmed(text@, ps);
                    }
                    return Some(string_of(a.as_slice()));
                }
            },
            None => {},
        }
        i = i + 1;
    }
    None
}

/// The phrases that ask for each profile, grouped by profile in the order checked.
pub const PROFILE_PHRASES: [(&'static str, &'static str); 12] = [
    ("switch to training", "gpu-train"),
    ("training mode", "gpu-train"),
    ("gpu train", "gpu-train"),
    ("switch to inference", "gpu-inference"),
    ("inference mode", "gpu-inference"),
    ("switch to balanced", "cognitum-balanced"),
    ("balanced mode", "cognitum-balanced"),
    ("normal mode", "cognitum-balanced"),
    ("switch to idle", "cognitum-idle"),
    ("idle mode", "cognitum-idle"),
    ("power save", "cognitum-idle"),
    ("low power", "cognitum-idle"),
];

/// The profile of the first phrase at or after index `i` of the table that occurs in
/// `text`.
pub open spec fn profile_from(text: Seq<char>, i: int) -> Option<Seq<char>>
    decreases 12 - i,
{
    if i < 0 || i >= 12 {
        None
    } else if contains(text, PROFILE_PHRASES@[i].0@) {
        Some(PROFILE_PHRASES@[i].1@)
    } else {
        profile_from(text, i + 1)
    }
}

/// The profile that `text` asks for, if any: training, inference, balanced or idle.
pub fn extract_profile(text: &str) -> (r: Option<String>)
    ensures
        opt_text(r) == profile_from(text@, 0),
{
    let mut i: usize = 0;
    while i < 12
        invariant
            i <= 12,
            profile_from(text@, 0) == profile_from(text@, i as int),
        decreases 12 - i,
    {
        let entry = PROFILE_PHRASES[i];
        if str_contains(text, entry.0) {
            return Some(String::from_str(entry.1));
        }
        i = i + 1;
    }
    None
}

/// A change of the output volume.
#[derive(Clone, Copy, PartialEq, Eq, Debug, Structural)]
pub enum VolumeChange {
    Up,
    Down,
    MuteToggle,
}

/// A reply that needs no action.
#[derive(Clone, Copy, PartialEq, Eq, Debug, Structural)]
pub enum CannedReply {
    Welcome,
    Greeting,
    GoodNight,
}

/// What an utterance asks for.
#[derive(Debug)]
pub enum Intent {
    /// Say nothing: the assistant's own echo, or a request to stop.
    Silent,
    SystemStatus,
    Time,
    Search(String),
    RecentMemories,
    SwitchProfile(String),
    OpenApp(String),
    LockScreen,
    UnlockScreen,
    SecurityTest,
    RunAgent,
    AgentStatus,
    Volume(VolumeChange),
    Reply(CannedReply),
    /// Nothing matched: ask the language model.
    AskModel,
}

/// The mathematical content of an `Intent`.
pub enum IntentView {
    Silent,
    SystemStatus,
    Time,
    Search(Seq<char>),
    RecentMemories,
    SwitchProfile(Seq<char>),
    OpenApp(Seq<char>),
    LockScreen,
    UnlockScreen,
    SecurityTest,
    RunAgent,
    AgentStatus,
    Volume(VolumeChange),
    Reply(CannedReply),
    AskModel,
}

impl View for Intent {
    type V = IntentView;

    open spec fn view(&self) -> IntentView {
        match self {
            Intent::Silent => IntentView::Silent,
            Intent::SystemStatus => IntentView::SystemStatus,
            Intent::Time => IntentView::Time,
            Intent::Search(q) => IntentView::Search(q@),
            Intent::RecentMemories => IntentView::RecentMemories,
            Intent::SwitchProfile(p) => IntentView::SwitchProfile(p@),
            Intent::OpenApp(a) => IntentView::OpenApp(a@),
            Intent::LockScreen => IntentView::LockScreen,
            Intent::UnlockScreen => IntentView::UnlockScreen,
            Intent::SecurityTest => IntentView::SecurityTest,
            Intent::RunAgent => IntentView::RunAgent,
            Intent::AgentStatus => IntentView::AgentStatus,
            Intent::Volume(v) => IntentView::Volume(*v),
            Intent::Reply(c) => IntentView::Reply(*c),
            Intent::AskModel => IntentView::AskModel,
        }
    }
}

pub const ECHO_PHRASES: [&'static str; 2] = ["can't reach the language model", "i didn't understand"];
pub const STATUS_PHRASES: [&'static str; 3] = ["system status", "status report", "how are you"];
pub const TIME_PHRASES: [&'static str; 2] = ["what time", "what's the time"];
pub const SEARCH_PREFIXES: [&'static str; 4] = ["search for", "search brain for", "find", "look up"];
pub const RECENT_PHRASES: [&'static str; 3] = ["what did you learn", "recent memories", "what do you know"];
pub const OPEN_PREFIXES: [&'static str; 3] = ["open", "launch", "start"];
pub const SWITCH_PREFIXES: [&'static str; 1] = ["switch to"];
pub const LOCK_PHRASES: [&'static str; 3] = ["lock screen", "lock the screen", "lock computer"];
pub const SECURITY_PHRASES: [&'static str; 3] = ["security test", "run security", "security scan"];
pub const AGENT_PHRASES: [&'static str; 3] = ["run agent", "heartbeat", "check services"];
pub const AGENT_STATUS_PHRASES: [&'static str; 2] = ["agent status", "ruos status"];
pub const VOLUME_UP_PHRASES: [&'static str; 3] = ["volume up", "louder", "turn up"];
pub const VOLUME_DOWN_PHRASES: [&'static str; 3] = ["volume down", "quieter", "turn down"];
pub const MUTE_PHRASES: [&'static str; 2] = ["mute", "silence"];
pub const THANKS_PHRASES: [&'static str; 2] = ["thank you", "thanks"];
pub const HELLO_PHRASES: [&'static str; 3] = ["hello", "hi there", "hey"];
pub const NIGHT_PHRASES: [&'static str; 3] = ["good night", "going to sleep", "shut down"];
pub const STOP_PHRASES: [&'static str; 4] = ["stop listening", "stop", "be quiet", "shut up"];

/// What a lower-cased utterance asks for: the checks in order, the first that applies
/// decides.
pub open spec fn classify(t: Seq<char>) -> IntentView {
    if contains_any_of(t, phrase_texts(ECHO_PHRASES@)) {
        IntentView::Silent
    } else if contains_any_of(t, phrase_texts(STATUS_PHRASES@)) {
        IntentView::SystemStatus
    } else if contains_any_of(t, phrase_texts(TIME_PHRASES@)) {
        IntentView::Time
    } else if text_after(t, phrase_texts(SEARCH_PREFIXES@)) is Some {
        IntentView::Search(text_after(t, phrase_texts(SEARCH_PREFIXES@))->0)
    } else if contains_any_of(t, phrase_texts(RECENT_PHRASES@)) {
        IntentView::RecentMemories
    } else if profile_from(t, 0) is Some {
        IntentView::SwitchProfile(profile_from(t, 0)->0)
    } else if text_after(t, phrase_texts(SWITCH_PREFIXES@)) matches Some(p) && is_profile(p) {
        IntentView::SwitchProfile(text_after(t, phrase_texts(SWITCH_PREFIXES@))->0)
    } else if text_after(t, phrase_texts(OPEN_PREFIXES@)) is Some {
        IntentView::OpenApp(text_after(t, phrase_texts(OPEN_PREFIXES@))->0)
    } else if contains_word(t, "unlock"@) {
        IntentView::UnlockScreen
    } else if contains_any_of(t, phrase_texts(LOCK_PHRASES@)) || contains_word(t, "lock"@) {
        IntentView::LockScreen
    } else if contains_any_of(t, phrase_texts(SECURITY_PHRASES@)) {
        IntentView::SecurityTest
    } else if contains_any_of(t, phrase_texts(AGENT_PHRASES@)) {
        IntentView::RunAgent
    } else if contains_any_of(t, phrase_texts(AGENT_STATUS_PHRASES@)) {
        IntentView::AgentStatus
    } else if contains_any_of(t, phrase_texts(VOLUME_UP_PHRASES@)) {
        IntentView::Volume(VolumeChange::Up)
    } else if contains_any_of(t, phrase_texts(VOLUME_DOWN_PHRASES@)) {
        IntentView::Volume(VolumeChange::Down)
    } else if contains_any_of(t, phrase_texts(MUTE_PHRASES@)) {
        IntentView::Volume(VolumeChange::MuteToggle)
    } else if contains_any_of(t, phrase_texts(THANKS_PHRASES@)) {
        IntentView::Reply(CannedReply::Welcome)
    } else if contains_any_of(t, phrase_texts(HELLO_PHRASES@)) {
        IntentView::Reply(CannedReply::Greeting)
    } else if contains_any_of(t, phrase_texts(NIGHT_PHRASES@)) {
        IntentView::Reply(CannedReply::GoodNight)
    } else if contains_any_of(t, phrase_texts(STOP_PHRASES@)) {
        IntentView::Silent
    } else {
        IntentView::AskModel
    }
}

/// What the already lower-cased utterance `lower` asks for.
pub fn classify_command(lower: &str) -> (r: Intent)
    ensures
        r@ == classify(lower@),
{
    if contains_any(lower, &ECHO_PHRASES) {
        return Intent::Silent;
    }
    if contains_any(lower, &STATUS_PHRASES) {
        return Intent::SystemStatus;
    }
    if contains_any(lower, &TIME_PHRASES) {
        return Intent::Time;
    }
    if let Some(q) = extract_after(lower, &SEARCH_PREFIXES) {
        return Intent::Search(q);
    }
    if contains_any(lower, &RECENT_PHRASES) {
        return Intent::RecentMemories;
    }
    if let Some(p) = extract_profile(lower) {
        return Intent::SwitchProfile(p);
    }
    if let Some(p) = extract_after(lower, &SWITCH_PREFIXES) {
        if is_valid_profile(p.as_str()) {
            return Intent::SwitchProfile(p);
        }
    }
    if let Some(a) = extract_after(lower, &OPEN_PREFIXES) {
        return Intent::OpenApp(a);
    }
    if str_contains_word(lower, "unlock") {
        return Intent::UnlockScreen;
    }
    if contains_any(lower, &LOCK_PHRASES) || str_contains_word(lower, "lock") {
        return Intent::LockScreen;
    }
    if contains_any(lower, &SECURITY_PHRASES) {
        return Intent::SecurityTest;
    }
    if contains_any(lower, &AGENT_PHRASES) {
        return Intent::RunAgent;
    }
    if contains_any(lower, &AGENT_STATUS_PHRASES) {
        return Intent::AgentStatus;
    }
    if contains_any(lower, &VOLUME_UP_PHRASES) {
        return Intent::Volume(VolumeChange::Up);
    }
    if contains_any(lower, &VOLUME_DOWN_PHRASES) {
        return Intent::Volume(VolumeChange::Down);
    }
    if contains_any(lower, &MUTE_PHRASES) {
        return Intent::Volume(VolumeChange::MuteToggle);
    }
    if contains_any(lower, &THANKS_PHRASES) {
        return Intent::Reply(CannedReply::Welcome);
    }
    if contains_any(lower, &HELLO_PHRASES) {
        return Intent::Reply(CannedReply::Greeting);
    }
    if contains_any(lower, &NIGHT_PHRASES) {
        return Intent::Reply(CannedReply::GoodNight);
    }
    if contains_any(lower, &STOP_PHRASES) {
        return Intent::Silent;
    }
    Intent::AskModel
}

/// What an utterance asks for: it is lower-cased, then classified.
pub fn parse_command(text: &str) -> (r: Intent)
    ensures
        r@ == classify(lowercase(text@)),
{
    let lower = to_lowercase(text);
    classify_command(lower.as_str())
}


impl CannedReply {
    /// The spoken text.
    pub fn text(&self) -> (r: &'static str)
        ensures
            r@ == match *self {
                CannedReply::Welcome => "You're welcome"@,
                CannedReply::Greeting => "Hello! How can I help you?"@,
                CannedReply::GoodNight => "Good night. Suspending in 5 seconds."@,
            },
    {
        match self {
            CannedReply::Welcome => "You're welcome",
            CannedReply::Greeting => "Hello! How can I help you?",
            CannedReply::GoodNight => "Good night. Suspending in 5 seconds.",
        }
    }
}

impl VolumeChange {
    /// The `pactl` arguments that make the change.
    pub fn pactl_args(&self) -> (r: Vec<&'static str>)
        ensures
            r@.map_values(|a: &str| a@) == match *self {
                VolumeChange::Up => seq!["set-sink-volume"@, "@DEFAULT_SINK@"@, "5%+"@],
                VolumeChange::Down => seq!["set-sink-volume"@, "@DEFAULT_SINK@"@, "5%-"@],
                VolumeChange::MuteToggle => seq!["set-sink-mute"@, "@DEFAULT_SINK@"@, "toggle"@],
            },
    {
        let mut v: Vec<&'static str> = Vec::new();
        match self {
            VolumeChange::Up => {
                v.push("set-sink-volume");
                v.push("@DEFAULT_SINK@");
                v.push("5%+");
            },
            VolumeChange::Down => {
                v.push("set-sink-volume");
                v.push("@DEFAULT_SINK@");
                v.push("5%-");
            },
            VolumeChange::MuteToggle => {
                v.push("set-sink-mute");
                v.push("@DEFAULT_SINK@");
                v.push("toggle");
            },
        }
        assert(v@.map_values(|a: &str| a@) =~= match *self {
            VolumeChange::Up => seq!["set-sink-volume"@, "@DEFAULT_SINK@"@, "5%+"@],
            VolumeChange::Down => seq!["set-sink-volume"@, "@DEFAULT_SINK@"@, "5%-"@],
            VolumeChange::MuteToggle => seq!["set-sink-mute"@, "@DEFAULT_SINK@"@, "toggle"@],
        });
        v
    }

    /// The spoken confirmation.
    pub fn reply(&self) -> (r: &'static str)
        ensures
            r@ == match *self {
                VolumeChange::Up => "Volume up"@,
                VolumeChange::Down => "Volume down"@,
                VolumeChange::MuteToggle => "Mute toggled"@,
            },
    {
        match self {
            VolumeChange::Up => "Volume up",
            VolumeChange::Down => "Volume down",
            VolumeChange::MuteToggle => "Mute toggled",
        }
    }
}

/// The program that opens a named application: known names map to their program, any
/// other name is run as it is. The name is trimmed first.
pub open spec fn app_program(app: Seq<char>) -> Seq<char> {
    let a = trim(app);
    if a == "browser"@ || a == "firefox"@ || a == "web"@ {
        "firefox"@
    } else if a == "terminal"@ || a == "console"@ {
        "gnome-terminal"@
    } else if a == "files"@ || a == "file manager"@ {
        "nautilus"@
    } else if a == "editor"@ || a == "code"@ || a == "vs code"@ || a == "vscode"@ {
        "code"@
    } else if a == "settings"@ {
        "gnome-control-center"@
    } else {
        a
    }
}

/// The program that opens `app`.
pub fn app_command(app: &str) -> (r: String)
    ensures
        r@ == app_program(app@),
{
    let t = string_of(trim_chars(chars_of(app).as_slice()).as_slice());
    let a = t.as_str();
    if str_eq(a, "browser") || str_eq(a, "firefox") || str_eq(a, "web") {
        String::from_str("firefox")
    } else if str_eq(a, "terminal") || str_eq(a, "console") {
        String::from_str("gnome-terminal")
    } else if str_eq(a, "files") || str_eq(a, "file manager") {
        String::from_str("nautilus")
    } else if str_eq(a, "editor") || str_eq(a, "code") || str_eq(a, "vs code") || str_eq(a, "vscode") {
        String::from_str("code")
    } else if str_eq(a, "settings") {
        String::from_str("gnome-control-center")
    } else {
        t
    }
}

/// The shell command that starts the program in the background: `PROGRAM &`.
pub fn launch_command(program: &str) -> (r: String)
    ensures
        r@ == program@ + " &"@,
{
    let mut r = String::from_str(program);
    r.append(" &");
    r
}

/// `Opening APP`, with the name as heard.
pub fn opening_reply(app: &str) -> (r: String)
    ensures
        r@ == "Opening "@ + app@,
{
    let mut r = String::from_str("Opening ");
    r.append(app);
    r
}

/// The reply when the requested profile is not a known one.
pub fn unknown_profile_reply() -> (r: &'static str)
    ensures
        r@ == "Unknown profile. Available: gpu-train, gpu-inference, cognitum-balanced, cognitum-idle"@,
{
    "Unknown profile. Available: gpu-train, gpu-inference, cognitum-balanced, cognitum-idle"
}

/// The reply after the profile tool ran: `Switched to P` when it succeeded, else
/// `Failed to switch to P`.
pub fn switch_reply(profile: &str, succeeded: bool) -> (r: String)
    ensures
        r@ == (if succeeded {
            "Switched to "@
        } else {
            "Failed to switch to "@
        }) + profile@,
{
    let mut r = if succeeded {
        String::from_str("Switched to ")
    } else {
        String::from_str("Failed to switch to ")
    };
    r.append(profile);
    r
}

/// The number of non-overlapping occurrences of `needle` in `hay` from index `i` on,
/// left to right (`str::matches(..).count()`), for a non-empty needle.
pub open spec fn count_from(hay: Seq<char>, needle: Seq<char>, i: int) -> nat
    recommends
        needle.len() > 0,
    decreases hay.len() + 1 - i,
{
    if needle.len() == 0 || i < 0 {
        0
    } else {
        match crate::text::find_from(hay, needle, i) {
            Some(k) => if k >= i {
                proof {
                    crate::text::lemma_find_from(hay, needle, i);
                }
                1 + count_from(hay, needle, k + needle.len())
            } else {
                0
            },
            None => 0,
        }
    }
}

/// The number of non-overlapping occurrences of `needle` in `hay`.
pub fn count_occurrences(hay: &[char], needle: &[char]) -> (r: usize)
    requires
        needle@.len() > 0,
    ensures
        r == count_from(hay@, needle@, 0),
{
    let mut n: usize = 0;
    let mut i: usize = 0;
    while i <= hay.len()
        invariant
            i <= hay@.len() + 1,
            needle@.len() > 0,
            n <= i,
            n + count_from(hay@, needle@, i as int) == count_from(hay@, needle@, 0),
        decreases hay@.len() + 1 - i,
    {
        let rest = copy_range(hay, i, hay.len());
        match find_chars(rest.as_slice(), needle) {
            Some(k) => {
                proof {
                    lemma_find_shift(hay@, needle@, i as int);
                    crate::text::lemma_find_from(hay@, needle@, i as int);
                }
                n = n + 1;
                i = i + k + needle.len();
            },
            None => {
                proof {
                    lemma_find_shift(hay@, needle@, i as int);
                }
                return n;
            },
        }
    }
    n
}

proof fn lemma_find_shift(hay: Seq<char>, needle: Seq<char>, i: int)
    requires
        0 <= i <= hay.len(),
    ensures
        match crate::text::find(hay.subrange(i, hay.len() as int), needle) {
            Some(k) => crate::text::find_from(hay, needle, i) == Some(k + i),
            None => crate::text::find_from(hay, needle, i) is None,
        },
    decreases hay.len() - i,
{
    lemma_find_from_shift(hay, needle, i, i);
}

proof fn lemma_find_from_shift(hay: Seq<char>, needle: Seq<char>, i: int, j: int)
    requires
        0 <= i <= j,
        i <= hay.len(),
        j <= hay.len() + 1,
    ensures
        match crate::text::find_from(hay.subrange(i, hay.len() as int), needle, j - i) {
            Some(k) => crate::text::find_from(hay, needle, j) == Some(k + i),
            None => crate::text::find_from(hay, needle, j) is None,
        },
    decreases hay.len() + 1 - j,
{
    let sub = hay.subrange(i, hay.len() as int);
    assert(sub.len() == hay.len() - i);
    if j + needle.len() > hay.len() {
        assert(crate::text::find_from(sub, needle, j - i) is None);
        assert(crate::text::find_from(hay, needle, j) is None);
    } else {
        assert(sub.subrange(j - i, j - i + needle.len()) =~= hay.subrange(j, j + needle.len()));
        assert(crate::text::matches_at(sub, needle, j - i) == crate::text::matches_at(hay, needle, j));
        if crate::text::matches_at(hay, needle, j) {
            assert(crate::text::find_from(sub, needle, j - i) == Some(j - i));
            assert(crate::text::find_from(hay, needle, j) == Some(j));
        } else {
            lemma_find_from_shift(hay, needle, i, j + 1);
            assert(crate::text::find_from(sub, needle, j - i) == crate::text::find_from(sub, needle, j + 1 - i));
            assert(crate::text::find_from(hay, needle, j) == crate::text::find_from(hay, needle, j + 1));
        }
    }
}

/// The reply after the security self-test: how many of the six cases passed, counted as
/// the occurrences of `PASS` in its output; `None` when the agent could not be run.
pub fn security_reply(output: Option<&str>) -> (r: String)
    ensures
        r@ == match output {
            Some(o) => decimal(count_from(o@, "PASS"@, 0)) + " of 6 security tests passed"@,
            None => "Security test not available"@,
        },
{
    match output {
        Some(o) => {
            let hay = chars_of(o);
            let pass = chars_of("PASS");
            proof {
                reveal_strlit("PASS");
            }
            let n = count_occurrences(hay.as_slice(), pass.as_slice());
            let mut r = decimal_string(n as u64);
            r.append(" of 6 security tests passed");
            r
        },
        None => String::from_str("Security test not available"),
    }
}

/// The reply after a heartbeat was requested.
pub fn run_agent_reply(ran: bool) -> (r: &'static str)
    ensures
        r@ == if ran {
            "Agent heartbeat complete"@
        } else {
            "Agent not available"@
        },
{
    if ran {
        "Agent heartbeat complete"
    } else {
        "Agent not available"
    }
}

/// A status line worth speaking mentions vectors, the brain, or a score.
pub open spec fn status_line_kept(l: Seq<char>) -> bool {
    contains(l, "Vectors"@) || contains(l, "brain:"@) || contains(l, "score"@)
}

/// The kept lines, in order.
pub open spec fn kept_lines(ls: Seq<Seq<char>>) -> Seq<Seq<char>>
    decreases ls.len(),
{
    if ls.len() == 0 {
        seq![]
    } else if status_line_kept(ls.last()) {
        kept_lines(ls.drop_last()).push(ls.last())
    } else {
        kept_lines(ls.drop_last())
    }
}

/// The reply to "agent status": the lines of the agent's status output that mention
/// vectors, the brain or a score, joined by `. `; `Agent is running` when there are none;
/// `Agent not available` when the agent could not be run.
pub fn agent_status_reply(output: Option<&str>) -> (r: String)
    ensures
        r@ == match output {
            Some(o) => if kept_lines(lines(o@)).len() == 0 {
                "Agent is running"@
            } else {
                join(kept_lines(lines(o@)), ". "@)
            },
            None => "Agent not available"@,
        },
{
    match output {
        Some(o) => {
            let cs = chars_of(o);
            let ls = lines_chars(cs.as_slice());
            let ghost all = lines(o@);
            let v = chars_of("Vectors");
            let b = chars_of("brain:");
            let s = chars_of("score");
            let mut kept: Vec<Vec<char>> = Vec::new();
            let mut i: usize = 0;
            while i < ls.len()
                invariant
                    i <= ls@.len(),
                    ls@.len() == all.len(),
                    all == lines(o@),
                    v@ == "Vectors"@,
                    b@ == "brain:"@,
                    s@ == "score"@,
                    forall|k: int| 0 <= k < ls@.len() ==> #[trigger] ls@[k]@ == all[k],
                    kept@.map_values(|x: Vec<char>| x@) == kept_lines(all.take(i as int)),
                decreases ls@.len() - i,
            {
                assert(all.take(i + 1).drop_last() =~= all.take(i as int));
                let l = &ls[i];
                if contains_chars(l.as_slice(), v.as_slice()) || contains_chars(l.as_slice(), b.as_slice())
                    || contains_chars(l.as_slice(), s.as_slice()) {
                    kept.push(copy_range(l.as_slice(), 0, l.len()));
                    assert(l@.subrange(0, l@.len() as int) =~= l@);
                }
                assert(kept@.map_values(|x: Vec<char>| x@) =~= kept_lines(all.take(i + 1)));
                i = i + 1;
            }
            assert(all.take(ls@.len() as int) =~= all);
            if kept.len() == 0 {
                String::from_str("Agent is running")
            } else {
                join_chars(&kept, ". ")
            }
        },
        None => String::from_str("Agent not available"),
    }
}

/// The network of the first `nmcli` device line that mentions wifi, when that line has at
/// least three colon-separated fields: the third.
pub open spec fn wifi_network(report: Seq<char>) -> Option<Seq<char>>
    decreases lines(report).len(),
{
    first_wifi(lines(report))
}

/// The third field of the first line of `ls` that mentions wifi, if it has one.
pub open spec fn first_wifi(ls: Seq<Seq<char>>) -> Option<Seq<char>>
    decreases ls.len(),
{
    if ls.len() == 0 {
        None
    } else if contains(ls[0], "wifi"@) {
        let p = split_on(ls[0], ':');
        if p.len() >= 3 {
            Some(p[2])
        } else {
            None
        }
    } else {
        first_wifi(ls.drop_first())
    }
}

/// The network that `nmcli -t -f DEVICE,STATE,CONNECTION device status` reports for wifi.
pub fn wifi_network_of(report: &str) -> (r: Option<String>)
    ensures
        opt_text(r) == wifi_network(report@),
{
    let cs = chars_of(report);
    let ls = lines_chars(cs.as_slice());
    let ghost all = lines(report@);
    let w = chars_of("wifi");
    let mut i: usize = 0;
    assert(all.skip(0) =~= all);
    while i < ls.len()
        invariant
            i <= ls@.len(),
            ls@.len() == all.len(),
            all == lines(report@),
            w@ == "wifi"@,
            forall|k: int| 0 <= k < ls@.len() ==> #[trigger] ls@[k]@ == all[k],
            first_wifi(all) == first_wifi(all.skip(i as int)),
        decreases ls@.len() - i,
    {
        assert(all.skip(i as int)[0] == all[i as int]);
        assert(all.skip(i as int).drop_first() =~= all.skip(i + 1));
        if contains_chars(ls[i].as_slice(), w.as_slice()) {
            let p = split_chars(ls[i].as_slice(), ':');
            if p.len() >= 3 {
                return Some(string_of(p[2].as_slice()));
            }
            return None;
        }
        i = i + 1;
    }
    None
}

/// The reply to "system status": the brain's memory count, the uptime, the wifi network,
/// each when known, joined by `. `; `System is running` when none is known. `memories` is
/// the count the brain reported, `uptime` the output of `uptime -p`, `devices` that of
/// `nmcli`, each `None` when it could not be had.
pub open spec fn status_parts(memories: Option<i64>, uptime: Option<Seq<char>>, devices: Option<Seq<char>>) -> Seq<Seq<char>> {
    (match memories {
        Some(m) => seq!["Brain has "@ + signed_decimal(m as int) + " memories"@],
        None => seq![],
    }) + (match uptime {
        Some(u) => seq!["System "@ + trim(u)],
        None => seq![],
    }) + (match devices {
        Some(d) => match wifi_network(d) {
            Some(n) => seq!["WiFi connected to "@ + n],
            None => seq![],
        },
        None => seq![],
    })
}

/// The spoken system status.
pub fn system_status_reply(memories: Option<i64>, uptime: Option<&str>, devices: Option<&str>) -> (r: String)
    ensures
        r@ == if status_parts(
            memories,
            match uptime {
                Some(u) => Some(u@),
                None => None,
            },
            match devices {
                Some(d) => Some(d@),
                None => None,
            },
        ).len() == 0 {
            "System is running"@
        } else {
            join(
                status_parts(
                    memories,
                    match uptime {
                        Some(u) => Some(u@),
                        None => None,
                    },
                    match devices {
                        Some(d) => Some(d@),
                        None => None,
                    },
                ),
                ". "@,
            )
        },
{
    let ghost up = match uptime {
        Some(u) => Some(u@),
        None => None::<Seq<char>>,
    };
    let ghost dv = match devices {
        Some(d) => Some(d@),
        None => None::<Seq<char>>,
    };
    let mut parts: Vec<Vec<char>> = Vec::new();
    if let Some(m) = memories {
        let mut p = String::from_str("Brain has ");
        p.append(signed_decimal_string(m).as_str());
        p.append(" memories");
        parts.push(chars_of(p.as_str()));
    }
    let ghost a = parts@.map_values(|x: Vec<char>| x@);
    if let Some(u) = uptime {
        let mut p = String::from_str("System ");
        p.append(string_of(trim_chars(chars_of(u).as_slice()).as_slice()).as_str());
        parts.push(chars_of(p.as_str()));
    }
    let ghost b = parts@.map_values(|x: Vec<char>| x@);
    if let Some(d) = devices {
        if let Some(n) = wifi_network_of(d) {
            let mut p = String::from_str("WiFi connected to ");
            p.append(n.as_str());
            parts.push(chars_of(p.as_str()));
        }
    }
    assert(parts@.map_values(|x: Vec<char>| x@) =~= status_parts(memories, up, dv));
    if parts.len() == 0 {
        String::from_str("System is running")
    } else {
        join_chars(&parts, ". ")
    }
}

/// The reply to "what did you learn": the categories of the most recent memories, or that
/// there are none; `categories` is `None` when the brain could not be reached.
pub fn recent_reply(categories: Option<&Vec<String>>, count: usize) -> (r: String)
    ensures
        r@ == match categories {
            Some(c) => if count == 0 {
                "No recent memories"@
            } else {
                "Last "@ + decimal(count as nat) + " memories are in categories: "@ + join(
                    c@.map_values(|s: String| s@),
                    ", "@,
                )
            },
            None => "Brain is not available"@,
        },
{
    match categories {
        Some(c) => {
            if count == 0 {
                String::from_str("No recent memories")
            } else {
                let mut r = String::from_str("Last ");
                r.append(decimal_string(count as u64).as_str());
                r.append(" memories are in categories: ");
                let mut parts: Vec<Vec<char>> = Vec::new();
                let mut i: usize = 0;
                while i < c.len()
                    invariant
                        i <= c@.len(),
                        parts@.len() == i,
                        forall|k: int| 0 <= k < i ==> #[trigger] parts@[k]@ == c@[k]@,
                    decreases c@.len() - i,
                {
                    parts.push(chars_of(c[i].as_str()));
                    i = i + 1;
                }
                assert(parts@.map_values(|x: Vec<char>| x@) =~= c@.map_values(|s: String| s@));
                r.append(join_chars(&parts, ", ").as_str());
                r
            }
        },
        None => String::from_str("Brain is not available"),
    }
}

/// What the listener does with one transcription.
#[derive(Clone, Copy, PartialEq, Eq, Debug, Structural)]
pub enum WakeStep {
    /// Not listening and no wake word: drop it.
    Ignore,
    /// The wake word was heard: start listening and signal readiness.
    Activate,
    /// Hand the transcription over as a command.
    Dispatch,
}

/// The listener's decision for a transcription `heard` (lower-cased): while not
/// listening (and not always on), only the wake word or "jarvis" activates it; otherwise
/// a non-empty transcription is dispatched.
pub open spec fn wake_step_of(listening: bool, always_on: bool, heard: Seq<char>, wake: Seq<char>) -> WakeStep {
    if !listening && !always_on {
        if contains(heard, wake) || contains(heard, "jarvis"@) {
            WakeStep::Activate
        } else {
            WakeStep::Ignore
        }
    } else if heard.len() > 0 {
        WakeStep::Dispatch
    } else {
        WakeStep::Ignore
    }
}

/// Decides what the listener does with a transcription and whether it listens afterwards:
/// activating starts listening, dispatching stops it unless always on.
pub fn wake_step(listening: bool, always_on: bool, heard: &str, wake: &str) -> (r: (WakeStep, bool))
    ensures
        r.0 == wake_step_of(listening, always_on, heard@, wake@),
        r.1 == match r.0 {
            WakeStep::Activate => true,
            WakeStep::Dispatch => always_on,
            WakeStep::Ignore => listening,
        },
{
    if !listening && !always_on {
        if str_contains(heard, wake) || str_contains(heard, "jarvis") {
            (WakeStep::Activate, true)
        } else {
            (WakeStep::Ignore, listening)
        }
    } else if !heard.is_empty() {
        (WakeStep::Dispatch, always_on)
    } else {
        (WakeStep::Ignore, listening)
    }
}


/// A transcript line worth keeping: not blank and not a bracketed timestamp or notice.
pub open spec fn transcript_line_kept(l: Seq<char>) -> bool {
    trim(l).len() > 0 && !(l.len() > 0 && l[0] == '[')
}

/// The kept transcript lines, in order.
pub open spec fn transcript_lines(ls: Seq<Seq<char>>) -> Seq<Seq<char>>
    decreases ls.len(),
{
    if ls.len() == 0 {
        seq![]
    } else if transcript_line_kept(ls.last()) {
        transcript_lines(ls.drop_last()).push(ls.last())
    } else {
        transcript_lines(ls.drop_last())
    }
}

/// The text of a whisper transcription: the kept lines of its output joined by spaces,
/// trimmed.
pub fn transcript_text(output: &str) -> (r: String)
    ensures
        r@ == trim(join(transcript_lines(lines(output@)), " "@)),
{
    let cs = chars_of(output);
    let ls = lines_chars(cs.as_slice());
    let ghost all = lines(output@);
    let mut kept: Vec<Vec<char>> = Vec::new();
    let mut i: usize = 0;
    while i < ls.len()
        invariant
            i <= ls@.len(),
            ls@.len() == all.len(),
            all == lines(output@),
            forall|k: int| 0 <= k < ls@.len() ==> #[trigger] ls@[k]@ == all[k],
            kept@.map_values(|x: Vec<char>| x@) == transcript_lines(all.take(i as int)),
        decreases ls@.len() - i,
    {
        assert(all.take(i + 1).drop_last() =~= all.take(i as int));
        let l = &ls[i];
        let t = trim_chars(l.as_slice());
        if t.len() > 0 && !(l.len() > 0 && l[0] == '[') {
            kept.push(copy_range(l.as_slice(), 0, l.len()));
            assert(l@.subrange(0, l@.len() as int) =~= l@);
        }
        assert(kept@.map_values(|x: Vec<char>| x@) =~= transcript_lines(all.take(i + 1)));
        i = i + 1;
    }
    assert(all.take(ls@.len() as int) =~= all);
    let joined = join_chars(&kept, " ");
    string_of(trim_chars(chars_of(joined.as_str()).as_slice()).as_slice())
}

/// The whisper command lines to try, in order: the user's model, then the system's.
pub fn whisper_commands(home: &str, model: &str, wav: &str) -> (r: Vec<String>)
    ensures
        r@.len() == 2,
        r@[0]@ == "whisper-cpp -t 2 -m "@ + home@ + "/.local/share/whisper/ggml-"@ + model@ + ".bin -f "@
            + wav@ + " -np -nt"@,
        r@[1]@ == "whisper-cpp -t 2 -m /usr/share/whisper-cpp/models/ggml-"@ + model@ + ".bin -f "@
            + wav@ + " -np -nt"@,
{
    let mut a = String::from_str("whisper-cpp -t 2 -m ");
    a.append(home);
    a.append("/.local/share/whisper/ggml-");
    a.append(model);
    a.append(".bin -f ");
    a.append(wav);
    a.append(" -np -nt");
    let mut b = String::from_str("whisper-cpp -t 2 -m /usr/share/whisper-cpp/models/ggml-");
    b.append(model);
    b.append(".bin -f ");
    b.append(wav);
    b.append(" -np -nt");
    let mut r: Vec<String> = Vec::new();
    r.push(a);
    r.push(b);
    r
}

/// The microphone counts as muted when the pause flag is set or `pactl` reports the
/// default source muted (`None` when `pactl` could not be run).
pub fn mic_muted(paused: bool, pactl: Option<&str>) -> (r: bool)
    ensures
        r == (paused || match pactl {
            Some(o) => contains(o@, "yes"@),
            None => false,
        }),
{
    if paused {
        return true;
    }
    match pactl {
        Some(o) => str_contains(o, "yes"),
        None => false,
    }
}

/// What is spoken of a reply: nothing for an empty reply, else its first 300 bytes. The
/// cut must fall on a character boundary.
pub fn spoken_text(text: &str) -> (r: Option<&str>)
    requires
        text.spec_bytes().len() <= 300 || vstd::utf8::is_char_boundary(text.spec_bytes(), 300),
    ensures
        text@.len() == 0 ==> r is None,
        text@.len() > 0 ==> (r matches Some(t) && t.spec_bytes() == text.spec_bytes().take(
            if text.spec_bytes().len() < 300 {
                text.spec_bytes().len() as int
            } else {
                300
            },
        )),
{
    if text.is_empty() {
        return None;
    }
    Some(crate::text::prefix_bytes(text, 300))
}


/// Every alias of the known applications opens its program, the name trimmed first:
/// browser, firefox and web open `firefox`; terminal and console `gnome-terminal`; files
/// and file manager `nautilus`; editor, code, vs code and vscode `code`; settings
/// `gnome-control-center`. Any other name is run as it is, trimmed.
pub proof fn lemma_app_aliases(app: Seq<char>)
    ensures
        trim(app) == "browser"@ || trim(app) == "firefox"@ || trim(app) == "web"@ ==> app_program(app) == "firefox"@,
        trim(app) == "terminal"@ || trim(app) == "console"@ ==> app_program(app) == "gnome-terminal"@,
        trim(app) == "files"@ || trim(app) == "file manager"@ ==> app_program(app) == "nautilus"@,
        trim(app) == "editor"@ || trim(app) == "code"@ || trim(app) == "vs code"@ || trim(app) == "vscode"@
            ==> app_program(app) == "code"@,
        trim(app) == "settings"@ ==> app_program(app) == "gnome-control-center"@,
        !(trim(app) == "browser"@ || trim(app) == "firefox"@ || trim(app) == "web"@ || trim(app) == "terminal"@
            || trim(app) == "console"@ || trim(app) == "files"@ || trim(app) == "file manager"@ || trim(app)
            == "editor"@ || trim(app) == "code"@ || trim(app) == "vs code"@ || trim(app) == "vscode"@ || trim(app)
            == "settings"@) ==> app_program(app) == trim(app),
{
    reveal_strlit("browser");
    reveal_strlit("firefox");
    reveal_strlit("web");
    reveal_strlit("terminal");
    reveal_strlit("console");
    reveal_strlit("files");
    reveal_strlit("file manager");
    reveal_strlit("editor");
    reveal_strlit("code");
    reveal_strlit("vs code");
    reveal_strlit("vscode");
    reveal_strlit("settings");
    assert("browser"@.len() == 7 && "browser"@[0] == 'b');
    assert("firefox"@.len() == 7 && "firefox"@[0] == 'f');
    assert("web"@.len() == 3 && "web"@[0] == 'w');
    assert("terminal"@.len() == 8 && "terminal"@[0] == 't');
    assert("console"@.len() == 7 && "console"@[0] == 'c');
    assert("files"@.len() == 5 && "files"@[0] == 'f');
    assert("file manager"@.len() == 12 && "file manager"@[0] == 'f');
    assert("editor"@.len() == 6 && "editor"@[0] == 'e');
    assert("code"@.len() == 4 && "code"@[0] == 'c');
    assert("vs code"@.len() == 7 && "vs code"@[0] == 'v');
    assert("vscode"@.len() == 6 && "vscode"@[0] == 'v');
    assert("settings"@.len() == 8 && "settings"@[0] == 's');
}

} // verus!
