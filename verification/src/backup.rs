//! Incremental backups: the snapshot manifest, pruning and lookup, the rsync command
//! lines, and reading rsync and du reports.

use vstd::prelude::*;
use vstd::string::StringExecFns;
use crate::text::{chars_of, contains, contains_chars, decimal, decimal_string, digit_char, join, lines, lines_chars, parse_u64, parse_u64_chars, push_char, split_chars, split_on, str_eq, string_of, strip_prefixes, strip_prefixes_chars, trim, trim_chars, words, words_chars};

verus! {

/// The directories that a snapshot copies.
pub const BACKUP_SOURCES: [&'static str; 4] = ["/etc", "/home", "/usr/local/bin", "/usr/local/lib/ruos"];

/// The paths that a snapshot leaves out.
pub const EXCLUDE: [&'static str; 10] = [
    ".cache",
    ".local/share/Trash",
    "node_modules",
    ".npm",
    "__pycache__",
    "*.pyc",
    ".cargo/registry",
    "target/debug",
    "target/release",
    "snap",
];

/// One snapshot as the manifest records it.
#[derive(Debug)]
pub struct Snapshot {
    pub id: String,
    pub created_at: String,
    pub size_bytes: u64,
    pub files_changed: u64,
    pub source: String,
    pub description: String,
}

/// All snapshots, oldest first.
#[derive(Debug)]
pub struct Manifest {
    pub snapshots: Vec<Snapshot>,
}

/// The index of the snapshot that `id` names: `latest` and `last` name the newest,
/// anything else the first snapshot with that id.
pub open spec fn snapshot_index(ss: Seq<Snapshot>, id: Seq<char>) -> Option<int> {
    if id == "latest"@ || id == "last"@ {
        if ss.len() > 0 {
            Some(ss.len() - 1)
        } else {
            None
        }
    } else {
        first_with_id(ss, id, 0)
    }
}

/// The first index at or after `i` of a snapshot with the given id.
pub open spec fn first_with_id(ss: Seq<Snapshot>, id: Seq<char>, i: int) -> Option<int>
    decreases ss.len() - i,
{
    if i < 0 || i >= ss.len() {
        None
    } else if ss[i].id@ == id {
        Some(i)
    } else {
        first_with_id(ss, id, i + 1)
    }
}

impl Manifest {
    /// The index of the snapshot that `id` names, if any.
    pub fn find(&self, id: &str) -> (r: Option<usize>)
        ensures
            match r {
                Some(k) => snapshot_index(self.snapshots@, id@) == Some(k as int),
                None => snapshot_index(self.snapshots@, id@) is None,
            },
    {
        if str_eq(id, "latest") || str_eq(id, "last") {
            if self.snapshots.len() > 0 {
                return Some(self.snapshots.len() - 1);
            }
            return None;
        }
        let mut i: usize = 0;
        while i < self.snapshots.len()
            invariant
                i <= self.snapshots@.len(),
                !(id@ == "latest"@ || id@ == "last"@),
                first_with_id(self.snapshots@, id@, 0) == first_with_id(self.snapshots@, id@, i as int),
            decreases self.snapshots@.len() - i,
        {
            if str_eq(self.snapshots[i].id.as_str(), id) {
                return Some(i);
            }
            i = i + 1;
        }
        None
    }

    /// Deletes all but the newest `keep` snapshots from the manifest and returns the
    /// deleted ones, oldest first. With at most `keep` snapshots nothing changes.
    pub fn prune(&mut self, keep: usize) -> (removed: Vec<Snapshot>)
        ensures
            old(self).snapshots@.len() <= keep ==> removed@.len() == 0 && final(self).snapshots@
                == old(self).snapshots@,
            old(self).snapshots@.len() > keep ==> final(self).snapshots@.len() == keep,
            removed@ + final(self).snapshots@ == old(self).snapshots@,
    {
        if self.snapshots.len() <= keep {
            assert(Seq::<Snapshot>::empty() + self.snapshots@ =~= self.snapshots@);
            return Vec::new();
        }
        let to_remove = self.snapshots.len() - keep;
        let mut kept = self.snapshots.split_off(to_remove);
        std::mem::swap(&mut self.snapshots, &mut kept);
        assert(kept@ + self.snapshots@ =~= old(self).snapshots@);
        kept
    }
}

/// Deleting keeps the newest: after pruning to `keep`, the manifest holds exactly the
/// last `keep` snapshots of the old one, in order.
pub proof fn lemma_prune_keeps_newest(old_ss: Seq<Snapshot>, removed: Seq<Snapshot>, new_ss: Seq<Snapshot>, keep: nat)
    requires
        old_ss.len() > keep,
        new_ss.len() == keep,
        removed + new_ss == old_ss,
    ensures
        new_ss == old_ss.skip(old_ss.len() - keep),
        removed == old_ss.take(old_ss.len() - keep),
{
    assert((removed + new_ss).skip(removed.len() as int) =~= new_ss);
    assert((removed + new_ss).take(removed.len() as int) =~= removed);
}

/// `q` rounded after a division whose remainder is `r`, `half` being half the divisor:
/// to nearest, ties to even, as Rust's float formatting rounds.
pub open spec fn round_half_even(q: nat, r: nat, half: nat) -> nat {
    if r > half || (r == half && q % 2 == 1) {
        q + 1
    } else {
        q
    }
}

/// A count of tenths written with one decimal place.
pub open spec fn tenths_text(n: nat) -> Seq<char> {
    decimal(n / 10) + "."@ + seq![digit_char(n % 10)]
}

/// A byte count for people: whole bytes below 1 KiB, whole KiB below 1 MiB, MiB with one
/// decimal below 1 GiB, else GiB with one decimal.
pub open spec fn human_size_text(b: nat) -> Seq<char> {
    if b < 1024 {
        decimal(b) + "B"@
    } else if b < 1048576 {
        decimal(round_half_even(b / 1024, b % 1024, 512)) + "K"@
    } else if b < 1073741824 {
        tenths_text(round_half_even(b * 10 / 1048576, (b * 10) % 1048576, 524288)) + "M"@
    } else {
        tenths_text(round_half_even(b * 10 / 1073741824, (b * 10) % 1073741824, 536870912)) + "G"@
    }
}

/// `n / d` rounded to nearest, ties to even, for an even divisor `d`.
fn rounded_units(n: u128, d: u128) -> (r: u128)
    requires
        d > 0,
        n <= 0xFFFF_FFFF_FFFF_FFFF * 10,
    ensures
        r as nat == round_half_even(n as nat / d as nat, n as nat % d as nat, d as nat / 2),
{
    let q = n / d;
    let r = n % d;
    let half = d / 2;
    assert(q <= n) by (nonlinear_arith)
        requires
            q == n / d,
            d > 0,
    ;
    if r > half || (r == half && q % 2 == 1) {
        q + 1
    } else {
        q
    }
}

/// Appends `n` tenths with one decimal place.
fn push_tenths(s: &mut String, n: u128)
    ensures
        final(s)@ == old(s)@ + tenths_text(n as nat),
{
    crate::text::push_decimal(s, n / 10);
    push_char(s, '.');
    let d = (n % 10) as u8;
    let c = match d {
        0 => '0',
        1 => '1',
        2 => '2',
        3 => '3',
        4 => '4',
        5 => '5',
        6 => '6',
        7 => '7',
        8 => '8',
        _ => '9',
    };
    assert(c == digit_char((n % 10) as nat));
    push_char(s, c);
    proof {
        reveal_strlit(".");
    }
    assert(s@ =~= old(s)@ + tenths_text(n as nat));
}

/// Formats a byte count for people (`123B`, `45K`, `6.7M`, `8.9G`).
pub fn human_size(bytes: u64) -> (r: String)
    ensures
        r@ == human_size_text(bytes as nat),
{
    let b = bytes as u128;
    if bytes < 1024 {
        let mut s = decimal_string(bytes);
        s.append("B");
        s
    } else if bytes < 1048576 {
        let k = rounded_units(b, 1024);
        let mut s = String::new();
        crate::text::push_decimal(&mut s, k);
        s.append("K");
        s
    } else if bytes < 1073741824 {
        let t = rounded_units(b * 10, 1048576);
        let mut s = String::new();
        push_tenths(&mut s, t);
        s.append("M");
        s
    } else {
        let t = rounded_units(b * 10, 1073741824);
        let mut s = String::new();
        push_tenths(&mut s, t);
        s.append("G");
        s
    }
}

/// `s` without any `c`.
pub open spec fn without_char(s: Seq<char>, c: char) -> Seq<char>
    decreases s.len(),
{
    if s.len() == 0 {
        seq![]
    } else if s.last() == c {
        without_char(s.drop_last(), c)
    } else {
        without_char(s.drop_last(), c).push(s.last())
    }
}

/// The first line of `ls` that contains `needle`.
pub open spec fn first_line_with(ls: Seq<Seq<char>>, needle: Seq<char>) -> Option<Seq<char>>
    decreases ls.len(),
{
    if ls.len() == 0 {
        None
    } else if contains(ls[0], needle) {
        Some(ls[0])
    } else {
        first_line_with(ls.drop_first(), needle)
    }
}

/// The number that rsync's `--stats` report gives for the transferred files: on the first
/// line that mentions "files transferred", the text after the first colon, trimmed, with
/// thousands separators removed. Nothing when there is no such line or it does not parse.
pub open spec fn files_transferred(report: Seq<char>) -> Option<u64> {
    match first_line_with(lines(report), "files transferred"@) {
        Some(l) => {
            let p = split_on(l, ':');
            if p.len() >= 2 {
                parse_u64(without_char(trim(p[1]), ','))
            } else {
                None
            }
        },
        None => None,
    }
}

/// `s` without any `c`.
fn remove_char(s: &[char], c: char) -> (r: Vec<char>)
    ensures
        r@ == without_char(s@, c),
{
    let mut r: Vec<char> = Vec::new();
    let mut i: usize = 0;
    while i < s.len()
        invariant
            i <= s@.len(),
            r@ == without_char(s@.take(i as int), c),
        decreases s@.len() - i,
    {
        assert(s@.take(i + 1).drop_last() =~= s@.take(i as int));
        if s[i] != c {
            r.push(s[i]);
        }
        i = i + 1;
    }
    assert(s@.take(s@.len() as int) =~= s@);
    r
}

/// Reads the number of transferred files from an rsync `--stats` report.
pub fn parse_files_transferred(report: &str) -> (r: Option<u64>)
    ensures
        r == files_transferred(report@),
{
    let cs = chars_of(report);
    let ls = lines_chars(cs.as_slice());
    let ghost all = lines(report@);
    let needle = chars_of("files transferred");
    let mut i: usize = 0;
    assert(all.skip(0) =~= all);
    while i < ls.len()
        invariant
            i <= ls@.len(),
            ls@.len() == all.len(),
            all == lines(report@),
            needle@ == "files transferred"@,
            forall|k: int| 0 <= k < ls@.len() ==> #[trigger] ls@[k]@ == all[k],
            first_line_with(all, needle@) == first_line_with(all.skip(i as int), needle@),
        decreases ls@.len() - i,
    {
        assert(all.skip(i as int)[0] == all[i as int]);
        assert(all.skip(i as int).drop_first() =~= all.skip(i + 1));
        if contains_chars(ls[i].as_slice(), needle.as_slice()) {
            let p = split_chars(ls[i].as_slice(), ':');
            if p.len() >= 2 {
                let t = trim_chars(p[1].as_slice());
                let d = remove_char(t.as_slice(), ',');
                return parse_u64_chars(d.as_slice());
            }
            return None;
        }
        i = i + 1;
    }
    None
}

/// The size that `du -sb` reports: its first word, 0 when there is none or it does not
/// parse.
pub open spec fn du_size(report: Seq<char>) -> u64 {
    let w = words(report);
    if w.len() == 0 {
        0
    } else {
        match parse_u64(w[0]) {
            Some(v) => v,
            None => 0,
        }
    }
}

/// Reads the size from `du -sb` output.
pub fn parse_du_size(report: &str) -> (r: u64)
    ensures
        r == du_size(report@),
{
    let cs = chars_of(report);
    let w = words_chars(cs.as_slice());
    if w.len() == 0 {
        return 0;
    }
    match parse_u64_chars(w[0].as_slice()) {
        Some(v) => v,
        None => 0,
    }
}

/// A backup source as a path inside the snapshot: without its leading slashes.
pub fn relative_source(source: &str) -> (r: String)
    ensures
        r@ == strip_prefixes(source@, "/"@),
{
    let cs = chars_of(source);
    let slash = chars_of("/");
    string_of(strip_prefixes_chars(cs.as_slice(), slash.as_slice()).as_slice())
}

/// The arguments of the rsync run that copies `source` into `dest`.
pub open spec fn rsync_arg_texts(source: Seq<char>, dest: Seq<char>, link_dest: Option<Seq<char>>) -> Seq<Seq<char>> {
    seq!["-a"@, "--delete"@, "--stats"@] + (match link_dest {
        Some(l) => seq!["--link-dest="@ + l],
        None => seq![],
    }) + Seq::new(10, |i: int| "--exclude="@ + EXCLUDE@[i]@) + seq![source + "/"@, dest + "/"@]
}

/// The arguments of the rsync run that copies `source` into `dest`: archive mode,
/// deletions and statistics, hard links into the previous snapshot when there is one,
/// the exclusions, then source and destination each with a trailing slash.
pub fn rsync_args(source: &str, dest: &str, link_dest: Option<&str>) -> (r: Vec<String>)
    ensures
        r@.map_values(|a: String| a@) == rsync_arg_texts(
            source@,
            dest@,
            match link_dest {
                Some(l) => Some(l@),
                None => None,
            },
        ),
{
    let mut r: Vec<String> = Vec::new();
    r.push(String::from_str("-a"));
    r.push(String::from_str("--delete"));
    r.push(String::from_str("--stats"));
    if let Some(l) = link_dest {
        let mut a = String::from_str("--link-dest=");
        a.append(l);
        r.push(a);
    }
    let ghost head = r@.map_values(|a: String| a@);
    let mut i: usize = 0;
    while i < 10
        invariant
            i <= 10,
            r@.map_values(|a: String| a@) == head + Seq::new(i as nat, |k: int| "--exclude="@ + EXCLUDE@[k]@),
        decreases 10 - i,
    {
        let mut a = String::from_str("--exclude=");
        a.append(EXCLUDE[i]);
        let ghost prev = r@;
        let ghost av = a@;
        assert(av == "--exclude="@ + EXCLUDE@[i as int]@);
        r.push(a);
        assert(r@.map_values(|a: String| a@) =~= prev.map_values(|a: String| a@).push(av));
        assert(r@.map_values(|a: String| a@) =~= head + Seq::new((i + 1) as nat, |k: int| "--exclude="@ + EXCLUDE@[k]@));
        i = i + 1;
    }
    let ghost mid = r@;
    let mut s = String::from_str(source);
    s.append("/");
    let ghost sv = s@;
    r.push(s);
    let mut d = String::from_str(dest);
    d.append("/");
    let ghost dv = d@;
    r.push(d);
    assert(r@.map_values(|a: String| a@) =~= mid.map_values(|a: String| a@).push(sv).push(dv));
    assert(r@.map_values(|a: String| a@) =~= rsync_arg_texts(
        source@,
        dest@,
        match link_dest {
            Some(l) => Some(l@),
            None => None,
        },
    ));
    r
}

/// The sources as a snapshot records them: joined by `, `.
pub fn sources_text() -> (r: String)
    ensures
        r@ == join(Seq::new(4, |i: int| BACKUP_SOURCES@[i]@), ", "@),
{
    let mut parts: Vec<Vec<char>> = Vec::new();
    let mut i: usize = 0;
    while i < 4
        invariant
            i <= 4,
            parts@.len() == i,
            forall|k: int| 0 <= k < i ==> #[trigger] parts@[k]@ == BACKUP_SOURCES@[k]@,
        decreases 4 - i,
    {
        parts.push(chars_of(BACKUP_SOURCES[i]));
        i = i + 1;
    }
    assert(parts@.map_values(|x: Vec<char>| x@) =~= Seq::new(4, |i: int| BACKUP_SOURCES@[i]@));
    crate::text::join_chars(&parts, ", ")
}


/// The directory of the user's systemd units.
pub fn systemd_user_dir(home: &str) -> (r: String)
    ensures
        r@ == home@ + "/.config/systemd/user"@,
{
    let mut r = String::from_str(home);
    r.append("/.config/systemd/user");
    r
}

/// The unit that takes the daily snapshot.
pub fn snapshot_service_unit(home: &str) -> (r: String)
    ensures
        r@ == "[Unit]\nDescription=ruOS daily backup snapshot\n\n[Service]\nType=oneshot\nExecStart="@
            + home@ + "/.local/bin/ruos-backup snapshot -d \"daily auto-backup\"\n"@,
{
    let mut r = String::from_str("[Unit]\nDescription=ruOS daily backup snapshot\n\n[Service]\nType=oneshot\nExecStart=");
    r.append(home);
    r.append("/.local/bin/ruos-backup snapshot -d \"daily auto-backup\"\n");
    r
}

/// The timer that runs the snapshot daily at 2 AM.
pub const SNAPSHOT_TIMER_UNIT: &'static str = "[Unit]\nDescription=ruOS daily backup at 2 AM\n\n[Timer]\nOnCalendar=*-*-* 02:00:00\nPersistent=true\nRandomizedDelaySec=600\n\n[Install]\nWantedBy=timers.target\n";

/// The unit that prunes to the last 7 snapshots.
pub fn prune_service_unit(home: &str) -> (r: String)
    ensures
        r@ == "[Unit]\nDescription=ruOS backup prune \u{2014} keep last 7 snapshots\n\n[Service]\nType=oneshot\nExecStart="@
            + home@ + "/.local/bin/ruos-backup prune --keep 7\n"@,
{
    let mut r = String::from_str("[Unit]\nDescription=ruOS backup prune \u{2014} keep last 7 snapshots\n\n[Service]\nType=oneshot\nExecStart=");
    r.append(home);
    r.append("/.local/bin/ruos-backup prune --keep 7\n");
    r
}

/// The timer that prunes weekly, Sundays at 3 AM.
pub const PRUNE_TIMER_UNIT: &'static str = "[Unit]\nDescription=ruOS weekly backup prune\n\n[Timer]\nOnCalendar=Sun *-*-* 03:00:00\nPersistent=true\n\n[Install]\nWantedBy=timers.target\n";


/// Lookup by id is exact: an id other than `latest` or `last` names the first snapshot
/// whose id equals it character for character, and nothing when no snapshot has it;
/// `latest` and `last` name the newest snapshot.
pub proof fn lemma_find_is_exact(ss: Seq<Snapshot>, id: Seq<char>)
    ensures
        !(id == "latest"@ || id == "last"@) ==> match snapshot_index(ss, id) {
            Some(k) => 0 <= k < ss.len() && ss[k].id@ == id && forall|j: int| 0 <= j < k ==> ss[j].id@ != id,
            None => forall|j: int| 0 <= j < ss.len() ==> ss[j].id@ != id,
        },
        (id == "latest"@ || id == "last"@) ==> snapshot_index(ss, id) == if ss.len() > 0 {
            Some(ss.len() - 1)
        } else {
            None::<int>
        },
{
    lemma_first_with_id(ss, id, 0);
}

proof fn lemma_first_with_id(ss: Seq<Snapshot>, id: Seq<char>, i: int)
    requires
        0 <= i,
    ensures
        match first_with_id(ss, id, i) {
            Some(k) => i <= k < ss.len() && ss[k].id@ == id && forall|j: int| i <= j < k ==> ss[j].id@ != id,
            None => forall|j: int| i <= j < ss.len() ==> ss[j].id@ != id,
        },
    decreases ss.len() - i,
{
    if i < ss.len() && ss[i].id@ != id {
        lemma_first_with_id(ss, id, i + 1);
    }
}

} // verus!
