use ruos::backup::{human_size, parse_du_size, parse_files_transferred, relative_source, rsync_args, sources_text, Manifest, Snapshot};

fn float_human_size(bytes: u64) -> String {
    if bytes < 1024 {
        return format!("{bytes}B");
    }
    if bytes < 1048576 {
        return format!("{:.0}K", bytes as f64 / 1024.0);
    }
    if bytes < 1073741824 {
        return format!("{:.1}M", bytes as f64 / 1048576.0);
    }
    format!("{:.1}G", bytes as f64 / 1073741824.0)
}

#[test]
fn human_size_exact_values() {
    assert_eq!(human_size(0), "0B");
    assert_eq!(human_size(1023), "1023B");
    assert_eq!(human_size(1024), "1K");
    assert_eq!(human_size(1536 + 1), "2K");
    assert_eq!(human_size(1048576), "1.0M");
    assert_eq!(human_size(1073741824), "1.0G");
    assert_eq!(human_size(5 * 1073741824 + 536870912), "5.5G");
}

#[test]
fn human_size_matches_float_formatting() {
    let mut samples: Vec<u64> = Vec::new();
    for b in 0..5000u64 {
        samples.push(b);
    }
    for k in 0..4096u64 {
        samples.push(1024 * k + 512);
        samples.push(1024 * k + 511);
        samples.push(1024 * k + 513);
    }
    for m in 0..2000u64 {
        let base = 1048576 + m * 52429;
        samples.push(base);
        samples.push(base + 1);
    }
    for t in 0..400u64 {
        // one-tenth boundaries of MiB and GiB, where rounding ties can fall
        samples.push(1048576 + t * 104857 + 52428);
        samples.push(1073741824 + t * 107374182 + 53687091);
    }
    samples.push(u64::MAX / 1024);
    for b in samples {
        assert_eq!(human_size(b), float_human_size(b), "bytes = {b}");
    }
}

fn snap(id: &str) -> Snapshot {
    Snapshot {
        id: id.to_string(),
        created_at: String::new(),
        size_bytes: 0,
        files_changed: 0,
        source: String::new(),
        description: format!("snapshot {id}"),
    }
}

#[test]
fn prune_keeps_newest() {
    let mut m = Manifest { snapshots: vec![snap("a"), snap("b"), snap("c"), snap("d")] };
    let removed = m.prune(1);
    let removed_ids: Vec<&str> = removed.iter().map(|s| s.id.as_str()).collect();
    let kept_ids: Vec<&str> = m.snapshots.iter().map(|s| s.id.as_str()).collect();
    assert_eq!(removed_ids, vec!["a", "b", "c"]);
    assert_eq!(kept_ids, vec!["d"]);
}

#[test]
fn prune_with_few_snapshots_changes_nothing() {
    let mut m = Manifest { snapshots: vec![snap("a"), snap("b")] };
    let removed = m.prune(5);
    assert!(removed.is_empty());
    assert_eq!(m.snapshots.len(), 2);
    let removed = m.prune(2);
    assert!(removed.is_empty());
}

#[test]
fn find_by_id_and_latest() {
    let m = Manifest { snapshots: vec![snap("20240101-000000"), snap("20240102-000000")] };
    assert_eq!(m.find("latest"), Some(1));
    assert_eq!(m.find("last"), Some(1));
    assert_eq!(m.find("20240101-000000"), Some(0));
    assert_eq!(m.find("nope"), None);
    let empty = Manifest { snapshots: vec![] };
    assert_eq!(empty.find("latest"), None);
}

#[test]
fn rsync_stats_transferred() {
    let report = "Number of files: 1,234 (reg: 1,000, dir: 234)\nNumber of created files: 0\nNumber of regular files transferred: 1,017\nTotal file size: 5 bytes\n";
    assert_eq!(parse_files_transferred(report), Some(1017));
    assert_eq!(parse_files_transferred("nothing here"), None);
    assert_eq!(parse_files_transferred("files transferred: x"), None);
}

#[test]
fn du_first_word() {
    assert_eq!(parse_du_size("123456\t/home/x/.local/share/ruos-backup\n"), 123456);
    assert_eq!(parse_du_size(""), 0);
    assert_eq!(parse_du_size("du: cannot access"), 0);
}

#[test]
fn rsync_command_line() {
    let a = rsync_args("/etc", "/b/snapshots/1/etc", Some("/b/snapshots/0/etc"));
    assert_eq!(a[0], "-a");
    assert_eq!(a[3], "--link-dest=/b/snapshots/0/etc");
    assert_eq!(a[4], "--exclude=.cache");
    assert_eq!(a.len(), 16);
    assert_eq!(a[14], "/etc/");
    assert_eq!(a[15], "/b/snapshots/1/etc/");
    let b = rsync_args("/etc", "/d", None);
    assert_eq!(b.len(), 15);
    assert_eq!(b[3], "--exclude=.cache");
}

#[test]
fn sources_and_relative_paths() {
    assert_eq!(sources_text(), "/etc, /home, /usr/local/bin, /usr/local/lib/ruos");
    assert_eq!(relative_source("/usr/local/bin"), "usr/local/bin");
    assert_eq!(relative_source("//x"), "x");
}
