//! Sensor collection: which collectors the consent allows, and what they read from the
//! system's reports.

use vstd::prelude::*;
use crate::consent::{ConsentStore, consented, is_consented};
use crate::text::{chars_of, contains, lines, lines_chars, parse_u64, parse_u64_chars, str_contains, words, words_chars};

verus! {

/// One sensor collector.
#[derive(Clone, Copy, PartialEq, Eq, Debug, Structural)]
pub enum Collector {
    Thermal,
    Gpu,
    Power,
    Disk,
    Display,
    Usb,
    Wifi,
    Traffic,
    Household,
    Audio,
    Bluetooth,
    ExternalApis,
}

/// The collectors that run, in order: system metrics, network, household patterns,
/// ambient audio, Bluetooth and the geographic services, each only when its category is
/// consented. Household patterns are read from CSI sensing, so they need both the
/// `csi-sensing` and the opt-in `household-patterns` consent.
pub open spec fn plan_of(c: spec_fn(Seq<char>) -> bool) -> Seq<Collector> {
    (if c("system-metrics"@) {
        seq![
            Collector::Thermal,
            Collector::Gpu,
            Collector::Power,
            Collector::Disk,
            Collector::Display,
            Collector::Usb,
        ]
    } else {
        seq![]
    }) + (if c("network-stats"@) {
        seq![Collector::Wifi, Collector::Traffic]
    } else {
        seq![]
    }) + (if c("csi-sensing"@) && c("household-patterns"@) {
        seq![Collector::Household]
    } else {
        seq![]
    }) + (if c("audio-ambient"@) {
        seq![Collector::Audio]
    } else {
        seq![]
    }) + (if c("bluetooth-proximity"@) {
        seq![Collector::Bluetooth]
    } else {
        seq![]
    }) + (if c("geo-satellite"@) {
        seq![Collector::ExternalApis]
    } else {
        seq![]
    })
}

/// The collectors that the consent in `store` allows, in the order in which they run.
pub fn collection_plan(store: &ConsentStore) -> (r: Vec<Collector>)
    requires
        store.wf(),
    ensures
        r@ == plan_of(|c: Seq<char>| consented(store.consents@, c)),
{
    let ghost c = |c: Seq<char>| consented(store.consents@, c);
    let mut r: Vec<Collector> = Vec::new();
    let ghost mut expect: Seq<Collector> = seq![];
    if is_consented(store, "system-metrics") {
        r.push(Collector::Thermal);
        r.push(Collector::Gpu);
        r.push(Collector::Power);
        r.push(Collector::Disk);
        r.push(Collector::Display);
        r.push(Collector::Usb);
    }
    let ghost a = r@;
    if is_consented(store, "network-stats") {
        r.push(Collector::Wifi);
        r.push(Collector::Traffic);
    }
    let ghost b = r@;
    if is_consented(store, "csi-sensing") && is_consented(store, "household-patterns") {
        r.push(Collector::Household);
    }
    let ghost d = r@;
    if is_consented(store, "audio-ambient") {
        r.push(Collector::Audio);
    }
    let ghost e = r@;
    if is_consented(store, "bluetooth-proximity") {
        r.push(Collector::Bluetooth);
    }
    let ghost f = r@;
    if is_consented(store, "geo-satellite") {
        r.push(Collector::ExternalApis);
    }
    assert(r@ =~= plan_of(c));
    r
}

/// The received and sent byte counts of one `/proc/net/dev` interface line: the second
/// and tenth words, 0 where one does not parse; nothing for a loopback line or one with
/// fewer than ten words.
pub open spec fn interface_counts(line: Seq<char>) -> Option<(nat, nat)> {
    let w = words(line);
    if contains(line, "lo:"@) || w.len() < 10 {
        None
    } else {
        Some(
            (
                match parse_u64(w[1]) {
                    Some(v) => v as nat,
                    None => 0nat,
                },
                match parse_u64(w[9]) {
                    Some(v) => v as nat,
                    None => 0nat,
                },
            ),
        )
    }
}

/// The summed counts of the given interface lines.
pub open spec fn traffic_sums(ls: Seq<Seq<char>>) -> (nat, nat)
    decreases ls.len(),
{
    if ls.len() == 0 {
        (0, 0)
    } else {
        let (rx, tx) = traffic_sums(ls.drop_last());
        match interface_counts(ls.last()) {
            Some((a, b)) => ((rx + a) as nat, (tx + b) as nat),
            None => (rx, tx),
        }
    }
}

/// The total bytes received and sent over all interfaces but loopback: the sums over
/// the lines of `/proc/net/dev` after its two header lines.
pub open spec fn traffic_totals(report: Seq<char>) -> (nat, nat) {
    let ls = lines(report);
    if ls.len() <= 2 {
        (0, 0)
    } else {
        traffic_sums(ls.skip(2))
    }
}

proof fn lemma_traffic_bound(ls: Seq<Seq<char>>)
    ensures
        traffic_sums(ls).0 <= ls.len() * 0xFFFF_FFFF_FFFF_FFFF,
        traffic_sums(ls).1 <= ls.len() * 0xFFFF_FFFF_FFFF_FFFF,
    decreases ls.len(),
{
    if ls.len() > 0 {
        lemma_traffic_bound(ls.drop_last());
    }
}

/// Totals the received and sent bytes in a `/proc/net/dev` report.
pub fn network_totals(report: &str) -> (r: (u128, u128))
    ensures
        (r.0 as nat, r.1 as nat) == traffic_totals(report@),
{
    let cs = chars_of(report);
    let ls = lines_chars(cs.as_slice());
    let ghost all = lines(report@);
    let mut rx: u128 = 0;
    let mut tx: u128 = 0;
    if ls.len() <= 2 {
        return (0, 0);
    }
    let mut i: usize = 2;
    assert(all.skip(2).take(0) =~= Seq::<Seq<char>>::empty());
    while i < ls.len()
        invariant
            2 <= i <= ls@.len(),
            ls@.len() == all.len(),
            all == lines(report@),
            forall|k: int| 0 <= k < ls@.len() ==> #[trigger] ls@[k]@ == all[k],
            (rx as nat, tx as nat) == traffic_sums(all.skip(2).take(i - 2)),
            ls@.len() <= usize::MAX,
        decreases ls@.len() - i,
    {
        let line = &ls[i];
        let ghost pre = all.skip(2).take(i - 2);
        assert(all.skip(2).take(i - 1).drop_last() =~= pre);
        assert(all.skip(2).take(i - 1).last() == all[i as int]);
        proof {
            lemma_traffic_bound(pre);
            assert(pre.len() * 0xFFFF_FFFF_FFFF_FFFF <= 0xFFFF_FFFF_FFFF_FFFF * 0xFFFF_FFFF_FFFF_FFFF)
                by (nonlinear_arith)
                requires
                    pre.len() <= 0xFFFF_FFFF_FFFF_FFFF,
            ;
        }
        let loopback = crate::text::contains_chars(line.as_slice(), chars_of("lo:").as_slice());
        let ws = words_chars(line.as_slice());
        if !loopback && ws.len() >= 10 {
            let a: u64 = match parse_u64_chars(ws[1].as_slice()) {
                Some(v) => v,
                None => 0,
            };
            let b: u64 = match parse_u64_chars(ws[9].as_slice()) {
                Some(v) => v,
                None => 0,
            };
            rx = rx + a as u128;
            tx = tx + b as u128;
        }
        i = i + 1;
    }
    assert(all.skip(2).take(ls@.len() - 2) =~= all.skip(2));
    (rx, tx)
}

/// Whether `loginctl show-session auto -p LockedHint` reports a locked screen.
pub fn screen_locked(report: &str) -> (r: bool)
    ensures
        r == contains(report@, "yes"@),
{
    str_contains(report, "yes")
}

/// The number of lines of a report (the devices that `lsusb`, `nmcli` or `bluetoothctl`
/// list).
pub fn count_lines(report: &str) -> (r: usize)
    ensures
        r == lines(report@).len(),
{
    let cs = chars_of(report);
    lines_chars(cs.as_slice()).len()
}


/// The consent category that governs a collector.
pub open spec fn category_of(x: Collector) -> Seq<char> {
    match x {
        Collector::Thermal | Collector::Gpu | Collector::Power | Collector::Disk | Collector::Display
        | Collector::Usb => "system-metrics"@,
        Collector::Wifi | Collector::Traffic => "network-stats"@,
        Collector::Household => "household-patterns"@,
        Collector::Audio => "audio-ambient"@,
        Collector::Bluetooth => "bluetooth-proximity"@,
        Collector::ExternalApis => "geo-satellite"@,
    }
}

/// Every collector of `s` is governed by a consented category.
pub open spec fn all_consented(s: Seq<Collector>, c: spec_fn(Seq<char>) -> bool) -> bool {
    forall|k: int| 0 <= k < s.len() ==> #[trigger] c(category_of(s[k]))
}

proof fn lemma_concat_consented(a: Seq<Collector>, b: Seq<Collector>, c: spec_fn(Seq<char>) -> bool)
    requires
        all_consented(a, c),
        all_consented(b, c),
    ensures
        all_consented(a + b, c),
{
    assert forall|k: int| 0 <= k < (a + b).len() implies #[trigger] c(category_of((a + b)[k])) by {
        if k < a.len() {
            assert((a + b)[k] == a[k]);
        } else {
            assert((a + b)[k] == b[k - a.len()]);
        }
    }
}

/// Collection never reaches past consent: every collector in the plan is governed by a
/// consented category, household patterns also need CSI sensing, and an opt-in collector
/// is planned whenever its consent is given.
pub proof fn lemma_plan_respects_consent(c: spec_fn(Seq<char>) -> bool)
    ensures
        all_consented(plan_of(c), c),
        plan_of(c).contains(Collector::Household) ==> c("csi-sensing"@),
        c("audio-ambient"@) ==> plan_of(c).contains(Collector::Audio),
        c("bluetooth-proximity"@) ==> plan_of(c).contains(Collector::Bluetooth),
        c("csi-sensing"@) && c("household-patterns"@) ==> plan_of(c).contains(Collector::Household),
{
    let a = if c("system-metrics"@) {
        seq![
            Collector::Thermal,
            Collector::Gpu,
            Collector::Power,
            Collector::Disk,
            Collector::Display,
            Collector::Usb,
        ]
    } else {
        seq![]
    };
    let b = if c("network-stats"@) {
        seq![Collector::Wifi, Collector::Traffic]
    } else {
        seq![]
    };
    let d = if c("csi-sensing"@) && c("household-patterns"@) {
        seq![Collector::Household]
    } else {
        seq![]
    };
    let e = if c("audio-ambient"@) {
        seq![Collector::Audio]
    } else {
        seq![]
    };
    let f = if c("bluetooth-proximity"@) {
        seq![Collector::Bluetooth]
    } else {
        seq![]
    };
    let g = if c("geo-satellite"@) {
        seq![Collector::ExternalApis]
    } else {
        seq![]
    };
    assert(all_consented(a, c));
    assert(all_consented(b, c));
    assert(all_consented(d, c));
    assert(all_consented(e, c));
    assert(all_consented(f, c));
    assert(all_consented(g, c));
    lemma_concat_consented(a, b, c);
    lemma_concat_consented(a + b, d, c);
    lemma_concat_consented(a + b + d, e, c);
    lemma_concat_consented(a + b + d + e, f, c);
    lemma_concat_consented(a + b + d + e + f, g, c);
    let p = plan_of(c);
    assert(p == a + b + d + e + f + g);
    if c("audio-ambient"@) {
        assert(p[(a.len() + b.len() + d.len()) as int] == Collector::Audio);
    }
    if c("bluetooth-proximity"@) {
        assert(p[(a.len() + b.len() + d.len() + e.len()) as int] == Collector::Bluetooth);
    }
    if c("csi-sensing"@) && c("household-patterns"@) {
        assert(p[(a.len() + b.len()) as int] == Collector::Household);
    }
    if !c("csi-sensing"@) {
        assert forall|k: int| 0 <= k < p.len() implies p[k] != Collector::Household by {
            assert(d.len() == 0);
            if k < a.len() {
                assert(p[k] == a[k]);
            } else if k < a.len() + b.len() {
                assert(p[k] == b[k - a.len()]);
            } else if k < a.len() + b.len() + e.len() {
                assert(p[k] == e[k - a.len() - b.len()]);
            } else if k < a.len() + b.len() + e.len() + f.len() {
                assert(p[k] == f[k - a.len() - b.len() - e.len()]);
            } else {
                assert(p[k] == g[k - a.len() - b.len() - e.len() - f.len()]);
            }
        }
    }
}


/// The last line of `df -h /` output, the empty text when there is none.
pub fn last_line(report: &str) -> (r: String)
    ensures
        r@ == if lines(report@).len() == 0 {
            Seq::<char>::empty()
        } else {
            lines(report@).last()
        },
{
    let cs = chars_of(report);
    let ls = lines_chars(cs.as_slice());
    if ls.len() == 0 {
        String::new()
    } else {
        crate::text::string_of(ls[ls.len() - 1].as_slice())
    }
}

} // verus!
