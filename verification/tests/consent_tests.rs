use ruos::consent::{
    consent_status, default_on, default_store, grant, is_consented, revoke, sign_consent, ConsentStatus,
    ConsentStore, DEFAULT_ON, OPT_IN,
};
use ruos::sensors::{collection_plan, Collector};
use sha2::Digest;

fn stamps() -> Vec<String> {
    (0..4).map(|i| format!("2024-05-01T10:00:0{i}+00:00")).collect()
}

fn expected_sig(cat: &str, granted: bool, at: &str) -> String {
    let msg = format!("{cat}:{granted}:{at}");
    hex::encode(sha2::Sha256::digest(msg.as_bytes()))
}

#[test]
fn signature_is_sha256_hex_of_message() {
    let r = sign_consent("camera-depth", true, "2024-05-01T10:00:00+00:00");
    assert!(r.granted);
    assert_eq!(r.at, "2024-05-01T10:00:00+00:00");
    assert_eq!(r.sig.len(), 64);
    assert_eq!(r.sig, expected_sig("camera-depth", true, "2024-05-01T10:00:00+00:00"));
    let v = sign_consent("camera-depth", false, "t");
    assert_eq!(v.sig, expected_sig("camera-depth", false, "t"));
    assert_ne!(v.sig, "camera-depth:false:t");
}

#[test]
fn default_store_grants_defaults() {
    let s = default_store("node-1".to_string(), &stamps());
    assert_eq!(s.version, 1);
    assert_eq!(s.node_id, "node-1");
    assert_eq!(s.consents.len(), 4);
    for (i, cat) in DEFAULT_ON.iter().enumerate() {
        assert!(is_consented(&s, cat));
        let rec = s.get(cat).unwrap();
        assert_eq!(rec.at, stamps()[i]);
        assert_eq!(rec.sig, expected_sig(cat, true, &stamps()[i]));
    }
    for cat in OPT_IN.iter() {
        assert!(!is_consented(&s, cat));
        assert_eq!(consent_status(&s, cat), ConsentStatus::NotSet);
    }
}

#[test]
fn empty_store_falls_back_to_defaults() {
    let s = ConsentStore { version: 1, node_id: "n".into(), consents: vec![] };
    assert!(is_consented(&s, "system-metrics"));
    assert!(is_consented(&s, "geo-satellite"));
    assert!(!is_consented(&s, "audio-ambient"));
    assert!(!is_consented(&s, "unknown-category"));
    assert_eq!(consent_status(&s, "csi-sensing"), ConsentStatus::DefaultOn);
    assert_eq!(consent_status(&s, "csi-sensing").label(), "DEFAULT ON");
    assert!(default_on("network-stats"));
    assert!(!default_on("radar-vitals"));
}

#[test]
fn grant_then_revoke_reads_back() {
    let mut s = default_store("n".to_string(), &stamps());
    let g = grant(&mut s, "audio-ambient", "2024-06-01T00:00:00+00:00");
    assert!(g.granted);
    assert!(is_consented(&s, "audio-ambient"));
    assert_eq!(consent_status(&s, "audio-ambient"), ConsentStatus::Granted);
    assert_eq!(s.consents.len(), 5);
    let r = revoke(&mut s, "audio-ambient", "2024-06-02T00:00:00+00:00");
    assert!(!r.granted);
    assert!(!is_consented(&s, "audio-ambient"));
    assert_eq!(consent_status(&s, "audio-ambient"), ConsentStatus::Revoked);
    assert!(!consent_status(&s, "audio-ambient").is_active());
    assert_eq!(s.consents.len(), 5);
    assert!(is_consented(&s, "system-metrics"));
}

#[test]
fn revoking_a_default_turns_it_off() {
    let mut s = default_store("n".to_string(), &stamps());
    revoke(&mut s, "geo-satellite", "t");
    assert!(!is_consented(&s, "geo-satellite"));
    assert_eq!(s.consents.len(), 4);
    assert!(is_consented(&s, "csi-sensing"));
}

#[test]
fn plan_follows_consent() {
    let mut s = default_store("n".to_string(), &stamps());
    let p = collection_plan(&s);
    assert_eq!(
        p,
        vec![
            Collector::Thermal,
            Collector::Gpu,
            Collector::Power,
            Collector::Disk,
            Collector::Display,
            Collector::Usb,
            Collector::Wifi,
            Collector::Traffic,
            Collector::ExternalApis,
        ]
    );
    grant(&mut s, "bluetooth-proximity", "t");
    revoke(&mut s, "system-metrics", "t");
    let p = collection_plan(&s);
    assert_eq!(p, vec![Collector::Wifi, Collector::Traffic, Collector::Bluetooth, Collector::ExternalApis]);
}

#[test]
fn household_needs_its_own_opt_in() {
    let mut s = default_store("n".to_string(), &stamps());
    assert!(is_consented(&s, "csi-sensing"));
    assert!(!collection_plan(&s).contains(&Collector::Household));
    grant(&mut s, "household-patterns", "t");
    assert!(collection_plan(&s).contains(&Collector::Household));
    revoke(&mut s, "csi-sensing", "t");
    assert!(!collection_plan(&s).contains(&Collector::Household));
}

#[test]
fn signature_is_64_hex_digits() {
    let r = sign_consent("camera-depth", false, "2024-01-01T00:00:00+00:00");
    assert_eq!(r.sig.len(), 64);
    assert!(r.sig.chars().all(|c| c.is_ascii_hexdigit() && !c.is_ascii_uppercase()));
}
