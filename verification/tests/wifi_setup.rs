use namaz_vakti_logic::wifi_setup::{
    collect_networks, on_password_entry, on_pick, on_ssid_entry, picker_hit, row_y, PickerChoice,
    ScannedAp, WifiStep, MAX_NETWORKS,
};

fn ap(ssid: &str, open: bool, signal: i8) -> ScannedAp {
    ScannedAp { ssid: ssid.to_string(), open, signal }
}

fn summary(v: &[ScannedAp]) -> Vec<(String, bool, i8)> {
    v.iter().map(|a| (a.ssid.clone(), a.open, a.signal)).collect()
}

#[test]
fn scan_is_deduplicated_sorted_and_hidden_networks_dropped() {
    let raw = vec![
        ap("home", false, -70),
        ap("", true, -20),
        ap("cafe", true, -60),
        ap("home", true, -50),
        ap("office", false, -80),
        ap("cafe", false, -65),
    ];
    assert_eq!(
        summary(&collect_networks(&raw)),
        vec![
            ("home".to_string(), true, -50),
            ("cafe".to_string(), true, -60),
            ("office".to_string(), false, -80),
        ]
    );
}

#[test]
fn equal_signals_keep_their_sighting_order() {
    let raw = vec![ap("b", false, -60), ap("a", false, -60), ap("c", false, -40)];
    let out = collect_networks(&raw);
    assert_eq!(summary(&out), vec![
        ("c".to_string(), false, -40),
        ("b".to_string(), false, -60),
        ("a".to_string(), false, -60),
    ]);
}

#[test]
fn list_is_capped_at_the_strongest_networks() {
    let raw: Vec<ScannedAp> = (0..10).map(|i| ap(&format!("n{i}"), false, -90 + i as i8)).collect();
    let out = collect_networks(&raw);
    assert_eq!(out.len(), MAX_NETWORKS);
    assert_eq!(out[0].ssid, "n9");
    assert_eq!(out[5].ssid, "n4");
    assert!(collect_networks(&Vec::new()).is_empty());
}

#[test]
fn picker_rows_are_networks_then_manual_then_rescan() {
    assert_eq!(row_y(0), 42);
    assert_eq!(row_y(2), 108);
    assert_eq!(picker_hit(10, 42, 2), Some(PickerChoice::Network(0)));
    assert_eq!(picker_hit(10, 80, 2), Some(PickerChoice::Network(1)));
    assert_eq!(picker_hit(10, 110, 2), Some(PickerChoice::Manual));
    assert_eq!(picker_hit(10, 141, 2), Some(PickerChoice::Rescan));
    assert_eq!(picker_hit(10, 72, 2), None);
    assert_eq!(picker_hit(10, 42, 0), Some(PickerChoice::Manual));
    assert_eq!(picker_hit(5, 42, 2), None);
    assert_eq!(picker_hit(10, 300, 2), None);
}

fn finished(step: WifiStep) -> Option<(String, String)> {
    match step {
        WifiStep::Finish(Some(c)) => Some((c.ssid, c.psk)),
        _ => None,
    }
}

#[test]
fn picking_an_open_network_finishes_without_a_passphrase() {
    let aps = vec![ap("cafe", true, -50), ap("home", false, -60)];
    assert_eq!(finished(on_pick(PickerChoice::Network(0), &aps)), Some(("cafe".to_string(), String::new())));
    match on_pick(PickerChoice::Network(1), &aps) {
        WifiStep::EnterPassword(s) => assert_eq!(s, "home"),
        other => panic!("unexpected {other:?}"),
    }
}

#[test]
fn an_open_network_with_an_over_long_ssid_rescans() {
    let aps = vec![ap(&"x".repeat(33), true, -50)];
    assert!(matches!(on_pick(PickerChoice::Network(0), &aps), WifiStep::Rescan));
}

#[test]
fn picker_actions_map_to_steps() {
    let aps: Vec<ScannedAp> = Vec::new();
    assert!(matches!(on_pick(PickerChoice::Cancel, &aps), WifiStep::Finish(None)));
    assert!(matches!(on_pick(PickerChoice::Rescan, &aps), WifiStep::Rescan));
    assert!(matches!(on_pick(PickerChoice::Manual, &aps), WifiStep::EnterSsid));
}

#[test]
fn manual_ssid_entry() {
    assert!(matches!(on_ssid_entry(None), WifiStep::Rescan));
    assert!(matches!(on_ssid_entry(Some(String::new())), WifiStep::Rescan));
    match on_ssid_entry(Some("hidden".to_string())) {
        WifiStep::EnterPassword(s) => assert_eq!(s, "hidden"),
        other => panic!("unexpected {other:?}"),
    }
}

#[test]
fn passphrase_entry_validates() {
    assert!(matches!(on_password_entry("home".to_string(), None), WifiStep::Rescan));
    assert!(matches!(on_password_entry("home".to_string(), Some("short".to_string())), WifiStep::RejectPassword));
    assert_eq!(
        finished(on_password_entry("home".to_string(), Some("correct horse".to_string()))),
        Some(("home".to_string(), "correct horse".to_string()))
    );
    assert_eq!(
        finished(on_password_entry("open".to_string(), Some(String::new()))),
        Some(("open".to_string(), String::new()))
    );
}
