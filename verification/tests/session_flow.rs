use modshell::get_plugin;
use modshell::session::{expand_home, Op, Reply, Session};
use modshell::zte::ExploitZTEWifiDisclosure;

fn table_value(rows: &[modshell::session::OptionDisplay], key: &str) -> String {
    for row in rows {
        if row.key == key {
            return row.value.clone();
        }
    }
    panic!("no row for key {key}");
}

#[test]
fn commands_without_module_report_condition() {
    let mut s: Session<ExploitZTEWifiDisclosure> = Session::new();
    assert!(matches!(s.step("run"), Reply::NoActive(Op::Run)));
    assert!(matches!(s.step("set a b"), Reply::NoActive(Op::SetOption)));
    assert!(matches!(s.step("options"), Reply::NoActive(Op::ShowOptions)));
    assert!(matches!(s.step("help"), Reply::NoActive(Op::Help)));
    assert!(s.active.is_none());
}

#[test]
fn load_with_empty_path_is_silent() {
    let mut s: Session<ExploitZTEWifiDisclosure> = Session::new();
    assert!(matches!(s.step("load "), Reply::Silent));
    assert!(matches!(s.step("l "), Reply::Silent));
    assert!(s.active.is_none());
}

#[test]
fn load_with_path_is_requested_of_host() {
    let mut s: Session<ExploitZTEWifiDisclosure> = Session::new();
    match s.step("load /tmp/mod.so") {
        Reply::LoadRequested(p) => assert_eq!(p, "/tmp/mod.so"),
        _ => panic!("expected a load request"),
    }
    assert!(s.active.is_none());
}

#[test]
fn failed_load_preserves_session() {
    let mut s: Session<ExploitZTEWifiDisclosure> = Session::new();
    let r = s.apply_load(Err("no such file".to_string()));
    assert_eq!(r.unwrap_err(), "no such file");
    assert!(s.active.is_none());

    s.apply_load(Ok(get_plugin())).unwrap();
    assert!(matches!(s.step("set rhost 10.0.0.9"), Reply::Silent));
    let r = s.apply_load(Err("bad library".to_string()));
    assert_eq!(r.unwrap_err(), "bad library");
    match s.step("options") {
        Reply::Table(rows) => assert_eq!(table_value(&rows, "rhost"), "10.0.0.9"),
        _ => panic!("expected the options table"),
    }
}

#[test]
fn successful_load_replaces_whole_module() {
    let mut s: Session<ExploitZTEWifiDisclosure> = Session::new();
    s.apply_load(Ok(get_plugin())).unwrap();
    assert!(matches!(s.step("set rhost 10.0.0.9"), Reply::Silent));
    s.apply_load(Ok(get_plugin())).unwrap();
    match s.step("options") {
        Reply::Table(rows) => {
            assert_eq!(table_value(&rows, "rhost"), "null");
            assert_eq!(table_value(&rows, "rport"), "80");
        }
        _ => panic!("expected the options table"),
    }
}

#[test]
fn quit_and_bad_input() {
    let mut s: Session<ExploitZTEWifiDisclosure> = Session::new();
    assert!(matches!(s.step("quit"), Reply::Quit));
    match s.step("bogus cmd") {
        Reply::BadCommand(e) => assert_eq!(e, "Unknown command bogus"),
        _ => panic!("expected a parse error"),
    }
    assert!(s.active.is_none());
}

#[test]
fn options_show_last_value_set() {
    let mut s: Session<ExploitZTEWifiDisclosure> = Session::new();
    s.apply_load(Ok(get_plugin())).unwrap();
    assert!(matches!(s.step("set rport 8080"), Reply::Silent));
    assert!(matches!(s.step("set rport 9090"), Reply::Silent));
    match s.step("options") {
        Reply::Table(rows) => assert_eq!(table_value(&rows, "rport"), "9090"),
        _ => panic!("expected the options table"),
    }
}

#[test]
fn options_table_rows_in_declaration_order() {
    let mut s: Session<ExploitZTEWifiDisclosure> = Session::new();
    s.apply_load(Ok(get_plugin())).unwrap();
    match s.step("?") {
        Reply::Table(rows) => {
            assert_eq!(rows.len(), 2);
            assert_eq!(rows[0].key, "rport");
            assert_eq!(rows[0].value, "80");
            assert_eq!(rows[0].description, "remote target port");
            assert!(!rows[0].required);
            assert_eq!(rows[1].key, "rhost");
            assert_eq!(rows[1].value, "null");
            assert_eq!(rows[1].description, "remote target host");
            assert!(rows[1].required);
        }
        _ => panic!("expected the options table"),
    }
}

#[test]
fn help_shows_module_description() {
    let mut s: Session<ExploitZTEWifiDisclosure> = Session::new();
    s.apply_load(Ok(get_plugin())).unwrap();
    match s.step("help") {
        Reply::HelpText(h) => assert_eq!(
            h,
            "Exploit that targets ZTE routers' unauthorized wifi password disclosure vulnerability"
        ),
        _ => panic!("expected the help text"),
    }
}

#[test]
fn run_without_rhost_fails_then_succeeds_after_set() {
    let mut s: Session<ExploitZTEWifiDisclosure> = Session::new();
    s.apply_load(Ok(get_plugin())).unwrap();
    match s.step("run") {
        Reply::RunFailed(e) => {
            assert!(e.contains("rhost"));
            assert_eq!(e, "exploit failed: rhost was not set.");
        }
        _ => panic!("expected a run failure"),
    }
    match s.step("options") {
        Reply::Table(rows) => {
            assert_eq!(table_value(&rows, "rhost"), "null");
            assert_eq!(table_value(&rows, "rport"), "80");
        }
        _ => panic!("expected the options table"),
    }
    assert!(matches!(s.step("set rhost 192.168.1.1"), Reply::Silent));
    match s.step("run") {
        Reply::Launched(req) => {
            assert_eq!(req.url, "http://192.168.1.1:80/wizard_wlan_t.gch");
        }
        _ => panic!("expected a launched request"),
    }
}

#[test]
fn home_shorthand_expands_everywhere() {
    assert_eq!(expand_home("~/mods/a.so", "/home/u"), "/home/u/mods/a.so");
    assert_eq!(expand_home("/abs/path.so", "/home/u"), "/abs/path.so");
    assert_eq!(expand_home("~~", "/h"), "/h/h");
    assert_eq!(expand_home("", "/h"), "");
}
