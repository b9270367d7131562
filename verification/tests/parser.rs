use modshell::command::Command;

#[test]
fn parse_quit_and_alias() {
    assert!(matches!(Command::try_from("quit"), Ok(Command::Quit)));
    assert!(matches!(Command::try_from("q"), Ok(Command::Quit)));
}

#[test]
fn parse_run_and_alias() {
    assert!(matches!(Command::try_from("run"), Ok(Command::Run)));
    assert!(matches!(Command::try_from("r"), Ok(Command::Run)));
}

#[test]
fn parse_options_and_aliases() {
    assert!(matches!(Command::try_from("options"), Ok(Command::ShowOptions)));
    assert!(matches!(Command::try_from("?"), Ok(Command::ShowOptions)));
    assert!(matches!(Command::try_from("o"), Ok(Command::ShowOptions)));
}

#[test]
fn parse_help_and_alias() {
    assert!(matches!(Command::try_from("help"), Ok(Command::Help)));
    assert!(matches!(Command::try_from("h"), Ok(Command::Help)));
}

#[test]
fn parse_load_with_path() {
    match Command::try_from("load /tmp/mod.so") {
        Ok(Command::Load(p)) => assert_eq!(p, "/tmp/mod.so"),
        _ => panic!("expected a load command"),
    }
    match Command::try_from("l m.so") {
        Ok(Command::Load(p)) => assert_eq!(p, "m.so"),
        _ => panic!("expected a load command"),
    }
}

#[test]
fn parse_load_wrong_arity() {
    match Command::try_from("load") {
        Err(e) => assert_eq!(e, "usage: load <module path>"),
        _ => panic!("expected a usage error"),
    }
    match Command::try_from("load a b") {
        Err(e) => assert_eq!(e, "usage: load <module path>"),
        _ => panic!("expected a usage error"),
    }
}

#[test]
fn parse_set_key_value() {
    match Command::try_from("set rhost 10.0.0.1") {
        Ok(Command::SetOption(k, v)) => {
            assert_eq!(k, "rhost");
            assert_eq!(v, "10.0.0.1");
        }
        _ => panic!("expected a set command"),
    }
}

#[test]
fn parse_set_value_keeps_spaces() {
    match Command::try_from("set note a b c") {
        Ok(Command::SetOption(k, v)) => {
            assert_eq!(k, "note");
            assert_eq!(v, "a b c");
        }
        _ => panic!("expected a set command"),
    }
}

#[test]
fn parse_set_double_space_keeps_empty_field() {
    match Command::try_from("set k  v") {
        Ok(Command::SetOption(k, v)) => {
            assert_eq!(k, "k");
            assert_eq!(v, " v");
        }
        _ => panic!("expected a set command"),
    }
}

#[test]
fn parse_set_wrong_arity() {
    match Command::try_from("set onlykey") {
        Err(e) => assert_eq!(e, "usage: set <key> <value>"),
        _ => panic!("expected a usage error"),
    }
}

#[test]
fn parse_unknown_verb() {
    match Command::try_from("frobnicate") {
        Err(e) => assert_eq!(e, "Unknown command frobnicate"),
        _ => panic!("expected an unknown-command error"),
    }
}

#[test]
fn parse_verbs_are_case_sensitive() {
    assert!(Command::try_from("Quit").is_err());
    assert!(Command::try_from("RUN").is_err());
}

#[test]
fn parse_set_trailing_space_gives_empty_value() {
    match Command::try_from("set k ") {
        Ok(Command::SetOption(k, v)) => {
            assert_eq!(k, "k");
            assert_eq!(v, "");
        }
        _ => panic!("expected a set command"),
    }
}

#[test]
fn parse_load_double_space_is_wrong_arity() {
    match Command::try_from("load  x") {
        Err(e) => assert_eq!(e, "usage: load <module path>"),
        _ => panic!("expected a usage error"),
    }
}
