use agentlb::error::ErrorKind;
use agentlb::session::{
    ensure_session_dir, judge_alias, login_outcome, run_command, run_login, run_outcome,
    server_command, validate_alias,
};
use agentlb::state::Store;

fn store() -> Store {
    Store::new(Some("/home/u")).unwrap()
}

#[test]
fn validate_alias_works() {
    let pattern = "^[A-Za-z0-9][A-Za-z0-9._-]{0,63}$";
    for (alias, ok) in [
        ("a1", true),
        ("abc.DEF-1", true),
        ("", false),
        ("-bad", false),
        ("../../x", false),
    ] {
        let err = validate_alias(alias, pattern);
        assert_eq!(err.is_ok(), ok, "alias={}", alias);
    }
}

#[test]
fn refusals_of_aliases_say_why() {
    let e = validate_alias("a\"b", "^[a-z]+$").unwrap_err();
    assert_eq!(e.kind, ErrorKind::InvalidInput);
    assert_eq!(e.message, "invalid alias \"a\\\"b\"; must match ^[a-z]+$ (example: a1)");
    let fault = regex::Regex::new("[").unwrap_err();
    let e = validate_alias("a", "[").unwrap_err();
    assert_eq!(e.kind, ErrorKind::InvalidInput);
    assert_eq!(e.message, format!("invalid alias pattern {:?}: {}", "[", fault));
    // A pattern without anchors matches anywhere.
    assert!(validate_alias("-x-", "x").is_ok());
}

#[test]
fn verdicts_on_aliases_are_passed_on() {
    assert!(judge_alias("a", "p", Ok(true)).is_ok());
    let e = judge_alias("a", "p", Ok(false)).unwrap_err();
    assert_eq!(e.message, "invalid alias \"a\"; must match p (example: a1)");
    let e = judge_alias("a", "p\n", Err("broken".to_string())).unwrap_err();
    assert_eq!(e.message, "invalid alias pattern \"p\\n\": broken");
}

#[test]
fn directories_are_made_once() {
    assert!(ensure_session_dir(&store(), "a", true).is_none());
    let dir = ensure_session_dir(&store(), "a", false).unwrap();
    assert_eq!(dir.path, "/home/u/.agentlb/sessions/a");
    assert_eq!(dir.mode, 0o700);
}

#[test]
fn commands_run_in_their_session() {
    let st = store();
    let line = run_command("codex run", &["--search".to_string(), "a b".to_string()], "a1", &st)
        .unwrap();
    assert_eq!(line.bin, "codex");
    assert_eq!(line.args, vec!["run", "--search", "a b"]);
    assert_eq!(line.codex_home, "/home/u/.agentlb/sessions/a1");
    let line = run_login("codex login", "a1", &st).unwrap();
    assert_eq!((line.bin.as_str(), line.args), ("codex", vec!["login".to_string()]));
    assert_eq!(line.codex_home, "/home/u/.agentlb/sessions/a1");
    assert_eq!(run_login(" ", "a1", &st).unwrap_err().message, "empty command");
    assert_eq!(run_command("", &[], "a1", &st).unwrap_err().kind, ErrorKind::InvalidInput);
    let line = server_command("b", &st);
    assert_eq!(line.bin, "codex");
    assert_eq!(line.args, vec!["app-server", "--listen", "stdio://"]);
    assert_eq!(line.codex_home, "/home/u/.agentlb/sessions/b");
}

#[test]
fn ends_of_commands_are_told() {
    assert!(login_outcome("x login", true, Some(0)).is_ok());
    let e = login_outcome("x login", false, Some(-7)).unwrap_err();
    assert_eq!(e.kind, ErrorKind::Other);
    assert_eq!(e.message, "login command failed: \"x login\" (exit -7)");
    let e = login_outcome("x \\ login", false, None).unwrap_err();
    assert_eq!(e.message, "login command failed: \"x \\\\ login\"");
    assert_eq!(run_outcome(Some(3)), 3);
    assert_eq!(run_outcome(None), 1);
}
