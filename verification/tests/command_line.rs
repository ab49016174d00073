use agentlb::cli::{
    parse_cli, resolve_login_command, resolve_run_command, CliArgs, Mode, EXIT_ALIAS_NOT_FOUND,
    EXIT_GENERIC, EXIT_LOGIN_FAILED, EXIT_NO_SESSIONS, EXIT_OK, EXIT_USAGE,
};
use agentlb::config::default_config;
use agentlb::error::ErrorKind;
use agentlb::pick::{next_auto_alias, pick_alias};
use agentlb::state::GlobalState;

fn words(line: &[&str]) -> Vec<String> {
    line.iter().map(|w| w.to_string()).collect()
}

fn parsed(line: &[&str]) -> CliArgs {
    parse_cli(&words(line)).unwrap()
}

fn refused(line: &[&str]) -> String {
    let e = parse_cli(&words(line)).unwrap_err();
    assert_eq!(e.kind, ErrorKind::InvalidInput);
    e.message
}

#[test]
fn parse_cli_rejects_unknown_flag() {
    let args = vec!["--nope".to_string()];
    assert!(parse_cli(&args).is_err());
}

#[test]
fn pick_alias_last_requires_existing() {
    let aliases = vec!["a".to_string(), "b".to_string()];
    let mut g = GlobalState { last_alias: "c".to_string(), ..Default::default() };
    assert!(pick_alias(&aliases, &mut g, "last").is_err());
}

#[test]
fn keep_exit_code_alias_not_found_reserved() {
    assert_eq!(EXIT_ALIAS_NOT_FOUND, 3);
}

#[test]
fn other_exit_codes_are_fixed() {
    assert_eq!(
        (EXIT_OK, EXIT_GENERIC, EXIT_USAGE, EXIT_NO_SESSIONS, EXIT_LOGIN_FAILED),
        (0, 1, 2, 4, 5)
    );
}

#[test]
fn commands_are_understood() {
    assert_eq!(parsed(&[]).mode, Mode::Root);
    assert_eq!(parsed(&["new"]).mode, Mode::New);
    assert_eq!(parsed(&["new"]).alias, "");
    assert_eq!(parsed(&["new", "work"]).alias, "work");
    assert_eq!(parsed(&["rr"]).mode, Mode::Rr);
    assert_eq!(parsed(&["last"]).mode, Mode::Last);
    assert_eq!(parsed(&["list"]).mode, Mode::List);
    assert_eq!(parsed(&["config", "init"]).mode, Mode::ConfigInit);
    assert_eq!(parsed(&["supervisor"]).mode, Mode::Supervisor);
    assert_eq!(parsed(&["supervisor", "start", "--background"]).mode, Mode::SupervisorStart);
    assert_eq!(parsed(&["supervisor", "restart"]).mode, Mode::SupervisorRestart);
    assert_eq!(parsed(&["supervisor", "stop"]).mode, Mode::SupervisorStop);
    assert_eq!(parsed(&["supervisor", "daemon"]).mode, Mode::SupervisorDaemon);
    // Behind `new` these are names like any other.
    assert_eq!(parsed(&["new", "list"]).alias, "list");
    assert_eq!(parsed(&["new", "supervisor"]).alias, "supervisor");
}

#[test]
fn flags_are_understood() {
    let a = parsed(&["new", "a1", "--login-cmd", "x login", "--cmd", "x run", "--", "--search", "--"]);
    assert_eq!((a.mode, a.alias.as_str()), (Mode::New, "a1"));
    assert_eq!((a.cmd.as_str(), a.login_cmd.as_str()), ("x run", "x login"));
    assert_eq!(a.passthrough, vec!["--search", "--"]);
    let a = parsed(&["--cmd=codex --model m", "--login-cmd=l", "rr"]);
    assert_eq!((a.mode, a.cmd.as_str(), a.login_cmd.as_str()), (Mode::Rr, "codex --model m", "l"));
    let a = parsed(&["--cmd", "--", "--"]);
    assert_eq!((a.cmd.as_str(), a.passthrough.len()), ("--", 0));
    assert_eq!(parsed(&["--cmd="]).cmd, "");
    let a = parsed(&["supervisor", "--", "start"]);
    assert_eq!((a.mode, a.passthrough), (Mode::Supervisor, words(&["start"])));
    let a = parsed(&["new", "--", "--help"]);
    assert_eq!((a.alias.as_str(), a.passthrough), ("", words(&["--help"])));
}

#[test]
fn errors_in_arguments_are_told() {
    assert_eq!(refused(&["--nope"]), "unknown flag: --nope");
    assert_eq!(refused(&["-"]), "unknown flag: -");
    assert_eq!(refused(&["--cmd"]), "--cmd requires a value");
    assert_eq!(refused(&["rr", "--login-cmd"]), "--login-cmd requires a value");
    assert_eq!(refused(&["new", "rr"]), "invalid usage");
    assert_eq!(refused(&["last", "new"]), "invalid usage");
    assert_eq!(refused(&["rr", "last"]), "invalid usage");
    assert_eq!(refused(&["config"]), "usage: agentlb config init");
    assert_eq!(refused(&["config", "show"]), "usage: agentlb config init");
    assert_eq!(refused(&["new", "config", "init"]), "usage: agentlb config init");
    assert_eq!(refused(&["work"]), "unexpected argument: work");
    assert_eq!(refused(&["new", "a", "b"]), "unexpected argument: b");
    assert_eq!(refused(&["list", "x"]), "unexpected argument: x");
    let usage = "usage: agentlb supervisor [start --background|restart|stop]";
    assert_eq!(refused(&["supervisor", "start"]), usage);
    assert_eq!(refused(&["supervisor", "--cmd"]), usage);
}

#[test]
fn commands_come_from_arguments_or_settings() {
    let mut cfg = default_config();
    let none = CliArgs::default();
    assert_eq!(resolve_run_command(&none, &cfg), "codex");
    assert_eq!(resolve_login_command(&none, &cfg, "x"), "codex login");
    cfg.runner.default_command = " tool".to_string();
    cfg.runner.default_command_args = words(&["-a", "b "]);
    assert_eq!(resolve_run_command(&none, &cfg), "tool -a b");
    cfg.runner.login_command = " \t".to_string();
    assert_eq!(resolve_login_command(&none, &cfg, " tool -a"), "tool login");
    assert_eq!(resolve_login_command(&none, &cfg, " "), "codex login");
    let given = parsed(&["--cmd", " y ", "--login-cmd", "z"]);
    assert_eq!(resolve_run_command(&given, &cfg), " y ");
    assert_eq!(resolve_login_command(&given, &cfg, "x"), "z");
}

#[test]
fn sessions_take_turns() {
    let aliases = words(&["a", "b", "c"]);
    let mut g = GlobalState { round_robin_index: 7, last_alias: "b".to_string() };
    let picks: Vec<String> =
        (0..6).map(|_| pick_alias(&aliases, &mut g, "round_robin").unwrap()).collect();
    assert_eq!(picks, vec!["b", "c", "a", "b", "c", "a"]);
    assert_eq!((g.round_robin_index, g.last_alias.as_str()), (1, "b"));
    assert_eq!(pick_alias(&aliases, &mut g, "last").unwrap(), "b");
    assert_eq!(g.round_robin_index, 1);
    g.last_alias = "gone".to_string();
    let e = pick_alias(&aliases, &mut g, "last").unwrap_err();
    assert_eq!(e.kind, ErrorKind::NotFound);
    assert_eq!(e.message, "last session no longer exists; run agentlb or agentlb new <alias> first");
    g.last_alias = String::new();
    let e = pick_alias(&[], &mut g, "last").unwrap_err();
    assert_eq!(e.message, "no previous session recorded; run agentlb or agentlb new <alias> first");
}

#[test]
fn new_names_are_free() {
    assert_eq!(next_auto_alias(&[]), "auto1");
    assert_eq!(next_auto_alias(&words(&["auto2", "x", "auto1", "auto4"])), "auto3");
    let many: Vec<String> = (1..=12).map(|n| format!("auto{}", n)).collect();
    assert_eq!(next_auto_alias(&many), "auto13");
}
