use agentlb::accounts::Account;
use agentlb::cli::Mode;
use agentlb::config::default_config;
use agentlb::flow::{Action, Flow, Reply, Stage};
use agentlb::program::{Beginning, Order, Outcome, Phase, Program};
use agentlb::state::GlobalState;
use agentlb::supervisor::SupervisorCommand;

const PATTERN: &str = "^[A-Za-z0-9][A-Za-z0-9._-]{0,63}$";

fn words(line: &[&str]) -> Vec<String> {
    line.iter().map(|w| w.to_string()).collect()
}

fn global(index: usize, last: &str) -> GlobalState {
    GlobalState { round_robin_index: index, last_alias: last.to_string() }
}

fn account(alias: &str, email: Option<&str>) -> Account {
    Account { alias: alias.to_string(), email: email.map(|e| e.to_string()) }
}

/// Performs a course with prepared replies and lists its actions.
fn course(mode: Mode, alias: &str, replies: Vec<Reply>) -> Vec<String> {
    let (mut flow, mut action) = Flow::begin(mode, alias, PATTERN);
    let mut actions = vec![format!("{:?}", action)];
    for reply in replies {
        assert!(!matches!(action, Action::Exit(_, _)));
        assert!(flow.check_reply(&reply));
        let (next, then) = flow.next(reply);
        flow = next;
        action = then;
        actions.push(format!("{:?}", action));
    }
    assert_eq!(matches!(action, Action::Exit(_, _)), flow.stage == Stage::Over);
    actions
}

#[test]
fn new_session_logs_in_and_runs() {
    let actions = course(
        Mode::New,
        "a1",
        vec![
            Reply::Done,
            Reply::Made(true),
            Reply::Done,
            Reply::Done,
            Reply::Global(global(2, "x")),
            Reply::Done,
            Reply::Done,
            Reply::Done,
            Reply::Ended(7),
        ],
    );
    assert_eq!(
        actions,
        vec![
            "Lock",
            "MakeDirectory(\"a1\")",
            "EnsureConfig",
            "RecordAssignment(\"a1\")",
            "LoadGlobal",
            "SaveGlobal(GlobalState { round_robin_index: 2, last_alias: \"a1\" })",
            "Unlock",
            "Login(\"a1\")",
            "Run(\"a1\")",
            "Exit(7, None)",
        ]
    );
}

#[test]
fn known_session_runs_without_login() {
    let actions = course(
        Mode::New,
        "a1",
        vec![
            Reply::Done,
            Reply::Made(false),
            Reply::Done,
            Reply::Done,
            Reply::Global(global(0, "")),
            Reply::Done,
            Reply::Done,
        ],
    );
    assert_eq!(actions.last().unwrap(), "Run(\"a1\")");
}

#[test]
fn bad_alias_ends_with_usage() {
    let (flow, action) = Flow::begin(Mode::New, "../x", PATTERN);
    assert_eq!(flow.stage, Stage::Over);
    match action {
        Action::Exit(2, Some(message)) => assert_eq!(
            message,
            format!("invalid alias \"../x\"; must match {} (example: a1)", PATTERN)
        ),
        other => panic!("{:?}", other),
    }
}

#[test]
fn other_modes_run_no_session() {
    let (flow, action) = Flow::begin(Mode::List, "", PATTERN);
    assert_eq!(flow.stage, Stage::Over);
    assert_eq!(format!("{:?}", action), "Exit(2, Some(\"invalid mode\"))");
}

#[test]
fn failures_end_with_their_code() {
    let actions = course(Mode::New, "a", vec![Reply::Failed("locked out".to_string())]);
    assert_eq!(actions.last().unwrap(), "Exit(1, Some(\"locked out\"))");
    let actions = course(
        Mode::New,
        "a",
        vec![
            Reply::Done,
            Reply::Made(true),
            Reply::Done,
            Reply::Done,
            Reply::Global(global(0, "")),
            Reply::Done,
            Reply::Done,
            Reply::Failed("no login".to_string()),
        ],
    );
    assert_eq!(actions.last().unwrap(), "Exit(5, Some(\"no login\"))");
    let actions = course(Mode::Root, "", vec![Reply::Ended(0)]);
    assert_eq!(actions.last().unwrap(), "Exit(1, Some(\"unexpected reply\"))");
}

#[test]
fn root_and_rr_pick_in_turn() {
    for mode in [Mode::Root, Mode::Rr] {
        let actions = course(
            mode,
            "",
            vec![
                Reply::Done,
                Reply::Aliases(words(&["a", "b"])),
                Reply::Global(global(1, "a")),
                Reply::Done,
                Reply::Done,
                Reply::Done,
                Reply::Done,
                Reply::Ended(0),
            ],
        );
        assert_eq!(
            actions,
            vec![
                "Lock",
                "ListAliases",
                "LoadGlobal",
                "EnsureConfig",
                "RecordAssignment(\"b\")",
                "SaveGlobal(GlobalState { round_robin_index: 0, last_alias: \"b\" })",
                "Unlock",
                "Run(\"b\")",
                "Exit(0, None)",
            ]
        );
    }
}

#[test]
fn no_sessions_end_with_their_code() {
    let none = "Exit(4, Some(\"no managed sessions found; create one with: agentlb new <alias>\"))";
    for mode in [Mode::Root, Mode::Rr, Mode::Last] {
        let actions = course(mode, "", vec![Reply::Done, Reply::Aliases(vec![])]);
        assert_eq!(actions.last().unwrap(), none);
    }
    let actions = course(
        Mode::Last,
        "",
        vec![Reply::Done, Reply::Aliases(words(&["a"])), Reply::Global(global(0, "gone"))],
    );
    assert!(actions.last().unwrap().starts_with("Exit(4, Some(\"last session no longer exists"));
    let actions = course(
        Mode::Last,
        "",
        vec![Reply::Done, Reply::Aliases(words(&["a"])), Reply::Global(global(0, ""))],
    );
    assert!(actions.last().unwrap().starts_with("Exit(4, Some(\"no previous session recorded"));
}

#[test]
fn last_runs_again() {
    let actions = course(
        Mode::Last,
        "",
        vec![
            Reply::Done,
            Reply::Aliases(words(&["a", "b"])),
            Reply::Global(global(1, "a")),
            Reply::Done,
            Reply::Done,
            Reply::Done,
            Reply::Done,
        ],
    );
    assert_eq!(actions[5], "SaveGlobal(GlobalState { round_robin_index: 1, last_alias: \"a\" })");
    assert_eq!(actions.last().unwrap(), "Run(\"a\")");
}

#[test]
fn best_session_is_marked() {
    let actions = course(
        Mode::New,
        "",
        vec![
            Reply::Picked(Some("b".to_string())),
            Reply::Done,
            Reply::Made(false),
            Reply::Done,
            Reply::Done,
            Reply::Global(global(0, "a")),
            Reply::Done,
            Reply::Failed("status is gone".to_string()),
            Reply::Done,
        ],
    );
    assert_eq!(actions[0], "PickBest");
    assert_eq!(actions[7], "MarkSelected(\"b\")");
    assert_eq!(actions[8], "Unlock");
    assert_eq!(actions[9], "Run(\"b\")");
}

#[test]
fn new_session_is_named_where_none_can_be_picked() {
    let actions = course(
        Mode::New,
        "",
        vec![
            Reply::Picked(None),
            Reply::Done,
            Reply::Aliases(words(&["a", "auto1", "b"])),
            Reply::Made(true),
        ],
    );
    assert_eq!(actions[2], "ListAliases");
    assert_eq!(actions[3], "MakeDirectory(\"auto2\")");
    let (flow, _) = Flow::begin(Mode::New, "", "^x$");
    let (flow, _) = flow.next(Reply::Picked(None));
    let (flow, _) = flow.next(Reply::Done);
    let (_, action) = flow.next(Reply::Aliases(vec![]));
    assert!(matches!(action, Action::Exit(2, Some(_))));
}

#[test]
fn sessions_are_found_by_email() {
    let accounts = || {
        vec![
            account("a", Some("X@y.z")),
            account("b", None),
            account("c", Some("two@y.z")),
            account("d", Some("TWO@y.z")),
        ]
    };
    let actions =
        course(Mode::New, "x@Y.z", vec![Reply::Accounts(accounts()), Reply::Done, Reply::Made(false)]);
    assert_eq!(actions[..3], ["ListAccounts", "Lock", "MakeDirectory(\"a\")"]);
    let actions = course(Mode::New, "n@y.z", vec![Reply::Accounts(accounts())]);
    assert_eq!(
        actions[1],
        "Exit(1, Some(\"no session found for email n@y.z; create or select an alias with: agentlb \
         new <alias>\"))"
    );
    let actions = course(Mode::New, "two@y.z", vec![Reply::Accounts(accounts())]);
    assert_eq!(
        actions[1],
        "Exit(1, Some(\"several sessions found for email two@y.z: c, d; select one with: agentlb \
         new <alias>\"))"
    );
}

#[test]
fn places_at_the_limit_are_told() {
    let (flow, _) = Flow::begin(Mode::Rr, "", PATTERN);
    let (flow, _) = flow.next(Reply::Done);
    let (flow, _) = flow.next(Reply::Aliases(words(&["a"])));
    assert!(!flow.check_reply(&Reply::Global(global(usize::MAX, ""))));
    assert!(flow.check_reply(&Reply::Global(global(usize::MAX - 1, ""))));
}

fn program(line: &[&str]) -> (Program, Order) {
    match Program::begin(&words(line), Some("/home/u")) {
        Beginning::Under(program, order) => (program, order),
        other => panic!("{:?}", other),
    }
}

#[test]
fn program_runs_a_session() {
    let (p, order) = program(&["new", "a1", "--cmd", "x run", "--", "-v"]);
    assert!(matches!(order, Order::MakeLayout));
    let (p, order) = p.next(Outcome::Done);
    assert!(matches!(order, Order::LoadConfig));
    let (p, order) = p.next(Outcome::Loaded(default_config()));
    assert!(matches!(order, Order::EnsureSupervisor));
    let (p, order) = p.next(Outcome::Failed("not started".to_string()));
    match order {
        Order::RunSession(run_cmd, login_cmd) => {
            assert_eq!((run_cmd.as_str(), login_cmd.as_str()), ("x run", "codex login"));
        }
        other => panic!("{:?}", other),
    }
    let (p, order) = p.next(Outcome::Ended(9));
    assert_eq!(p.phase, Phase::Over);
    assert!(matches!(order, Order::Exit(9, None)));
}

#[test]
fn program_writes_the_configuration() {
    let (p, _) = program(&["config", "init"]);
    let (p, order) = p.next(Outcome::Done);
    assert!(matches!(order, Order::WriteConfig));
    let (p, order) = p.next(Outcome::Done);
    assert!(matches!(order, Order::Print(path) if path == "/home/u/.agentlb/config.toml"));
    let (_, order) = p.next(Outcome::Done);
    assert!(matches!(order, Order::Exit(0, None)));
}

#[test]
fn program_has_other_commands() {
    for (line, command) in [
        (vec!["supervisor", "start", "--background"], SupervisorCommand::Start),
        (vec!["supervisor", "restart"], SupervisorCommand::Restart),
        (vec!["supervisor", "stop"], SupervisorCommand::Stop),
    ] {
        let (_, order) = program(&line).0.next(Outcome::Done);
        assert!(matches!(order, Order::Supervise(c) if c == command));
    }
    let (_, order) = program(&["supervisor", "daemon"]).0.next(Outcome::Done);
    assert!(matches!(order, Order::RunDaemon));
    let (_, order) = program(&["supervisor"]).0.next(Outcome::Done);
    assert!(matches!(order, Order::Print(text) if text.contains("start --background")));
    let (p, _) = program(&["list"]).0.next(Outcome::Done);
    let (p, _) = p.next(Outcome::Loaded(default_config()));
    let (p, order) = p.next(Outcome::Done);
    assert!(matches!(order, Order::ListSessions));
    let (_, order) = p.next(Outcome::Done);
    assert!(matches!(order, Order::Exit(0, None)));
}

#[test]
fn program_ends_on_errors() {
    match Program::begin(&words(&["--nope"]), None) {
        Beginning::Exit(code, message) => assert_eq!((code, message.as_str()), (2, "unknown flag: --nope")),
        other => panic!("{:?}", other),
    }
    match Program::begin(&[], None) {
        Beginning::Exit(code, message) => assert_eq!((code, message.as_str()), (1, "HOME is not set")),
        other => panic!("{:?}", other),
    }
    let (p, _) = program(&[]);
    let (_, order) = p.next(Outcome::Failed("no space".to_string()));
    assert!(matches!(order, Order::Exit(1, Some(message)) if message == "no space"));
    let (_, order) = program(&[]).0.next(Outcome::Ended(0));
    assert!(matches!(order, Order::Exit(1, Some(_))));
}
