use agentlb::config::{
    agentlb_root, check_weights, config_path, decode_config, default_config, encoding_failure,
    ensure_default_config_file, load, parse_failure, split_command, write_config_file,
    PartialConfig, PartialRunner, PartialSessions,
};
use agentlb::error::ErrorKind;

fn no_sessions() -> PartialSessions {
    PartialSessions {
        alias_pattern: None,
        assignment_history_window: None,
        pick_behavior: None,
        stale_sec: None,
        busy_penalty: None,
        unknown_usage_left_percent: None,
        usage_primary_weight_percent: None,
        usage_secondary_weight_percent: None,
        restart_penalty_per_restart: None,
        restart_penalty_cap: None,
        staleness_penalty_max: None,
    }
}

fn with_sessions(sessions: PartialSessions) -> Option<PartialConfig> {
    let file = PartialConfig { runner: None, sessions: Some(sessions) };
    assert!(check_weights(&file));
    Some(file)
}

#[test]
fn defaults_are_fixed() {
    let cfg = load(None);
    assert_eq!(cfg.runner.default_command, "codex");
    assert!(cfg.runner.default_command_args.is_empty());
    assert_eq!(cfg.runner.login_command, "codex login");
    assert_eq!(cfg.sessions.alias_pattern, "^[A-Za-z0-9][A-Za-z0-9._-]{0,63}$");
    assert_eq!(cfg.sessions.assignment_history_window, 30);
    assert_eq!(cfg.sessions.pick_behavior, "round_robin");
    assert_eq!(cfg.sessions.stale_sec, 420);
    assert_eq!(cfg.sessions.busy_penalty, 5);
    assert_eq!(cfg.sessions.unknown_usage_left_percent, 30);
    assert_eq!(cfg.sessions.usage_primary_weight_percent, 60);
    assert_eq!(cfg.sessions.usage_secondary_weight_percent, 40);
    assert_eq!(cfg.sessions.restart_penalty_per_restart, 2);
    assert_eq!(cfg.sessions.restart_penalty_cap, 20);
    assert_eq!(cfg.sessions.staleness_penalty_max, 10);
    assert_eq!(format!("{:?}", cfg), format!("{:?}", default_config()));
    let empty = PartialConfig { runner: None, sessions: None };
    assert_eq!(format!("{:?}", load(Some(empty))), format!("{:?}", default_config()));
}

#[test]
fn settings_of_a_file_are_laid_over_the_defaults() {
    let file = PartialConfig {
        runner: Some(PartialRunner {
            default_command: Some("tool run".to_string()),
            default_command_args: Some(vec!["-x".to_string()]),
            login_command: None,
        }),
        sessions: Some(PartialSessions {
            pick_behavior: Some("last".to_string()),
            stale_sec: Some(77),
            busy_penalty: Some(0),
            ..no_sessions()
        }),
    };
    let cfg = load(Some(file));
    assert_eq!(cfg.runner.default_command, "tool run");
    assert_eq!(cfg.runner.default_command_args, vec!["-x".to_string()]);
    assert_eq!(cfg.runner.login_command, "codex login");
    assert_eq!(cfg.sessions.pick_behavior, "last");
    assert_eq!(cfg.sessions.stale_sec, 77);
    assert_eq!(cfg.sessions.busy_penalty, 0);
    assert_eq!(cfg.sessions.restart_penalty_cap, 20);
}

#[test]
fn usable_settings_are_read_back() {
    let file = || PartialConfig {
        runner: Some(PartialRunner {
            default_command: Some("x".to_string()),
            default_command_args: Some(vec!["".to_string()]),
            login_command: Some(" y ".to_string()),
        }),
        sessions: Some(PartialSessions {
            alias_pattern: Some("z".to_string()),
            assignment_history_window: Some(1),
            pick_behavior: Some("last".to_string()),
            stale_sec: Some(1),
            busy_penalty: Some(0),
            unknown_usage_left_percent: Some(100),
            usage_primary_weight_percent: Some(0),
            usage_secondary_weight_percent: Some(1),
            restart_penalty_per_restart: Some(0),
            restart_penalty_cap: Some(0),
            staleness_penalty_max: Some(0),
        }),
    };
    assert!(check_weights(&file()));
    let cfg = load(Some(file()));
    assert_eq!(cfg.runner.default_command_args, vec!["".to_string()]);
    assert_eq!((cfg.runner.default_command.as_str(), cfg.runner.login_command.as_str()), ("x", " y "));
    let s = &cfg.sessions;
    assert_eq!((s.alias_pattern.as_str(), s.pick_behavior.as_str()), ("z", "last"));
    assert_eq!((s.assignment_history_window, s.stale_sec, s.busy_penalty), (1, 1, 0));
    assert_eq!((s.unknown_usage_left_percent, s.staleness_penalty_max), (100, 0));
    assert_eq!((s.usage_primary_weight_percent, s.usage_secondary_weight_percent), (0, 1));
    assert_eq!((s.restart_penalty_per_restart, s.restart_penalty_cap), (0, 0));
}

#[test]
fn unusable_settings_fall_back() {
    let file = PartialConfig {
        runner: Some(PartialRunner {
            default_command: Some(" \t".to_string()),
            default_command_args: None,
            login_command: Some("\u{3000}".to_string()),
        }),
        sessions: Some(PartialSessions {
            alias_pattern: Some("".to_string()),
            assignment_history_window: Some(0),
            pick_behavior: Some("best".to_string()),
            stale_sec: Some(0),
            busy_penalty: Some(-1),
            unknown_usage_left_percent: Some(101),
            usage_primary_weight_percent: Some(-4),
            usage_secondary_weight_percent: Some(3),
            restart_penalty_per_restart: Some(-1),
            restart_penalty_cap: Some(-1),
            staleness_penalty_max: Some(-1),
        }),
    };
    let cfg = load(Some(file));
    assert_eq!(cfg.runner.default_command, "codex");
    assert_eq!(cfg.runner.login_command, "codex login");
    assert_eq!(cfg.sessions.alias_pattern, default_config().sessions.alias_pattern);
    assert_eq!(cfg.sessions.assignment_history_window, 30);
    assert_eq!(cfg.sessions.pick_behavior, "round_robin");
    assert_eq!(cfg.sessions.stale_sec, 420);
    assert_eq!(cfg.sessions.busy_penalty, 5);
    assert_eq!(cfg.sessions.unknown_usage_left_percent, 30);
    assert_eq!(cfg.sessions.usage_primary_weight_percent, 60);
    assert_eq!(cfg.sessions.usage_secondary_weight_percent, 3);
    assert_eq!(cfg.sessions.restart_penalty_per_restart, 2);
    assert_eq!(cfg.sessions.restart_penalty_cap, 20);
    assert_eq!(cfg.sessions.staleness_penalty_max, 10);
}

#[test]
fn weights_that_are_both_zero_are_restored() {
    let cfg = load(with_sessions(PartialSessions {
        usage_primary_weight_percent: Some(0),
        usage_secondary_weight_percent: Some(0),
        ..no_sessions()
    }));
    assert_eq!(cfg.sessions.usage_primary_weight_percent, 60);
    assert_eq!(cfg.sessions.usage_secondary_weight_percent, 40);
    let cfg = load(with_sessions(PartialSessions {
        usage_primary_weight_percent: Some(0),
        usage_secondary_weight_percent: Some(1),
        ..no_sessions()
    }));
    assert_eq!(cfg.sessions.usage_primary_weight_percent, 0);
    assert_eq!(cfg.sessions.usage_secondary_weight_percent, 1);
    let huge = PartialConfig {
        runner: None,
        sessions: Some(PartialSessions {
            usage_primary_weight_percent: Some(i64::MAX),
            usage_secondary_weight_percent: Some(1),
            ..no_sessions()
        }),
    };
    assert!(!check_weights(&huge));
}

#[test]
fn commands_are_split_at_white_space() {
    let (bin, args) = split_command("  codex --model\tx  \n y").unwrap();
    assert_eq!(bin, "codex");
    assert_eq!(args, vec!["--model".to_string(), "x".to_string(), "y".to_string()]);
    let (bin, args) = split_command("codex").unwrap();
    assert_eq!((bin.as_str(), args.len()), ("codex", 0));
    let e = split_command(" \u{85} ").unwrap_err();
    assert_eq!(e.kind, ErrorKind::InvalidInput);
    assert_eq!(e.message, "empty command");
}

#[test]
fn paths_start_at_home() {
    assert_eq!(agentlb_root(Some("/home/u")).unwrap(), "/home/u/.agentlb");
    assert_eq!(agentlb_root(Some("/home/u/")).unwrap(), "/home/u/.agentlb");
    assert_eq!(config_path(Some("/home/u")).unwrap(), "/home/u/.agentlb/config.toml");
    let e = config_path(None).unwrap_err();
    assert_eq!(e.kind, ErrorKind::NotFound);
    assert_eq!(e.message, "HOME is not set");
}

#[test]
fn configuration_is_decoded() {
    assert_eq!(decode_config("c", "a = \"\u{e9}\"".as_bytes()).unwrap(), "a = \"\u{e9}\"");
    let e = decode_config("/x/config.toml", &[97, 255, 98]).unwrap_err();
    assert_eq!(e.kind, ErrorKind::InvalidData);
    let fault = std::str::from_utf8(&[97, 255, 98]).unwrap_err();
    assert_eq!(e.message, format!("config is not valid UTF-8 (/x/config.toml): {}", fault));
    let e = encoding_failure("c", "why");
    assert_eq!(e.message, "config is not valid UTF-8 (c): why");
    let e = parse_failure("/x/config.toml", "bad line");
    assert_eq!(e.kind, ErrorKind::InvalidData);
    assert_eq!(e.message, "parse config /x/config.toml: bad line");
}

#[test]
fn configuration_is_written_once() {
    let write = write_config_file("/h/.agentlb/config.toml", b"x".to_vec()).unwrap();
    assert_eq!(write.directory, "/h/.agentlb");
    assert_eq!(write.staging, None);
    assert_eq!(write.bytes, b"x");
    assert_eq!((write.directory_mode, write.mode), (0o700, 0o600));
    assert_eq!(write_config_file("/h/", b"x".to_vec()).unwrap_err().message, "invalid config path");
    let there = ensure_default_config_file(true, "/h/config.toml", b"x".to_vec()).unwrap();
    assert!(there.is_none());
    let missing = ensure_default_config_file(false, "/h/config.toml", b"x".to_vec()).unwrap();
    assert_eq!(missing.unwrap().path, "/h/config.toml");
    assert!(ensure_default_config_file(false, "/", b"x".to_vec()).is_err());
}
