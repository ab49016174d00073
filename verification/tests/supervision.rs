use agentlb::daemon::{Daemon, DaemonSettings, DaemonVariables, Event};
use agentlb::json::parse_json;
use agentlb::round::{Round, Work};
use agentlb::runtime::{
    apply_limits_at, apply_rate_limits, check_limits, check_message, default_session_status,
    extract_rate_limits, handle_message, handle_message_at, note_probe, record_failure_at,
    record_restart_failure, refresh_health, run_probe, schedule_next_restart, schedule_restart_at,
    to_window, wants_refresh, wants_refresh_at, wants_start, ProbeStep, Runtime,
};
use agentlb::status::{limits_age, to_candidate, RateWindow, ScoringConfig, SessionStatus, StatusFile};
use agentlb::supervisor::{
    await_stop, current_state, daemon_start_timeout_ms, ensure_running, env_u64, env_usize,
    is_pid_alive, pid_text, read_pid, supervisor_help, supervisor_plan, SupervisorCommand,
    SupervisorState, SupervisorStep,
};
use agentlb::time::Timestamp;

const SECOND: u128 = 1_000_000_000;
const MILLI: u128 = 1_000_000;
const NOON: Timestamp = Timestamp { secs: 1_772_280_000, nanos: 250_000_001 };
const LIMITS: &str = "{\"id\":2,\"result\":{\"rateLimits\":{\"limitId\":\"codex\",\"primary\":{\
                      \"usedPercent\":12,\"windowDurationMins\":15,\"resetsAt\":1730947200},\
                      \"secondary\":null}}}";

fn no_variables() -> DaemonVariables<'static> {
    DaemonVariables {
        probe_interval_sec: None,
        probe_lifetime_sec: None,
        flush_interval_sec: None,
        max_restarts_5m: None,
        refresh_lead_sec: None,
        refresh_cooldown_sec: None,
    }
}

fn daemon() -> Daemon {
    Daemon::start(77, None, 0, NOON, DaemonSettings::new(&no_variables(), 420))
}

fn names(line: &[&str]) -> Vec<String> {
    line.iter().map(|w| w.to_string()).collect()
}

fn session<'a>(d: &'a Daemon, alias: &str) -> &'a SessionStatus {
    d.status.sessions.get(alias).unwrap()
}

#[test]
fn process_numbers_are_read_back() {
    assert_eq!(pid_text(4711), "4711\n");
    for pid in [1, 0, -5, i32::MAX, i32::MIN] {
        assert_eq!(read_pid(Some(&pid_text(pid))), Some(pid));
    }
    assert_eq!(read_pid(Some(" 12 \n")), Some(12));
    assert_eq!(read_pid(Some("12 13")), None);
    assert_eq!(read_pid(Some("2147483648")), None);
    assert_eq!(read_pid(Some("")), None);
    assert_eq!(read_pid(None), None);
}

#[test]
fn state_of_the_supervisor_is_known() {
    let state = current_state(Some("12\n"), true);
    assert_eq!((state.pid_in_file, state.is_running), (Some(12), true));
    let state = current_state(Some("12\n"), false);
    assert_eq!((state.pid_in_file, state.is_running), (Some(12), false));
    let state = current_state(Some("0"), true);
    assert_eq!((state.pid_in_file, state.is_running), (Some(0), false));
    let state = current_state(None, true);
    assert_eq!((state.pid_in_file, state.is_running), (None, false));
    let state = SupervisorState::default();
    assert_eq!((state.pid_in_file, state.is_running), (None, false));
    assert!(is_pid_alive(1, true) && !is_pid_alive(-1, true) && !is_pid_alive(1, false));
}

#[test]
fn environment_gives_numbers() {
    assert_eq!(env_u64(Some("12"), 5), 12);
    assert_eq!(env_u64(Some("+12"), 5), 12);
    assert_eq!(env_u64(Some("-1"), 5), 5);
    assert_eq!(env_u64(Some("12s"), 5), 5);
    assert_eq!(env_u64(None, 5), 5);
    assert_eq!(env_usize(Some("3"), 5), 3);
    assert_eq!(env_usize(Some("99999999999999999999"), 5), 5);
    assert_eq!(env_usize(None, 5), 5);
    assert_eq!(daemon_start_timeout_ms(None), 3000);
    assert_eq!(daemon_start_timeout_ms(Some("10")), 10);
    let set = DaemonVariables {
        probe_interval_sec: Some("1"),
        flush_interval_sec: Some("x"),
        max_restarts_5m: Some("2"),
        ..no_variables()
    };
    let s = DaemonSettings::new(&set, 99);
    assert_eq!((s.probe_interval_sec, s.probe_lifetime_sec, s.flush_interval_sec), (1, 10, 2));
    assert_eq!((s.max_restarts_5m, s.stale_sec), (2, 99));
    assert_eq!((s.refresh_lead_sec, s.refresh_cooldown_sec), (60, 30));
    let s = DaemonSettings::new(&no_variables(), 420);
    assert_eq!((s.probe_interval_sec, s.max_restarts_5m), (300, 10));
}

#[test]
fn supervisor_is_started_where_it_does_not_run() {
    let running = SupervisorState { pid_in_file: Some(3), is_running: true };
    let dead = SupervisorState { pid_in_file: Some(3), is_running: false };
    assert_eq!(ensure_running(None, &running, None), SupervisorStep::Done);
    assert_eq!(ensure_running(None, &dead, None), SupervisorStep::Spawn);
    assert_eq!(ensure_running(Some("1"), &dead, None), SupervisorStep::Done);
    assert_eq!(ensure_running(Some("0"), &dead, None), SupervisorStep::Spawn);
    assert_eq!(ensure_running(None, &dead, Some((5, 10))), SupervisorStep::Pause(100));
    assert_eq!(ensure_running(None, &running, Some((5, 10))), SupervisorStep::Done);
    assert_eq!(ensure_running(None, &dead, Some((10, 10))), SupervisorStep::Done);
}

#[test]
fn supervisor_is_started_and_stopped_on_command() {
    let running = SupervisorState { pid_in_file: Some(3), is_running: true };
    let dead = SupervisorState { pid_in_file: Some(3), is_running: false };
    let plan = supervisor_plan(SupervisorCommand::Start, &running);
    assert_eq!(plan.report, "supervisor is running (pid 3)");
    assert_eq!((plan.stop, plan.start), (None, false));
    let plan = supervisor_plan(SupervisorCommand::Start, &dead);
    assert_eq!(plan.report, "supervisor is not running");
    assert_eq!((plan.stop, plan.start), (None, true));
    let plan = supervisor_plan(SupervisorCommand::Restart, &running);
    assert_eq!((plan.stop, plan.start), (Some(3), true));
    let plan = supervisor_plan(SupervisorCommand::Restart, &dead);
    assert_eq!((plan.stop, plan.start), (None, true));
    let plan = supervisor_plan(SupervisorCommand::Stop, &running);
    assert_eq!((plan.stop, plan.start), (Some(3), false));
    let plan = supervisor_plan(SupervisorCommand::Stop, &dead);
    assert_eq!((plan.stop, plan.start), (None, false));
    assert_eq!(await_stop(3, false, 9, 1).unwrap(), None);
    assert_eq!(await_stop(3, true, 0, 1).unwrap(), Some(100));
    assert_eq!(await_stop(3, true, 1, 1).unwrap_err().message, "supervisor did not stop (pid 3)");
    for word in ["start --background", "restart", "stop"] {
        assert!(supervisor_help().contains(word));
    }
}

#[test]
fn restarts_back_off() {
    let mut rt = Runtime::new(5);
    assert_eq!((rt.next_restart_at, rt.restart_attempt, rt.managed), (5, 0, false));
    for wait in [1, 2, 4, 8, 16, 30, 60, 60, 60] {
        schedule_restart_at(&mut rt, 5, 1_000_299);
        assert_eq!(rt.next_restart_at, 5 + wait * SECOND + (1_000_299 % 300) * MILLI);
    }
    assert_eq!(rt.restart_attempt, 9);
    rt.restart_attempt = usize::MAX;
    schedule_restart_at(&mut rt, 0, 300);
    assert_eq!((rt.restart_attempt, rt.next_restart_at), (usize::MAX, 60 * SECOND));
    let mut rt = Runtime::new(0);
    schedule_next_restart(&mut rt, 7);
    assert!(7 + SECOND <= rt.next_restart_at && rt.next_restart_at < 7 + SECOND + 300 * MILLI);
}

#[test]
fn crash_loops_are_unhealthy() {
    let mut rt = Runtime::new(0);
    let mut sess = default_session_status();
    sess.app_server.state = "running".to_string();
    sess.app_server.pid = 9;
    for i in 0..3u128 {
        record_failure_at(&mut rt, &mut sess, i * SECOND, 3, 0);
        assert_eq!(sess.health, "healthy");
    }
    assert_eq!((sess.app_server.state.as_str(), sess.app_server.pid), ("stopped", 0));
    assert_eq!((rt.restart_count, sess.app_server.restart_count), (3, 3));
    record_failure_at(&mut rt, &mut sess, 3 * SECOND, 3, 0);
    assert_eq!(sess.health, "unhealthy");
    assert_eq!(rt.unhealthy_until, Some(303 * SECOND));

    refresh_health(&mut rt, &mut sess, 303 * SECOND - 1);
    assert_eq!(sess.health, "unhealthy");
    assert!(!wants_start(&rt, &sess, 303 * SECOND - 1));
    refresh_health(&mut rt, &mut sess, 303 * SECOND);
    assert_eq!((sess.health.as_str(), rt.unhealthy_until), ("healthy", None));
    assert!(wants_start(&rt, &sess, 303 * SECOND));

    // The failures that lie more than five minutes back are forgotten.
    record_failure_at(&mut rt, &mut sess, 301 * SECOND + 1, 3, 0);
    assert_eq!(rt.restart_times_5m.len(), 3);
    assert_eq!(sess.health, "healthy");
    record_restart_failure(&mut rt, &mut sess, 302 * SECOND, 3);
    assert_eq!(rt.restart_count, 6);
}

#[test]
fn limits_are_found_in_messages() {
    let answer = parse_json(LIMITS).unwrap();
    assert!(extract_rate_limits(&answer).is_some());
    let notice = "{\"method\":\"account/rateLimits/updated\",\"params\":{\"rateLimits\":{}}}";
    assert!(extract_rate_limits(&parse_json(notice).unwrap()).is_some());
    let empty = "{\"method\":\"account/rateLimits/updated\",\"result\":{\"rateLimits\":{}}}";
    assert!(extract_rate_limits(&parse_json(empty).unwrap()).is_none());
    assert!(extract_rate_limits(&parse_json("{\"id\":1,\"result\":{}}").unwrap()).is_none());
    assert!(extract_rate_limits(&parse_json("[]").unwrap()).is_none());
}

#[test]
fn windows_are_read() {
    let window = |text: &str| to_window(Some(&parse_json(text).unwrap()));
    assert_eq!(
        window("{\"usedPercent\":7,\"windowDurationMins\":15,\"resetsAt\":9}"),
        Some(RateWindow { used_percent: 7, window_duration_mins: 15, resets_at: 9 })
    );
    assert_eq!(
        window("{\"usedPercent\":7,\"resetsAt\":\"x\"}"),
        Some(RateWindow { used_percent: 7, window_duration_mins: 0, resets_at: 0 })
    );
    assert_eq!(window("{\"usedPercent\":7.5}"), None);
    assert_eq!(window("{}"), None);
    assert_eq!(window("null"), None);
    assert_eq!(to_window(None), None);
}

#[test]
fn limits_are_taken_over() {
    let limits = |text: &str| {
        let json = parse_json(text).unwrap();
        assert!(check_limits(&json));
        let mut sess = default_session_status();
        apply_limits_at(&mut sess, &json, NOON);
        sess
    };
    let sess = limits("{\"limitId\":\"x\",\"primary\":{\"usedPercent\":40},\"secondary\":{\"usedPercent\":75}}");
    assert_eq!(sess.rate_limits.limit_id, "x");
    assert_eq!(sess.usage_left_percent, 25);
    assert_eq!(sess.last_rate_limit_update_at, "2026-02-28T12:00:00Z");
    assert!(to_candidate("a", &sess, NOON, &ScoringConfig::default()).is_some());
    let sess = limits("{\"secondary\":{\"usedPercent\":120}}");
    assert_eq!((sess.rate_limits.limit_id.as_str(), sess.usage_left_percent), ("codex", 0));
    assert_eq!(limits("{}").usage_left_percent, 30);
    let extreme = parse_json("{\"primary\":{\"usedPercent\":-9223372036854775808}}").unwrap();
    assert!(!check_limits(&extreme));
    let mut sess = default_session_status();
    apply_rate_limits(&mut sess, &parse_json("{\"primary\":{\"usedPercent\":1}}").unwrap());
    assert_eq!(sess.usage_left_percent, 99);
    assert!(sess.last_rate_limit_update_at.ends_with('Z'));
}

#[test]
fn messages_change_the_status() {
    let mut sess = default_session_status();
    let mut handle = |text: &str| {
        let msg = parse_json(text).unwrap();
        assert!(check_message(&sess, &msg));
        handle_message_at(&mut sess, &msg, NOON);
        (sess.activity.active_turns, sess.health.clone(), sess.usage_left_percent)
    };
    let told = |turns: i64, health: &str, left: i64| (turns, health.to_string(), left);
    assert_eq!(handle("{\"method\":\"turn/started\"}"), told(1, "healthy", 30));
    assert_eq!(handle("{\"method\":\"turn/started\"}"), told(2, "healthy", 30));
    assert_eq!(handle("{\"method\":\"turn/completed\"}"), told(1, "healthy", 30));
    assert_eq!(handle("{\"method\":\"turn/completed\"}"), told(0, "healthy", 30));
    assert_eq!(handle("{\"method\":\"turn/completed\"}"), told(0, "healthy", 30));
    let changed = "{\"method\":\"thread/status/changed\",\"params\":{\"status\":{\"type\":\"";
    assert_eq!(handle(&format!("{}systemError\"}}}}}}", changed)), told(0, "unhealthy", 30));
    assert_eq!(handle(&format!("{}idle\"}}}}}}", changed)), told(0, "unhealthy", 30));
    assert_eq!(handle(&format!("{}active\"}}}}}}", changed)), told(0, "healthy", 30));
    assert_eq!(handle(LIMITS), told(0, "healthy", 88));
    assert_eq!(handle("{\"method\":\"other\"}"), told(0, "healthy", 88));
    assert_eq!(handle("{\"method\":5}"), told(0, "healthy", 88));

    let mut full = default_session_status();
    full.activity.active_turns = i64::MAX;
    let started = parse_json("{\"method\":\"turn/started\"}").unwrap();
    assert!(!check_message(&full, &started));
    full.activity.active_turns = 3;
    handle_message(&mut full, &started);
    assert_eq!(full.activity.active_turns, 4);
}

#[test]
fn probes_listen_until_they_find_or_end() {
    let limits = parse_json(LIMITS).unwrap();
    let other = parse_json("{\"id\":1}").unwrap();
    assert_eq!(run_probe(None, 5, 10), ProbeStep::Listen);
    assert_eq!(run_probe(Some(&other), 5, 10), ProbeStep::Listen);
    assert_eq!(run_probe(Some(&limits), 5, 10), ProbeStep::Found);
    assert_eq!(run_probe(Some(&limits), 15, 10), ProbeStep::Found);
    assert_eq!(run_probe(Some(&other), 10, 10), ProbeStep::Over);
    let mut sess = default_session_status();
    note_probe(&mut sess, None, NOON);
    assert_eq!(sess.last_probe_at, "2026-02-28T12:00:00Z");
    assert_eq!((sess.last_probe_result.as_str(), sess.last_rate_limit_update_at.as_str()), ("error", ""));
    note_probe(&mut sess, extract_rate_limits(&limits), NOON);
    assert_eq!((sess.last_probe_result.as_str(), sess.usage_left_percent), ("ok", 88));
}

#[test]
fn limits_are_refreshed_before_they_are_stale() {
    let mut rt = Runtime::new(0);
    let mut sess = default_session_status();
    sess.last_rate_limit_update_at = "2026-02-28T11:54:01Z".to_string();
    assert!(!wants_refresh(&rt, &sess, 1, NOON, 420, 60));
    rt.managed = true;
    // 359 seconds old, and stale at 420.
    assert!(!wants_refresh(&rt, &sess, 1, NOON, 420, 60));
    assert!(wants_refresh(&rt, &sess, 1, NOON, 420, 61));
    rt.next_refresh_at = 2;
    assert!(!wants_refresh(&rt, &sess, 1, NOON, 420, 61));
    sess.last_rate_limit_update_at = String::new();
    assert!(wants_refresh(&rt, &sess, 2, NOON, 420, 60));
    assert!(wants_refresh_at(&rt, Some(360), 2, 420, 60));
    assert!(!wants_refresh_at(&rt, Some(359), 2, 420, 60));
    assert!(!wants_refresh_at(&rt, None, 1, 420, 60));
}

#[test]
fn supervisor_starts_from_the_stored_status() {
    let mut stored = StatusFile::default();
    stored.sessions.insert("old".to_string(), default_session_status());
    let d = Daemon::start(77, Some(stored), 9, NOON, DaemonSettings::new(&no_variables(), 420));
    assert_eq!((d.status.version, d.status.daemon.pid), (1, 77));
    assert_eq!(d.status.daemon.started_at, "2026-02-28T12:00:00Z");
    assert_eq!(d.status.updated_at, d.status.daemon.started_at);
    assert!(d.status.sessions.contains_key("old"));
    assert!(d.runtimes.len() == 0 && !d.dirty);
    assert!(d.probes_due(9) && !d.probes_due(8));
}

#[test]
fn sessions_come_and_go() {
    let mut d = daemon();
    assert!(d.sync_aliases(&names(&["a", "b"]), 5).is_empty());
    assert!(!d.dirty);
    assert_eq!(session(&d, "a").health, "healthy");
    d.step("a", &Event::Started(12), 6, NOON);
    assert!(d.sync_aliases(&names(&["a", "b"]), 7).is_empty());
    assert!(d.runtimes.get("a").unwrap().managed);
    d.note_flush(8);
    assert!(!d.dirty);
    assert_eq!(d.sync_aliases(&names(&["b", "c"]), 9), names(&["a"]));
    assert!(d.dirty);
    assert!(!d.status.sessions.contains_key("a") && !d.runtimes.contains_key("a"));
    assert_eq!(d.runtimes.get("c").unwrap().next_restart_at, 9);
    assert_eq!(d.runtimes.get("b").unwrap().next_restart_at, 5);
}

#[test]
fn events_change_one_session() {
    let mut d = daemon();
    d.sync_aliases(&names(&["a", "b"]), 0);
    d.step("a", &Event::Started(12), 1, NOON);
    assert_eq!((session(&d, "a").app_server.state.as_str(), session(&d, "a").app_server.pid), ("running", 12));
    assert!(d.dirty && !d.needs_start("a", 1) && d.needs_start("b", 1));
    assert!(!d.needs_probe("a") && d.needs_probe("b") && d.needs_probe("nobody"));
    let msg = Event::Message(parse_json(LIMITS).unwrap());
    assert!(d.check_event("a", &msg));
    d.step("a", &msg, 2, NOON);
    assert_eq!(session(&d, "a").rate_limits.primary.unwrap().used_percent, 12);
    assert!(session(&d, "b").rate_limits.primary.is_none());
    assert!(!d.needs_refresh("a", 2, NOON));
    let later = Timestamp { secs: NOON.secs + 360, nanos: 0 };
    assert!(!d.needs_refresh("a", 1 + 30 * SECOND, NOON));
    assert!(d.needs_refresh("a", 1 + 30 * SECOND, later));
    d.step("a", &Event::Asked, 1 + 30 * SECOND, later);
    assert!(!d.needs_refresh("a", 1 + 60 * SECOND - 1, later));
    assert!(d.needs_refresh("a", 1 + 60 * SECOND, later));
    d.step("a", &Event::Failed, 3, NOON);
    assert_eq!(session(&d, "a").app_server.restart_count, 1);
    assert_eq!(session(&d, "a").app_server.state, "stopped");
    assert!(!d.runtimes.get("a").unwrap().managed);
    assert_eq!(d.runtimes.get("a").unwrap().next_restart_at, 3 + SECOND + (250_000_001 % 300) * MILLI);
    d.step("b", &Event::Probed(None), 4, NOON);
    assert_eq!(session(&d, "b").last_probe_result, "error");
    d.step("b", &Event::Probed(Some(parse_json(LIMITS).unwrap())), 4, NOON);
    assert_eq!((session(&d, "b").last_probe_result.as_str(), session(&d, "b").usage_left_percent), ("ok", 88));
    d.step("nobody", &Event::Started(1), 5, NOON);
    assert!(!d.status.sessions.contains_key("nobody"));
}

#[test]
fn status_is_written_now_and_then() {
    let mut d = daemon();
    d.sync_aliases(&names(&["a"]), 0);
    assert!(!d.flush_due(0));
    d.step("a", &Event::Round, 0, NOON);
    assert!(!d.dirty);
    d.step("a", &Event::Started(1), 0, NOON);
    assert!(d.flush_due(0));
    d.note_flush(10);
    d.step("a", &Event::Failed, 11, NOON);
    assert!(!d.flush_due(10 + 2 * SECOND - 1) && d.flush_due(10 + 2 * SECOND));
}

#[test]
fn limits_that_were_just_learned_are_fresh() {
    let limits = parse_json(LIMITS).unwrap();
    let mut sess = default_session_status();
    handle_message_at(&mut sess, &limits, NOON);
    assert_eq!(limits_age(&sess, NOON), Some(0));
    let mut sess = default_session_status();
    note_probe(&mut sess, extract_rate_limits(&limits), NOON);
    assert_eq!(limits_age(&sess, NOON), Some(0));
    let mut d = daemon();
    d.sync_aliases(&names(&["a", "b", "c"]), 0);
    d.step("a", &Event::Message(parse_json(LIMITS).unwrap()), 1, NOON);
    d.step("b", &Event::Probed(Some(limits)), 1, NOON);
    d.step("c", &Event::Probed(None), 1, NOON);
    assert_eq!(limits_age(session(&d, "a"), NOON), Some(0));
    assert_eq!(limits_age(session(&d, "b"), NOON), Some(0));
    assert_eq!(limits_age(session(&d, "c"), NOON), None);
    assert_ne!(session(&d, "b").last_probe_at, "");
    assert_ne!(session(&d, "c").last_probe_at, "");
}

/// Performs a round in which no server says anything, and lists the work.
fn round(d: &mut Daemon, aliases: &[&str], now: u128, start: bool) -> Vec<String> {
    let (mut round, dropped) = Round::begin(d, names(aliases), now);
    let mut work: Vec<String> = dropped.iter().map(|a| format!("gone {}", a)).collect();
    while !round.is_over() {
        let next = round.step(d, now, NOON);
        if !matches!(next, Work::Nothing) {
            work.push(format!("{:?}", next));
        }
        match next {
            Work::Start(alias) if start => d.step(&alias, &Event::Started(5), now, NOON),
            Work::Start(alias) => d.step(&alias, &Event::Failed, now, NOON),
            Work::Probe(alias) => d.step(&alias, &Event::Probed(None), now, NOON),
            Work::Flush => d.note_flush(now),
            _ => {}
        }
    }
    work
}

#[test]
fn rounds_look_after_every_session() {
    let mut d = daemon();
    let work = round(&mut d, &["a", "b"], 0, true);
    assert_eq!(
        work,
        vec!["Start(\"a\")", "Start(\"b\")", "Flush", "Pause(200)"]
    );
    d.step("a", &Event::Message(parse_json(LIMITS).unwrap()), 0, NOON);
    let work = round(&mut d, &["a", "b"], 1, true);
    assert_eq!(
        work,
        vec!["Drain(\"a\")", "Watch(\"a\")", "Drain(\"b\")", "Watch(\"b\")", "Pause(200)"]
    );
    let work = round(&mut d, &["b"], 2 * SECOND, true);
    assert_eq!(work, vec!["gone a", "Drain(\"b\")", "Watch(\"b\")", "Flush", "Pause(200)"]);
    let work = round(&mut d, &["b"], 30 * SECOND, true);
    assert_eq!(work, vec!["Drain(\"b\")", "Watch(\"b\")", "Ask(\"b\")", "Pause(200)"]);
}

#[test]
fn sessions_without_a_server_are_probed() {
    let mut d = daemon();
    let work = round(&mut d, &["a"], 0, false);
    assert_eq!(work, vec!["Start(\"a\")", "Probe(\"a\")", "Flush", "Pause(200)"]);
    assert_eq!(session(&d, "a").last_probe_result, "error");
    assert_eq!(round(&mut d, &["a"], 1, false), vec!["Pause(200)"]);
    let work = round(&mut d, &["a"], 2 * SECOND, false);
    assert_eq!(work, vec!["Start(\"a\")", "Flush", "Pause(200)"]);
    let work = round(&mut d, &["a"], 300 * SECOND, false);
    assert_eq!(work, vec!["Start(\"a\")", "Probe(\"a\")", "Flush", "Pause(200)"]);
    assert_eq!(d.status.updated_at, "2026-02-28T12:00:00Z");
}
