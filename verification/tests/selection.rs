use agentlb::config::default_config;
use agentlb::status::{
    best_candidate, check_all_ranks, check_rank_at, compute_usage_left, limits_age, mark_selected,
    mark_selected_at, pick_best_session_with_config, pick_best_session_with_retry_and_config,
    rank_session, save_status, selection_report, to_candidate, Activity, AppServerStatus,
    RateLimits, RateWindow, RetryStep, ScoringConfig, SessionStatus, StatusFile,
};
use agentlb::state::Store;
use agentlb::time::{now_rfc3339, read_clock, Timestamp};

fn used(percent: i64) -> Option<RateWindow> {
    Some(RateWindow { used_percent: percent, ..RateWindow::default() })
}

fn healthy(at: &str, primary: Option<RateWindow>, secondary: Option<RateWindow>) -> SessionStatus {
    SessionStatus {
        health: "healthy".to_string(),
        last_rate_limit_update_at: at.to_string(),
        rate_limits: RateLimits { primary, secondary, ..RateLimits::default() },
        ..SessionStatus::default()
    }
}

fn at(secs: i64) -> Timestamp {
    Timestamp { secs, nanos: 0 }
}

fn text(secs: i64) -> String {
    chrono::DateTime::from_timestamp(secs, 0).unwrap().to_rfc3339()
}

const NOON: i64 = 1_772_280_000;

fn pick(status: &StatusFile, now: Timestamp) -> Option<String> {
    let cfg = ScoringConfig::default();
    assert!(check_all_ranks(status, now, &cfg));
    pick_best_session_with_config(status, now, &cfg)
}

#[test]
fn pick_uses_usage_then_busy_then_lru() {
    let mut status = StatusFile { version: 1, updated_at: now_rfc3339(), ..StatusFile::default() };

    status.sessions.insert(
        "a".to_string(),
        SessionStatus {
            health: "healthy".to_string(),
            last_rate_limit_update_at: now_rfc3339(),
            usage_left_percent: 50,
            rate_limits: RateLimits {
                primary: Some(RateWindow { used_percent: 50, ..RateWindow::default() }),
                ..RateLimits::default()
            },
            ..SessionStatus::default()
        },
    );
    status.sessions.insert(
        "b".to_string(),
        SessionStatus {
            health: "healthy".to_string(),
            last_rate_limit_update_at: now_rfc3339(),
            usage_left_percent: 70,
            rate_limits: RateLimits {
                primary: Some(RateWindow { used_percent: 30, ..RateWindow::default() }),
                ..RateLimits::default()
            },
            ..SessionStatus::default()
        },
    );

    let got = pick_best_session_with_config(&status, read_clock(), &ScoringConfig::default());
    assert_eq!(got.as_deref(), Some("b"));
}

#[test]
fn pick_rejects_stale_and_unhealthy() {
    let now = read_clock();
    let stale = text(now.secs - 421);

    let mut status = StatusFile::default();
    status.sessions.insert(
        "a".to_string(),
        SessionStatus {
            health: "healthy".to_string(),
            last_rate_limit_update_at: stale,
            ..SessionStatus::default()
        },
    );
    status.sessions.insert(
        "b".to_string(),
        SessionStatus {
            health: "unhealthy".to_string(),
            last_rate_limit_update_at: now_rfc3339(),
            ..SessionStatus::default()
        },
    );

    assert!(pick_best_session_with_config(&status, now, &ScoringConfig::default()).is_none());
}

#[test]
fn pick_balances_primary_and_secondary_windows() {
    let mut status = StatusFile::default();
    let now = now_rfc3339();

    // a: excellent short-window, poor weekly-window.
    status.sessions.insert(
        "a".to_string(),
        SessionStatus {
            health: "healthy".to_string(),
            last_rate_limit_update_at: now.clone(),
            rate_limits: RateLimits {
                primary: Some(RateWindow { used_percent: 10, ..RateWindow::default() }),
                secondary: Some(RateWindow { used_percent: 95, ..RateWindow::default() }),
                ..RateLimits::default()
            },
            ..SessionStatus::default()
        },
    );

    // b: good short-window, good weekly-window.
    status.sessions.insert(
        "b".to_string(),
        SessionStatus {
            health: "healthy".to_string(),
            last_rate_limit_update_at: now,
            rate_limits: RateLimits {
                primary: Some(RateWindow { used_percent: 35, ..RateWindow::default() }),
                secondary: Some(RateWindow { used_percent: 40, ..RateWindow::default() }),
                ..RateLimits::default()
            },
            ..SessionStatus::default()
        },
    );

    let got = pick_best_session_with_config(&status, read_clock(), &ScoringConfig::default());
    assert_eq!(got.as_deref(), Some("b"));
}

#[test]
fn usage_left_blends_both_windows() {
    let cfg = ScoringConfig::default();
    // 0.60 * 90 + 0.40 * 5 = 56, and 0.60 * 65 + 0.40 * 60 = 63.
    assert_eq!(compute_usage_left(&healthy("", used(10), used(95)), &cfg), 56);
    assert_eq!(compute_usage_left(&healthy("", used(35), used(40)), &cfg), 63);
    assert_eq!(compute_usage_left(&healthy("", used(35), None), &cfg), 65);
    assert_eq!(compute_usage_left(&healthy("", None, used(40)), &cfg), 60);
    assert_eq!(compute_usage_left(&healthy("", None, None), &cfg), 30);
    assert_eq!(compute_usage_left(&healthy("", used(130), None), &cfg), 0);
    assert_eq!(compute_usage_left(&healthy("", used(-5), None), &cfg), 100);
}

#[test]
fn score_loses_for_turns_restarts_and_age() {
    let mut sess = healthy(&text(NOON - 210), used(20), None);
    sess.activity = Activity { active_turns: 3 };
    sess.app_server = AppServerStatus { restart_count: 4, ..AppServerStatus::default() };
    let c = to_candidate("a", &sess, at(NOON), &ScoringConfig::default()).unwrap();
    // 80 - 3 * 5 - 4 * 2 - 210 * 10 / 420.
    assert_eq!(c.score, 80 - 15 - 8 - 5);
    assert_eq!(c.usage_left, 80);
    assert_eq!(c.active_turns, 3);
    sess.app_server.restart_count = 1000;
    let c = to_candidate("a", &sess, at(NOON), &ScoringConfig::default()).unwrap();
    assert_eq!(c.score, 80 - 15 - 20 - 5);
    sess.app_server.restart_count = -3;
    sess.activity.active_turns = -7;
    let c = to_candidate("a", &sess, at(NOON), &ScoringConfig::default()).unwrap();
    assert_eq!(c.score, 75);
    assert_eq!(c.active_turns, 0);
}

#[test]
fn staleness_has_an_exact_threshold() {
    let cfg = ScoringConfig::default();
    assert!(to_candidate("a", &healthy(&text(NOON - 420), used(0), None), at(NOON), &cfg).is_some());
    assert!(to_candidate("a", &healthy(&text(NOON - 421), used(0), None), at(NOON), &cfg).is_none());
    assert!(to_candidate("a", &healthy("not a time", used(0), None), at(NOON), &cfg).is_none());
    assert!(to_candidate("a", &healthy("", used(0), None), at(NOON), &cfg).is_none());
    let future = to_candidate("a", &healthy("2099-01-01T00:00:00Z", used(0), None), at(NOON), &cfg);
    assert_eq!(future.unwrap().score, 100);
}

#[test]
fn ties_go_down_the_list() {
    let now = at(NOON);
    let fresh = text(NOON);
    let mut status = StatusFile::default();
    // The same score: 70 without turns, and 75 with one turn.
    status.sessions.insert("a".to_string(), healthy(&fresh, used(30), None));
    let mut busy = healthy(&fresh, used(25), None);
    busy.activity.active_turns = 1;
    status.sessions.insert("b".to_string(), busy);
    assert_eq!(pick(&status, now).as_deref(), Some("b"));

    let mut status = StatusFile::default();
    let mut first = healthy(&fresh, used(30), None);
    first.last_selected_at = text(NOON - 100);
    let mut second = healthy(&fresh, used(30), None);
    second.last_selected_at = text(NOON - 200);
    status.sessions.insert("a".to_string(), first);
    status.sessions.insert("b".to_string(), second);
    assert_eq!(pick(&status, now).as_deref(), Some("b"));
    // Never selected counts as longest ago.
    status.sessions.insert("c".to_string(), healthy(&fresh, used(30), None));
    assert_eq!(pick(&status, now).as_deref(), Some("c"));
    status.sessions.insert("B".to_string(), healthy(&fresh, used(30), None));
    assert_eq!(pick(&status, now).as_deref(), Some("B"));
}

#[test]
fn times_are_compared_across_offsets() {
    let mut status = StatusFile::default();
    let mut first = healthy(&text(NOON), used(30), None);
    first.last_selected_at = "2026-02-28T12:00:00+02:00".to_string();
    let mut second = healthy(&text(NOON), used(30), None);
    second.last_selected_at = "2026-02-28T11:00:00Z".to_string();
    status.sessions.insert("a".to_string(), second);
    status.sessions.insert("b".to_string(), first);
    assert_eq!(pick(&status, at(NOON)).as_deref(), Some("b"));
}

#[test]
fn report_names_every_session() {
    let mut status = StatusFile::default();
    let mut poor = healthy(&text(NOON), used(80), None);
    poor.activity.active_turns = 2;
    status.sessions.insert("a".to_string(), poor);
    status.sessions.insert("b".to_string(), healthy(&text(NOON), used(10), None));
    status.sessions.insert("c".to_string(), SessionStatus::default());
    let report = selection_report(&status, at(NOON), &ScoringConfig::default(), "b");
    assert_eq!(
        report,
        "session selection report:\n  a: score 10, usage left 20%, active turns 2\n  b: score 90, \
         usage left 90%, active turns 0\n  c: not eligible\nselected session: b"
    );
}

#[test]
fn retry_picks_pauses_and_gives_up() {
    let cfg = ScoringConfig::default();
    let mut status = StatusFile::default();
    let step = pick_best_session_with_retry_and_config(None, at(NOON), &cfg, 100, 3000);
    assert!(matches!(step, RetryStep::Pause(200)));
    let step = pick_best_session_with_retry_and_config(Some(&status), at(NOON), &cfg, 3000, 3000);
    assert!(matches!(step, RetryStep::GiveUp));
    status.sessions.insert("b".to_string(), healthy(&text(NOON), used(10), None));
    match pick_best_session_with_retry_and_config(Some(&status), at(NOON), &cfg, 9000, 3000) {
        RetryStep::Picked { alias, report } => {
            assert_eq!(alias, "b");
            assert!(report.ends_with("selected session: b"));
        }
        other => panic!("{:?}", other),
    }
    status.sessions.insert("c".to_string(), healthy(&text(NOON), used(i64::MIN), None));
    let step = pick_best_session_with_retry_and_config(Some(&status), at(NOON), &cfg, 0, 3000);
    assert!(matches!(step, RetryStep::OutOfRange));
}

#[test]
fn marking_changes_one_session() {
    let mut status = StatusFile::default();
    status.sessions.insert("a".to_string(), healthy("x", used(1), None));
    status.sessions.insert("b".to_string(), healthy("y", used(2), None));
    assert!(mark_selected_at(&mut status, "b", "2026-02-28T12:00:00Z"));
    assert_eq!(status.updated_at, "2026-02-28T12:00:00Z");
    assert_eq!(status.sessions.get("b").unwrap().last_selected_at, "2026-02-28T12:00:00Z");
    assert_eq!(status.sessions.get("b").unwrap().last_rate_limit_update_at, "y");
    assert_eq!(status.sessions.get("a").unwrap().last_selected_at, "");
    assert!(!mark_selected_at(&mut status, "c", "2026-02-28T13:00:00Z"));
    assert_eq!(status.updated_at, "2026-02-28T12:00:00Z");
    assert!(mark_selected(&mut status, "a"));
    assert_eq!(status.sessions.get("a").unwrap().last_selected_at, status.updated_at);
    assert!(status.updated_at.ends_with('Z'));
    assert!(!mark_selected(&mut status, "c"));
}

#[test]
fn scoring_follows_the_settings() {
    let mut sessions = default_config().sessions;
    sessions.stale_sec = 10;
    sessions.busy_penalty = 7;
    let cfg = ScoringConfig::from(&sessions);
    assert_eq!(cfg.stale_sec, 10);
    let mut sess = healthy(&text(NOON - 5), used(0), None);
    sess.activity.active_turns = 1;
    let c = to_candidate("a", &sess, at(NOON), &cfg).unwrap();
    assert_eq!(c.score, 100 - 7 - 5);
}

#[test]
fn status_is_written_by_way_of_a_staging_file() {
    let st = Store::new(Some("/home/u")).unwrap();
    let write = save_status(&st, b"{}".to_vec(), 42).unwrap();
    assert_eq!(write.directory, "/home/u/.agentlb");
    assert_eq!(write.directory_mode, 0o700);
    assert_eq!(write.staging.as_deref(), Some("/home/u/.agentlb/.status.json.tmp.42"));
    assert_eq!(write.path, "/home/u/.agentlb/status.json");
    assert_eq!(write.bytes, b"{}\n");
    assert_eq!(write.mode, 0o600);
}

#[test]
fn ranks_follow_from_age_and_last_selection() {
    let cfg = ScoringConfig::default();
    let sess = healthy("ignored", used(20), None);
    assert!(check_rank_at(&sess, Some(42), &cfg));
    let c = rank_session("a", &sess, Some(42), Some(at(7)), &cfg).unwrap();
    assert_eq!((c.alias.as_str(), c.score, c.last_selected_at), ("a", 79, Some(at(7))));
    assert!(rank_session("a", &sess, Some(421), None, &cfg).is_none());
    assert!(rank_session("a", &sess, None, None, &cfg).is_none());
    assert_eq!(limits_age(&healthy(&text(NOON - 9), None, None), at(NOON)), Some(9));
    assert_eq!(limits_age(&healthy("x", None, None), at(NOON)), None);
}

#[test]
fn best_candidate_outranks_the_others() {
    let cfg = ScoringConfig::default();
    let rank = |alias: &str, percent: i64, last: Option<Timestamp>| {
        rank_session(alias, &healthy("", used(percent), None), Some(0), last, &cfg).unwrap()
    };
    assert_eq!(best_candidate(&vec![]), None);
    let candidates = vec![
        rank("a", 50, None),
        rank("d", 20, Some(at(9))),
        rank("c", 20, Some(at(8))),
        rank("b", 20, Some(at(8))),
        rank("e", 60, None),
    ];
    assert_eq!(best_candidate(&candidates), Some(3));
}
