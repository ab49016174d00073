use agentlb::error::ErrorKind;
use agentlb::state::{
    assign_at, invalid_data, session_or_new, DirEntry, GlobalState, SessionState, Store,
};
use agentlb::time::Timestamp;

fn store() -> Store {
    Store::new(Some("/home/u")).unwrap()
}

fn entry(name: &str, is_dir: bool) -> DirEntry {
    DirEntry { name: name.to_string(), is_dir }
}

#[test]
fn files_have_their_places() {
    let st = store();
    assert_eq!(st.root, "/home/u/.agentlb");
    assert_eq!(st.config_path, "/home/u/.agentlb/config.toml");
    assert_eq!(st.sessions_dir, "/home/u/.agentlb/sessions");
    assert_eq!(st.state_dir, "/home/u/.agentlb/state");
    assert_eq!(st.session_state_dir, "/home/u/.agentlb/state/sessions");
    assert_eq!(st.global_state_path, "/home/u/.agentlb/state/global.json");
    assert_eq!(st.supervisor_pid_path, "/home/u/.agentlb/supervisor.pid");
    assert_eq!(st.status_path, "/home/u/.agentlb/status.json");
    assert_eq!(st.lock_path, "/home/u/.agentlb/locks/state.lock");
    assert_eq!(st.session_dir("a1"), "/home/u/.agentlb/sessions/a1");
    assert_eq!(st.session_state_path("a1"), "/home/u/.agentlb/state/sessions/a1.json");
    assert_eq!(st.auth_path("a1"), "/home/u/.agentlb/sessions/a1/auth.json");
    assert_ne!(st.session_dir("a"), st.session_dir("b"));
    assert_eq!(Store::new(None).unwrap_err().message, "HOME is not set");
}

#[test]
fn layout_is_private() {
    let layout = store().ensure_layout().unwrap();
    assert_eq!(
        layout.directories,
        vec![
            "/home/u/.agentlb".to_string(),
            "/home/u/.agentlb/sessions".to_string(),
            "/home/u/.agentlb/state".to_string(),
            "/home/u/.agentlb/state/sessions".to_string(),
            "/home/u/.agentlb/locks".to_string(),
        ]
    );
    assert_eq!(layout.directory_mode, 0o700);
    assert_eq!(layout.lock_file, "/home/u/.agentlb/locks/state.lock");
    assert_eq!(layout.lock_file_mode, 0o600);
    let mut broken = store();
    broken.lock_path = "/".to_string();
    assert_eq!(broken.ensure_layout().unwrap_err().message, "invalid lock path");
}

#[test]
fn aliases_are_listed_in_order() {
    let entries = vec![
        entry("work", true),
        entry("b", true),
        entry(".hidden", true),
        entry("note.txt", false),
        entry("B", true),
        entry("a", true),
        entry("\u{e9}", true),
        entry("b1", true),
    ];
    let aliases = store().list_aliases(entries);
    assert_eq!(aliases, vec!["B", "a", "b", "b1", "work", "\u{e9}"]);
    assert!(store().list_aliases(vec![]).is_empty());
}

#[test]
fn order_of_aliases_is_that_of_strings() {
    let names = ["b", "", "ab", "a", "\u{10ffff}", "\u{ffff}", "B", "ba"];
    let entries = names.iter().map(|n| entry(n, true)).collect();
    let mut sorted: Vec<String> = names.iter().map(|n| n.to_string()).collect();
    sorted.sort();
    assert_eq!(store().list_aliases(entries), sorted);
}

#[test]
fn missing_state_is_filled_in() {
    let st = store();
    let g = st.load_global(None);
    assert_eq!((g.round_robin_index, g.last_alias.as_str()), (0, ""));
    let g = st.load_global(Some(GlobalState { round_robin_index: 3, last_alias: "x".to_string() }));
    assert_eq!((g.round_robin_index, g.last_alias.as_str()), (3, "x"));

    let ss = session_or_new("a", None, "now");
    assert_eq!((ss.alias.as_str(), ss.created_at.as_str(), ss.last_used_at.as_str()), ("a", "now", ""));
    let ss = session_or_new("a", Some(SessionState::default()), "now");
    assert_eq!((ss.alias.as_str(), ss.created_at.as_str()), ("a", "now"));
    let stored = SessionState {
        alias: "b".to_string(),
        created_at: "then".to_string(),
        ..SessionState::default()
    };
    let ss = session_or_new("a", Some(stored), "now");
    assert_eq!((ss.alias.as_str(), ss.created_at.as_str()), ("b", "then"));
    let loaded = st.load_session("a", None);
    assert_eq!(loaded.alias, "a");
    assert!(chrono::DateTime::parse_from_rfc3339(&loaded.created_at).is_ok());
}

#[test]
fn assignments_are_kept_in_the_window() {
    let mut ss = session_or_new("a", None, "then");
    for secs in 1..=5 {
        ss = assign_at(ss, Timestamp { secs, nanos: 999_999_999 }, 3);
    }
    assert_eq!(ss.recent_assignments, vec![3, 4, 5]);
    assert_eq!(ss.last_used_at, "1970-01-01T00:00:05Z");
    assert_eq!(ss.created_at, "then");
    for secs in 6..=8 {
        ss = assign_at(ss, Timestamp { secs, nanos: 0 }, 0);
    }
    assert_eq!(ss.recent_assignments, vec![3, 4, 5, 6, 7, 8]);
}

#[test]
fn assignments_are_recorded() {
    let st = store();
    let (path, ss) = st.record_assignment("a", None, 30).unwrap();
    assert_eq!(path, "/home/u/.agentlb/state/sessions/a.json");
    assert_eq!(ss.alias, "a");
    assert_eq!(ss.recent_assignments.len(), 1);
    let used = chrono::DateTime::parse_from_rfc3339(&ss.last_used_at).unwrap();
    assert_eq!(used.timestamp(), ss.recent_assignments[0]);
    assert!(!ss.created_at.is_empty());
    let (_, again) = st.record_assignment("a", Some(ss.clone()), 1).unwrap();
    assert_eq!(again.created_at, ss.created_at);
    assert_eq!(again.recent_assignments.len(), 1);
    let e = st.record_assignment("", None, 30).unwrap_err();
    assert_eq!(e.kind, ErrorKind::InvalidInput);
    assert_eq!(e.message, "empty alias");
}

#[test]
fn sessions_are_saved_under_their_alias() {
    let st = store();
    let ss = SessionState { alias: "z".to_string(), ..SessionState::default() };
    let (path, saved) = st.save_session(ss).unwrap();
    assert_eq!(path, "/home/u/.agentlb/state/sessions/z.json");
    assert!(saved.created_at.ends_with('Z'));
    assert_eq!(st.save_session(SessionState::default()).unwrap_err().message, "empty alias");
}

#[test]
fn state_is_loaded_as_it_was_saved() {
    let st = store();
    let ss = SessionState {
        alias: "z".to_string(),
        created_at: "2026-02-28T12:00:00Z".to_string(),
        last_used_at: String::new(),
        recent_assignments: vec![],
    };
    let (path, saved) = st.save_session(ss.clone()).unwrap();
    assert_eq!(path, st.session_state_path("z"));
    let loaded = st.load_session("z", Some(saved));
    assert_eq!(format!("{:?}", loaded), format!("{:?}", ss));
    let again = st.load_session("z", Some(loaded.clone()));
    assert_eq!(format!("{:?}", again), format!("{:?}", loaded));
}

#[test]
fn files_are_staged_beside_their_place() {
    let st = store();
    let write = st.save_global(b"{}".to_vec(), 7).unwrap();
    assert_eq!(write.directory, "/home/u/.agentlb/state");
    assert_eq!(write.staging.as_deref(), Some("/home/u/.agentlb/state/.global.json.tmp.7"));
    assert_eq!(write.bytes, b"{}\n");
    let write = st.write_text_atomic("/a/b", "1\u{e9}\n", 0o600, 4_294_967_295).unwrap();
    assert_eq!(write.bytes, "1\u{e9}\n".as_bytes());
    assert_eq!(write.staging.as_deref(), Some("/a/.b.tmp.4294967295"));
    assert_eq!(write.mode, 0o600);
    let e = st.write_json_atomic("/a/..", b"{}".to_vec(), 7).unwrap_err();
    assert_eq!(e.kind, ErrorKind::Other);
    assert_eq!(e.message, "invalid path");
    assert!(st.write_text_atomic("", "x", 0o600, 1).is_err());
}

#[test]
fn bad_data_is_named() {
    let e = invalid_data("invalid global state", "eof");
    assert_eq!(e.kind, ErrorKind::InvalidData);
    assert_eq!(e.message, "invalid global state: eof");
}
