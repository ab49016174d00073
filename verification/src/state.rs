//! The files of the program: where they lie, what is written into them and how, and the state
//! of sessions and of the whole that they keep.
use vstd::prelude::*;

use crate::config::agentlb_root;
use crate::error::{Error, ErrorKind};
use crate::numbers::{decimal, decimal_is_injective, digit_char, write_decimal};
use crate::path::{directory_part, file_part, join_path, path_below, path_below_splits};
use crate::path::split_path;
use crate::text::{before, before_is_irreflexive, before_is_total, before_is_transitive};
use crate::text::{begins_with, same_text};
use crate::text::{sorts_before, texts};
use crate::time::{clock_can_show, clock_now, format_ts, is_clock_text, now_rfc3339, rfc3339_text};
use crate::time::Timestamp;

verus! {

/// The mode of a directory that only its owner may use.
pub const PRIVATE_DIR_MODE: u32 = 0o700;

/// The mode of a file that only its owner may use.
pub const PRIVATE_FILE_MODE: u32 = 0o600;

// ---------------------------------------------------------------------------
// State
// ---------------------------------------------------------------------------
/// What is kept of one session.
#[derive(Debug, Clone)]
pub struct SessionState {
    pub alias: String,
    pub created_at: String,
    pub last_used_at: String,
    pub recent_assignments: Vec<i64>,
}

/// What is kept of all sessions together.
#[derive(Debug, Clone)]
pub struct GlobalState {
    pub round_robin_index: usize,
    pub last_alias: String,
}

pub struct SessionStateView {
    pub alias: Seq<char>,
    pub created_at: Seq<char>,
    pub last_used_at: Seq<char>,
    pub recent_assignments: Seq<i64>,
}

pub struct GlobalStateView {
    pub round_robin_index: int,
    pub last_alias: Seq<char>,
}

impl View for SessionState {
    type V = SessionStateView;

    open spec fn view(&self) -> SessionStateView {
        SessionStateView {
            alias: self.alias@,
            created_at: self.created_at@,
            last_used_at: self.last_used_at@,
            recent_assignments: self.recent_assignments@,
        }
    }
}

impl View for GlobalState {
    type V = GlobalStateView;

    open spec fn view(&self) -> GlobalStateView {
        GlobalStateView {
            round_robin_index: self.round_robin_index as int,
            last_alias: self.last_alias@,
        }
    }
}

impl Default for SessionState {
    fn default() -> (r: Self)
        ensures
            r@ == (SessionStateView {
                alias: ""@,
                created_at: ""@,
                last_used_at: ""@,
                recent_assignments: seq![],
            }),
    {
        SessionState {
            alias: "".to_string(),
            created_at: "".to_string(),
            last_used_at: "".to_string(),
            recent_assignments: Vec::new(),
        }
    }
}

impl Default for GlobalState {
    fn default() -> (r: Self)
        ensures
            r@ == (GlobalStateView { round_robin_index: 0, last_alias: ""@ }),
    {
        GlobalState { round_robin_index: 0, last_alias: "".to_string() }
    }
}

// ---------------------------------------------------------------------------
// Sessions
// ---------------------------------------------------------------------------
/// `text`, or `fallback` where `text` is empty.
pub open spec fn unless_empty(text: Seq<char>, fallback: Seq<char>) -> Seq<char> {
    if text.len() == 0 {
        fallback
    } else {
        text
    }
}

/// The state of the session `alias`, given what is stored of it: an alias or a time of creation
/// that is missing is filled in, and a session of which nothing is stored is created `now`.
pub open spec fn loaded_session(
    alias: Seq<char>,
    stored: Option<SessionStateView>,
    now: Seq<char>,
) -> SessionStateView {
    match stored {
        Some(ss) => SessionStateView {
            alias: unless_empty(ss.alias, alias),
            created_at: unless_empty(ss.created_at, now),
            ..ss
        },
        None => SessionStateView {
            alias,
            created_at: now,
            last_used_at: seq![],
            recent_assignments: seq![],
        },
    }
}

/// The latest `window` of `times`, or all of them where `window` is 0.
pub open spec fn latest(times: Seq<i64>, window: int) -> Seq<i64> {
    if window > 0 && times.len() > window {
        times.skip(times.len() - window)
    } else {
        times
    }
}

/// The state of a session after it was assigned at `at`.
pub open spec fn assigned(ss: SessionStateView, at: Timestamp, window: int) -> SessionStateView {
    SessionStateView {
        last_used_at: rfc3339_text(at.secs, at.nanos),
        recent_assignments: latest(ss.recent_assignments.push(at.secs), window),
        ..ss
    }
}

/// The state of the session `alias` once it was assigned at `at`, given what is stored of it.
pub open spec fn recorded(
    alias: Seq<char>,
    stored: Option<SessionStateView>,
    now: Seq<char>,
    at: Timestamp,
    window: int,
) -> SessionStateView {
    assigned(loaded_session(alias, stored, now), at, window)
}

/// The state of all sessions together, given what is stored of it.
pub open spec fn loaded_global(stored: Option<GlobalStateView>) -> GlobalStateView {
    match stored {
        Some(g) => g,
        None => GlobalStateView { round_robin_index: 0, last_alias: ""@ },
    }
}

/// What is stored of a session, if anything is.
pub open spec fn stored_session(stored: Option<SessionState>) -> Option<SessionStateView> {
    match stored {
        Some(ss) => Some(ss@),
        None => None,
    }
}

/// The state of the session `alias`, given what is stored of it and the present time.
pub fn session_or_new(alias: &str, stored: Option<SessionState>, now: &str) -> (r: SessionState)
    ensures
        r@ == loaded_session(alias@, stored_session(stored), now@),
{
    match stored {
        Some(ss) => {
            let alias = if ss.alias.as_str().is_empty() {
                alias.to_string()
            } else {
                ss.alias
            };
            let created_at = if ss.created_at.as_str().is_empty() {
                now.to_string()
            } else {
                ss.created_at
            };
            SessionState {
                alias,
                created_at,
                last_used_at: ss.last_used_at,
                recent_assignments: ss.recent_assignments,
            }
        },
        None => {
            let r = SessionState {
                alias: alias.to_string(),
                created_at: now.to_string(),
                last_used_at: String::new(),
                recent_assignments: Vec::new(),
            };
            r
        },
    }
}

/// The state of a session after it was assigned at `at`; of the times of its assignments the
/// latest `spread_window` are kept, or all where that is 0.
pub fn assign_at(ss: SessionState, at: Timestamp, spread_window: usize) -> (r: SessionState)
    requires
        at.wf(),
    ensures
        r@ == assigned(ss@, at, spread_window as int),
{
    let mut times = ss.recent_assignments;
    times.push(at.secs);
    if spread_window > 0 && times.len() > spread_window {
        let start: usize = times.len() - spread_window;
        let ghost all = times@;
        let kept = times.split_off(start);
        proof {
            assert(kept@ =~= all.skip(start as int));
        }
        times = kept;
    }
    SessionState {
        alias: ss.alias,
        created_at: ss.created_at,
        last_used_at: format_ts(at),
        recent_assignments: times,
    }
}

/// However often a session is assigned, no more than `window` times are kept, and the latest is
/// always among them.
pub proof fn assignments_stay_in_the_window(ss: SessionStateView, at: Timestamp, window: int)
    requires
        window > 0,
    ensures
        0 < assigned(ss, at, window).recent_assignments.len() <= window,
        assigned(ss, at, window).recent_assignments.last() == at.secs,
        assigned(ss, at, window).recent_assignments.is_suffix_of(
            ss.recent_assignments.push(at.secs),
        ),
{
    let all = ss.recent_assignments.push(at.secs);
    let kept = latest(all, window);
    assert(kept =~= all.subrange(all.len() - kept.len(), all.len() as int));
}

/// A session that has an alias and a time of creation is stored as it is, and loaded again it is the
/// same, at whatever times that is done.
pub proof fn sessions_load_as_they_were_saved(
    ss: SessionStateView,
    saved_at: Seq<char>,
    loaded_at: Seq<char>,
)
    requires
        ss.alias.len() > 0,
        ss.created_at.len() > 0,
    ensures
        loaded_session(ss.alias, Some(ss), saved_at) == ss,
        loaded_session(
            ss.alias,
            Some(loaded_session(ss.alias, Some(ss), saved_at)),
            loaded_at,
        ) == ss,
{
}

/// What was stored of a session stays the same however often it is loaded and saved.
pub proof fn loading_again_changes_nothing(
    alias: Seq<char>,
    stored: Option<SessionStateView>,
    now: Seq<char>,
    later: Seq<char>,
)
    requires
        alias.len() > 0,
        now.len() > 0,
    ensures
        loaded_session(alias, Some(loaded_session(alias, stored, now)), later) == loaded_session(
            alias,
            stored,
            now,
        ),
{
}

/// The state of all sessions together is loaded as it was stored, and where nothing is stored it
/// begins at the first session with none recorded.
pub proof fn the_global_state_loads_as_it_was_stored(g: GlobalStateView)
    ensures
        loaded_global(Some(g)) == g,
        loaded_global(None).round_robin_index == 0,
        loaded_global(None).last_alias.len() == 0,
{
    reveal_strlit("");
}

/// An assignment never changes the alias or the time of creation that are stored of a session,
/// and leaves none of them empty.
pub proof fn assignments_keep_the_identity(
    alias: Seq<char>,
    stored: Option<SessionStateView>,
    now: Seq<char>,
    at: Timestamp,
    window: int,
)
    requires
        alias.len() > 0,
        now.len() > 0,
    ensures
        recorded(alias, stored, now, at, window).alias.len() > 0,
        recorded(alias, stored, now, at, window).created_at.len() > 0,
        stored is Some && stored->0.alias.len() > 0 ==> recorded(
            alias,
            stored,
            now,
            at,
            window,
        ).alias == stored->0.alias,
        stored is Some && stored->0.created_at.len() > 0 ==> recorded(
            alias,
            stored,
            now,
            at,
            window,
        ).created_at == stored->0.created_at,
{
}

// ---------------------------------------------------------------------------
// Writing files
// ---------------------------------------------------------------------------
/// A file to be written: the directory is made and given its mode, then the bytes are written,
/// first into the staging file where there is one, which then takes the place of the file, and
/// the file is given its mode.
#[derive(Debug)]
pub struct FileWrite {
    pub directory: String,
    pub directory_mode: u32,
    pub staging: Option<String>,
    pub path: String,
    pub bytes: Vec<u8>,
    pub mode: u32,
}

/// Whether `name` names an entry of a directory.
pub open spec fn plain_name(name: Seq<char>) -> bool {
    name.len() > 0 && name != "."@ && name != ".."@
}

/// The path of the staging file for `path`: a hidden file beside it that is marked with the
/// number of the process.
pub open spec fn staging_path(path: Seq<char>, pid: u32) -> Seq<char> {
    path_below(
        directory_part(path),
        "."@ + file_part(path) + ".tmp."@ + decimal(pid as nat),
    )
}

/// Whether `write` puts `bytes` into `path`, and whether by way of a staging file.
pub open spec fn writes(
    write: FileWrite,
    path: Seq<char>,
    bytes: Seq<u8>,
    staging: Option<Seq<char>>,
    mode: u32,
) -> bool {
    &&& write.directory@ == directory_part(path)
    &&& write.directory_mode == PRIVATE_DIR_MODE
    &&& match (write.staging, staging) {
        (Some(s), Some(t)) => s@ == t,
        (None, None) => true,
        _ => false,
    }
    &&& write.path@ == path
    &&& write.bytes@ == bytes
    &&& write.mode == mode
}

fn is_plain_name(name: &str) -> (r: bool)
    ensures
        r == plain_name(name@),
{
    !name.is_empty() && !same_text(name, ".") && !same_text(name, "..")
}

/// The file `path` with the content `bytes`, by way of a staging file where the number of a
/// process is given.
pub(crate) fn plan_write(
    path: &str,
    bytes: Vec<u8>,
    pid: Option<u32>,
    mode: u32,
    complaint: &str,
) -> (r: Result<FileWrite, Error>)
    ensures
        match r {
            Ok(write) => plain_name(file_part(path@)) && writes(
                write,
                path@,
                bytes@,
                match pid {
                    Some(pid) => Some(staging_path(path@, pid)),
                    None => None,
                },
                mode,
            ),
            Err(e) => !plain_name(file_part(path@)) && e.says(ErrorKind::Other, complaint@),
        },
{
    let (directory, name) = split_path(path);
    if !is_plain_name(name.as_str()) {
        return Err(Error::new(ErrorKind::Other, complaint));
    }
    let staging = match pid {
        Some(pid) => {
            let number = write_decimal(pid as u64);
            let hidden = ".".to_string().concat(name.as_str()).concat(".tmp.").concat(
                number.as_str(),
            );
            Some(join_path(directory.as_str(), hidden.as_str()))
        },
        None => None,
    };
    Ok(
        FileWrite {
            directory,
            directory_mode: PRIVATE_DIR_MODE,
            staging,
            path: path.to_string(),
            bytes,
            mode,
        },
    )
}

// ---------------------------------------------------------------------------
// The store
// ---------------------------------------------------------------------------
/// Where the files of the program lie.
#[derive(Debug, Clone)]
pub struct Store {
    pub root: String,
    pub config_path: String,
    pub sessions_dir: String,
    pub state_dir: String,
    pub session_state_dir: String,
    pub global_state_path: String,
    pub supervisor_pid_path: String,
    pub status_path: String,
    pub lock_path: String,
}

pub struct StoreView {
    pub root: Seq<char>,
    pub config_path: Seq<char>,
    pub sessions_dir: Seq<char>,
    pub state_dir: Seq<char>,
    pub session_state_dir: Seq<char>,
    pub global_state_path: Seq<char>,
    pub supervisor_pid_path: Seq<char>,
    pub status_path: Seq<char>,
    pub lock_path: Seq<char>,
}

impl View for Store {
    type V = StoreView;

    open spec fn view(&self) -> StoreView {
        StoreView {
            root: self.root@,
            config_path: self.config_path@,
            sessions_dir: self.sessions_dir@,
            state_dir: self.state_dir@,
            session_state_dir: self.session_state_dir@,
            global_state_path: self.global_state_path@,
            supervisor_pid_path: self.supervisor_pid_path@,
            status_path: self.status_path@,
            lock_path: self.lock_path@,
        }
    }
}

/// The store below the directory `root`.
pub open spec fn store_below(root: Seq<char>) -> StoreView {
    StoreView {
        root,
        config_path: path_below(root, "config.toml"@),
        sessions_dir: path_below(root, "sessions"@),
        state_dir: path_below(root, "state"@),
        session_state_dir: path_below(path_below(root, "state"@), "sessions"@),
        global_state_path: path_below(path_below(root, "state"@), "global.json"@),
        supervisor_pid_path: path_below(root, "supervisor.pid"@),
        status_path: path_below(root, "status.json"@),
        lock_path: path_below(path_below(root, "locks"@), "state.lock"@),
    }
}

/// The directories and the lock file that must be there before anything else is done.
#[derive(Debug)]
pub struct Layout {
    pub directories: Vec<String>,
    pub directory_mode: u32,
    pub lock_file: String,
    pub lock_file_mode: u32,
}

/// One entry of the directory of sessions.
#[derive(Debug)]
pub struct DirEntry {
    pub name: String,
    pub is_dir: bool,
}

/// The directories of a store, each behind the one it lies in.
pub open spec fn layout_directories(st: StoreView) -> Seq<Seq<char>> {
    seq![
        st.root,
        st.sessions_dir,
        st.state_dir,
        st.session_state_dir,
        directory_part(st.lock_path),
    ]
}

/// Whether an entry is a session: a directory that is not hidden.
pub open spec fn is_session(entry: DirEntry) -> bool {
    entry.is_dir && !(entry.name@.len() > 0 && entry.name@[0] == '.')
}

/// The names of the entries that are sessions, in the order of the entries.
pub open spec fn session_names(entries: Seq<DirEntry>) -> Seq<Seq<char>>
    decreases entries.len(),
{
    if entries.len() == 0 {
        seq![]
    } else if is_session(entries.last()) {
        session_names(entries.drop_last()).push(entries.last().name@)
    } else {
        session_names(entries.drop_last())
    }
}

/// Whether no text of `list` comes before one that stands in front of it.
pub open spec fn in_order(list: Seq<Seq<char>>) -> bool {
    forall|i: int, j: int| 0 <= i < j < list.len() ==> !before(#[trigger] list[j], #[trigger] list[i])
}

/// Puts `name` into its place in the ordered list `names`.
fn insert_in_order(names: &mut Vec<String>, name: String)
    requires
        in_order(texts(old(names)@)),
    ensures
        in_order(texts(final(names)@)),
        texts(final(names)@).to_multiset() == texts(old(names)@).to_multiset().insert(name@),
{
    let ghost list = texts(names@);
    let ghost text = name@;
    let mut i: usize = 0;
    while i < names.len() && !sorts_before(name.as_str(), names[i].as_str())
        invariant
            list == texts(names@),
            text == name@,
            i <= names@.len(),
            forall|k: int| 0 <= k < i ==> !before(text, #[trigger] list[k]),
        decreases names@.len() - i,
    {
        proof {
            assert(list[i as int] == names@[i as int]@);
        }
        i += 1;
    }
    proof {
        if i < list.len() {
            assert(list[i as int] == names@[i as int]@);
        }
    }
    names.insert(i, name);
    proof {
        let after = texts(names@);
        assert(after =~= list.insert(i as int, text));
        vstd::seq_lib::to_multiset_insert(list, i as int, text);
        assert forall|j: int, k: int| 0 <= j < k < after.len() implies !before(
            #[trigger] after[k],
            #[trigger] after[j],
        ) by {
            if k < i {
                assert(!before(list[k], list[j]));
            } else if j > i {
                assert(!before(list[k - 1], list[j - 1]));
            } else if k == i {
                assert(!before(text, list[j]));
            } else if j == i {
                // The new name comes before the one that it was put in front of, which comes
                // before none behind it.
                assert(before(text, list[i as int]));
                if before(list[k - 1], text) {
                    before_is_transitive(list[k - 1], text, list[i as int]);
                    assert(before(list[k - 1], list[i as int]));
                    if k - 1 > i {
                        assert(!before(list[k - 1], list[i as int]));
                    } else {
                        before_is_irreflexive(list[i as int]);
                    }
                }
            } else {
                assert(!before(list[k - 1], list[j]));
            }
        }
    }
}

impl Store {
    /// The store of the user with the given home directory; `None` stands for a home that is
    /// not known.
    pub fn new(home: Option<&str>) -> (r: Result<Store, Error>)
        ensures
            match r {
                Ok(st) => home is Some && st@ == store_below(path_below(home->0@, ".agentlb"@)),
                Err(e) => home is None && e.says(ErrorKind::NotFound, "HOME is not set"@),
            },
    {
        let root = match agentlb_root(home) {
            Ok(root) => root,
            Err(e) => {
                return Err(e);
            },
        };
        let state_dir = join_path(root.as_str(), "state");
        let locks_dir = join_path(root.as_str(), "locks");
        Ok(
            Store {
                config_path: join_path(root.as_str(), "config.toml"),
                sessions_dir: join_path(root.as_str(), "sessions"),
                session_state_dir: join_path(state_dir.as_str(), "sessions"),
                global_state_path: join_path(state_dir.as_str(), "global.json"),
                supervisor_pid_path: join_path(root.as_str(), "supervisor.pid"),
                status_path: join_path(root.as_str(), "status.json"),
                lock_path: join_path(locks_dir.as_str(), "state.lock"),
                state_dir,
                root,
            },
        )
    }

    /// The directories and the lock file that must be there.
    pub fn ensure_layout(&self) -> (r: Result<Layout, Error>)
        ensures
            match r {
                Ok(layout) => {
                    &&& plain_name(file_part(self@.lock_path))
                    &&& texts(layout.directories@) == layout_directories(self@)
                    &&& layout.directory_mode == PRIVATE_DIR_MODE
                    &&& layout.lock_file@ == self@.lock_path
                    &&& layout.lock_file_mode == PRIVATE_FILE_MODE
                },
                Err(e) => !plain_name(file_part(self@.lock_path)) && e.says(
                    ErrorKind::Other,
                    "invalid lock path"@,
                ),
            },
    {
        let (locks_dir, lock_name) = split_path(self.lock_path.as_str());
        if !is_plain_name(lock_name.as_str()) {
            return Err(Error::new(ErrorKind::Other, "invalid lock path"));
        }
        let mut directories: Vec<String> = Vec::new();
        directories.push(self.root.clone());
        directories.push(self.sessions_dir.clone());
        directories.push(self.state_dir.clone());
        directories.push(self.session_state_dir.clone());
        directories.push(locks_dir);
        proof {
            assert(texts(directories@) =~= seq![
                self@.root,
                self@.sessions_dir,
                self@.state_dir,
                self@.session_state_dir,
                directory_part(self@.lock_path),
            ]);
        }
        Ok(
            Layout {
                directories,
                directory_mode: PRIVATE_DIR_MODE,
                lock_file: self.lock_path.clone(),
                lock_file_mode: PRIVATE_FILE_MODE,
            },
        )
    }

    /// The directory of the session `alias`.
    pub fn session_dir(&self, alias: &str) -> (r: String)
        ensures
            r@ == path_below(self@.sessions_dir, alias@),
    {
        join_path(self.sessions_dir.as_str(), alias)
    }

    /// The file with the state of the session `alias`.
    pub fn session_state_path(&self, alias: &str) -> (r: String)
        ensures
            r@ == path_below(self@.session_state_dir, alias@ + ".json"@),
    {
        let name = alias.to_string().concat(".json");
        join_path(self.session_state_dir.as_str(), name.as_str())
    }

    /// The file with the auth metadata of the session `alias`.
    pub fn auth_path(&self, alias: &str) -> (r: String)
        ensures
            r@ == path_below(path_below(self@.sessions_dir, alias@), "auth.json"@),
    {
        join_path(self.session_dir(alias).as_str(), "auth.json")
    }

    /// The aliases of the sessions, in order, given the entries of the directory of sessions.
    pub fn list_aliases(&self, entries: Vec<DirEntry>) -> (r: Vec<String>)
        ensures
            in_order(texts(r@)),
            texts(r@).to_multiset() == session_names(entries@).to_multiset(),
    {
        let mut names: Vec<String> = Vec::new();
        let mut i: usize = 0;
        proof {
            assert(entries@.take(0) =~= seq![]);
            assert(texts(names@) =~= seq![]);
        }
        while i < entries.len()
            invariant
                i <= entries@.len(),
                in_order(texts(names@)),
                texts(names@).to_multiset() == session_names(
                    entries@.take(i as int),
                ).to_multiset(),
            decreases entries@.len() - i,
        {
            let ghost shorter = entries@.take(i as int);
            let ghost longer = entries@.take(i + 1);
            proof {
                reveal_strlit(".");
                assert(longer.drop_last() =~= shorter);
                assert(longer.last() == entries@[i as int]);
                let name = entries@[i as int].name@;
                if "."@.is_prefix_of(name) {
                    assert(name.subrange(0, 1)[0] == "."@[0]);
                }
                if name.len() > 0 && name[0] == '.' {
                    assert("."@ =~= name.subrange(0, 1));
                }
            }
            if entries[i].is_dir && !begins_with(entries[i].name.as_str(), ".") {
                insert_in_order(&mut names, entries[i].name.clone());
                proof {
                    vstd::seq_lib::to_multiset_build(
                        session_names(shorter),
                        entries@[i as int].name@,
                    );
                }
            }
            i += 1;
        }
        proof {
            assert(entries@.take(i as int) =~= entries@);
        }
        names
    }

    /// The state of all sessions together, given what is stored of it.
    pub fn load_global(&self, stored: Option<GlobalState>) -> (r: GlobalState)
        ensures
            r@ == loaded_global(
                match stored {
                    Some(g) => Some(g@),
                    None => None,
                },
            ),
    {
        match stored {
            Some(g) => g,
            None => GlobalState::default(),
        }
    }

    /// The state of the session `alias`, given what is stored of it.
    pub fn load_session(&self, alias: &str, stored: Option<SessionState>) -> (r: SessionState)
        ensures
            exists|now: Seq<char>|
                is_clock_text(now) && now.len() > 0 && r@ == #[trigger] loaded_session(
                    alias@,
                    stored_session(stored),
                    now,
                ),
    {
        let now = now_rfc3339();
        session_or_new(alias, stored, now.as_str())
    }

    /// The file for the state of the session `alias` and the state to write into it once the
    /// session was assigned at the time of the system clock, given what is stored of it.
    pub fn record_assignment(
        &self,
        alias: &str,
        stored: Option<SessionState>,
        spread_window: usize,
    ) -> (r: Result<(String, SessionState), Error>)
        ensures
            match r {
                Ok((path, saved)) => exists|now: Seq<char>, at: Timestamp|
                    {
                        &&& is_clock_text(now)
                        &&& clock_can_show(at)
                        &&& saved@ == #[trigger] recorded(
                            alias@,
                            stored_session(stored),
                            now,
                            at,
                            spread_window as int,
                        )
                        &&& saved@.alias.len() > 0
                        &&& path@ == path_below(self@.session_state_dir, saved@.alias + ".json"@)
                    },
                Err(e) => alias@.len() == 0 && (stored is Some ==> stored->0@.alias.len() == 0)
                    && e.says(ErrorKind::InvalidInput, "empty alias"@),
            },
    {
        let loaded = self.load_session(alias, stored);
        let at = clock_now();
        let ghost before = loaded@;
        let ss = assign_at(loaded, at, spread_window);
        proof {
            let now = choose|now: Seq<char>|
                is_clock_text(now) && now.len() > 0 && before == #[trigger] loaded_session(
                    alias@,
                    stored_session(stored),
                    now,
                );
            assert(ss@ == recorded(
                alias@,
                stored_session(stored),
                now,
                at,
                spread_window as int,
            ));
        }
        self.save_session(ss)
    }

    /// The file for the state of a session and the state to write into it, which has a time of
    /// creation. A session without an alias is refused.
    pub fn save_session(&self, ss: SessionState) -> (r: Result<(String, SessionState), Error>)
        ensures
            match r {
                Ok((path, saved)) => {
                    &&& ss@.alias.len() > 0
                    &&& path@ == path_below(self@.session_state_dir, ss@.alias + ".json"@)
                    &&& exists|now: Seq<char>|
                        is_clock_text(now) && saved@ == #[trigger] loaded_session(
                            ss@.alias,
                            Some(ss@),
                            now,
                        )
                },
                Err(e) => ss@.alias.len() == 0 && e.says(
                    ErrorKind::InvalidInput,
                    "empty alias"@,
                ),
            },
    {
        if ss.alias.as_str().is_empty() {
            return Err(Error::new(ErrorKind::InvalidInput, "empty alias"));
        }
        let now = now_rfc3339();
        let path = self.session_state_path(ss.alias.as_str());
        let alias = ss.alias.clone();
        Ok((path, session_or_new(alias.as_str(), Some(ss), now.as_str())))
    }

    /// The file `path` with the JSON document `json` and a line end, written so that it is
    /// never seen half written.
    pub fn write_json_atomic(&self, path: &str, json: Vec<u8>, pid: u32) -> (r: Result<
        FileWrite,
        Error,
    >)
        ensures
            match r {
                Ok(write) => plain_name(file_part(path@)) && writes(
                    write,
                    path@,
                    json@.push(10u8),
                    Some(staging_path(path@, pid)),
                    PRIVATE_FILE_MODE,
                ),
                Err(e) => !plain_name(file_part(path@)) && e.says(
                    ErrorKind::Other,
                    "invalid path"@,
                ),
            },
    {
        let mut bytes = json;
        bytes.push(10);
        plan_write(path, bytes, Some(pid), PRIVATE_FILE_MODE, "invalid path")
    }

    /// The file `path` with the text `value`, written so that it is never seen half written.
    pub fn write_text_atomic(&self, path: &str, value: &str, mode: u32, pid: u32) -> (r: Result<
        FileWrite,
        Error,
    >)
        ensures
            match r {
                Ok(write) => plain_name(file_part(path@)) && writes(
                    write,
                    path@,
                    vstd::utf8::encode_utf8(value@),
                    Some(staging_path(path@, pid)),
                    mode,
                ),
                Err(e) => !plain_name(file_part(path@)) && e.says(
                    ErrorKind::Other,
                    "invalid path"@,
                ),
            },
    {
        let bytes = value.as_bytes_vec();
        plan_write(path, bytes, Some(pid), mode, "invalid path")
    }

    /// The file with the state of all sessions together, as the JSON document `json`.
    pub fn save_global(&self, json: Vec<u8>, pid: u32) -> (r: Result<FileWrite, Error>)
        ensures
            match r {
                Ok(write) => plain_name(file_part(self@.global_state_path)) && writes(
                    write,
                    self@.global_state_path,
                    json@.push(10u8),
                    Some(staging_path(self@.global_state_path, pid)),
                    PRIVATE_FILE_MODE,
                ),
                Err(e) => !plain_name(file_part(self@.global_state_path)) && e.says(
                    ErrorKind::Other,
                    "invalid path"@,
                ),
            },
    {
        self.write_json_atomic(self.global_state_path.as_str(), json, pid)
    }
}

/// The error for stored data that cannot be read: `what` says which, and `detail` why.
pub fn invalid_data(what: &str, detail: &str) -> (e: Error)
    ensures
        e.says(ErrorKind::InvalidData, what@ + ": "@ + detail@),
{
    let message = what.to_string().concat(": ").concat(detail);
    Error { kind: ErrorKind::InvalidData, message }
}

// ---------------------------------------------------------------------------
// Laws
// ---------------------------------------------------------------------------
proof fn decimal_has_no_slash(n: nat)
    ensures
        !decimal(n).contains('/'),
    decreases n,
{
    if n >= 10 {
        decimal_has_no_slash(n / 10);
    }
    let d = digit_char((n % 10) as int);
    assert(d != '/');
    if decimal(n).contains('/') {
        let i = choose|i: int| 0 <= i < decimal(n).len() && decimal(n)[i] == '/';
        if n >= 10 && i < decimal(n / 10).len() {
            assert(decimal(n / 10)[i] == '/');
            assert(decimal(n / 10).contains('/'));
        }
    }
}

/// The staging file for a file lies beside it, is hidden, is another file, and differs from that
/// of every other process.
pub proof fn staging_files_lie_beside(dir: Seq<char>, name: Seq<char>, pid: u32)
    requires
        dir.len() > 0,
        dir.last() != '/',
        name.len() > 0,
        !name.contains('/'),
    ensures
        directory_part(staging_path(path_below(dir, name), pid)) == dir,
        file_part(staging_path(path_below(dir, name), pid)).len() > name.len(),
        file_part(staging_path(path_below(dir, name), pid))[0] == '.',
        staging_path(path_below(dir, name), pid) != path_below(dir, name),
        forall|other: u32|
            other != pid ==> #[trigger] staging_path(path_below(dir, name), other) != staging_path(
                path_below(dir, name),
                pid,
            ),
{
    let path = path_below(dir, name);
    path_below_splits(dir, name);
    reveal_strlit(".");
    reveal_strlit(".tmp.");
    let front = "."@ + name + ".tmp."@;
    let hidden = front + decimal(pid as nat);
    decimal_has_no_slash(pid as nat);
    assert(!hidden.contains('/')) by {
        if hidden.contains('/') {
            let i = choose|i: int| 0 <= i < hidden.len() && hidden[i] == '/';
            if i >= front.len() {
                assert(decimal(pid as nat)[i - front.len()] == '/');
            } else if 1 <= i < 1 + name.len() {
                assert(name[i - 1] == '/');
            }
        }
    }
    path_below_splits(dir, hidden);
    assert forall|other: u32| other != pid implies #[trigger] staging_path(path, other)
        != staging_path(path, pid) by {
        if staging_path(path, other) == staging_path(path, pid) {
            let second = front + decimal(other as nat);
            assert(second[0] == '.');
            let p = dir + seq!['/'] + hidden;
            let q = dir + seq!['/'] + second;
            assert(p == q);
            let n = dir.len() as int + 1 + front.len();
            assert(p.skip(n) =~= decimal(pid as nat));
            assert(q.skip(n) =~= decimal(other as nat));
            decimal_is_injective(pid as nat, other as nat);
        }
    }
}

/// Every file of the store of a user can be written, and lies in a directory of the store.
pub proof fn files_lie_in_the_store(home: Seq<char>)
    ensures
        ({
            let root = path_below(home, ".agentlb"@);
            let st = store_below(root);
            &&& plain_name(file_part(st.config_path))
            &&& directory_part(st.config_path) == root
            &&& plain_name(file_part(st.supervisor_pid_path))
            &&& directory_part(st.supervisor_pid_path) == root
            &&& plain_name(file_part(st.status_path))
            &&& directory_part(st.status_path) == root
            &&& plain_name(file_part(st.global_state_path))
            &&& directory_part(st.global_state_path) == st.state_dir
            &&& plain_name(file_part(st.lock_path))
            &&& directory_part(st.lock_path) == path_below(root, "locks"@)
        }),
{
    reveal_strlit(".agentlb");
    reveal_strlit("config.toml");
    reveal_strlit("supervisor.pid");
    reveal_strlit("status.json");
    reveal_strlit("state");
    reveal_strlit("global.json");
    reveal_strlit("locks");
    reveal_strlit("state.lock");
    reveal_strlit(".");
    reveal_strlit("..");
    let root = path_below(home, ".agentlb"@);
    assert(root.last() == 'b');
    path_below_splits(root, "config.toml"@);
    path_below_splits(root, "supervisor.pid"@);
    path_below_splits(root, "status.json"@);
    let state = path_below(root, "state"@);
    assert(state.last() == 'e');
    path_below_splits(state, "global.json"@);
    let locks = path_below(root, "locks"@);
    assert(locks.last() == 's');
    path_below_splits(locks, "state.lock"@);
}

/// The state of a session lies among the states of the sessions, in a file that can be written.
pub proof fn session_states_lie_in_the_store(home: Seq<char>, alias: Seq<char>)
    requires
        !alias.contains('/'),
    ensures
        ({
            let st = store_below(path_below(home, ".agentlb"@));
            let path = path_below(st.session_state_dir, alias + ".json"@);
            plain_name(file_part(path)) && directory_part(path) == st.session_state_dir
        }),
{
    reveal_strlit("sessions");
    reveal_strlit(".json");
    reveal_strlit(".");
    reveal_strlit("..");
    let st = store_below(path_below(home, ".agentlb"@));
    assert(st.session_state_dir.last() == 's');
    let name = alias + ".json"@;
    assert(!name.contains('/')) by {
        if name.contains('/') {
            let i = choose|i: int| 0 <= i < name.len() && name[i] == '/';
            if i < alias.len() {
                assert(alias[i] == '/');
            }
        }
    }
    path_below_splits(st.session_state_dir, name);
}

/// Each session has a directory and a state of its own: no two aliases share one.
pub proof fn sessions_are_isolated(home: Seq<char>, a: Seq<char>, b: Seq<char>)
    requires
        a != b,
        a.len() > 0 ==> a[0] != '/',
        b.len() > 0 ==> b[0] != '/',
    ensures
        ({
            let st = store_below(path_below(home, ".agentlb"@));
            &&& path_below(st.sessions_dir, a) != path_below(st.sessions_dir, b)
            &&& path_below(st.session_state_dir, a + ".json"@) != path_below(
                st.session_state_dir,
                b + ".json"@,
            )
        }),
{
    reveal_strlit("sessions");
    reveal_strlit(".json");
    let st = store_below(path_below(home, ".agentlb"@));
    let dir = st.sessions_dir;
    let states = st.session_state_dir;
    assert(dir.last() == 's');
    assert(states.last() == 's');
    if path_below(dir, a) == path_below(dir, b) {
        assert((dir + seq!['/'] + a).skip(dir.len() as int + 1) =~= a);
        assert((dir + seq!['/'] + b).skip(dir.len() as int + 1) =~= b);
    }
    let x = a + ".json"@;
    let y = b + ".json"@;
    assert(x[0] != '/');
    assert(y[0] != '/');
    if path_below(states, x) == path_below(states, y) {
        assert((states + seq!['/'] + x).skip(states.len() as int + 1) =~= x);
        assert((states + seq!['/'] + y).skip(states.len() as int + 1) =~= y);
        assert(x.take(x.len() - 5) =~= a);
        assert(y.take(y.len() - 5) =~= b);
    }
}

/// What was stored of a session is loaded with its history, and what is missing is filled in: the
/// alias that was asked for and the present time.
pub proof fn what_is_missing_is_filled_in(
    alias: Seq<char>,
    ss: SessionStateView,
    now: Seq<char>,
)
    ensures
        ({
            let loaded = loaded_session(alias, Some(ss), now);
            &&& loaded.last_used_at == ss.last_used_at
            &&& loaded.recent_assignments == ss.recent_assignments
            &&& ss.alias.len() > 0 ==> loaded.alias == ss.alias
            &&& ss.alias.len() == 0 ==> loaded.alias == alias
            &&& ss.created_at.len() > 0 ==> loaded.created_at == ss.created_at
            &&& ss.created_at.len() == 0 ==> loaded.created_at == now
        }),
        ({
            let fresh = loaded_session(alias, None, now);
            &&& fresh.alias == alias
            &&& fresh.created_at == now
            &&& fresh.last_used_at.len() == 0
            &&& fresh.recent_assignments.len() == 0
        }),
{
}

/// An assignment is noted at the end of the history, of which only the oldest entries beyond the
/// window leave; without a window none does. The session was last used at that time, and nothing
/// else changes.
pub proof fn assignments_are_noted(ss: SessionStateView, at: Timestamp, window: int, i: int)
    requires
        window >= 0,
    ensures
        ({
            let after = assigned(ss, at, window);
            let n = ss.recent_assignments.len() as int;
            let m = after.recent_assignments.len() as int;
            &&& after.alias == ss.alias
            &&& after.created_at == ss.created_at
            &&& after.last_used_at == rfc3339_text(at.secs, at.nanos)
            &&& m > 0 && after.recent_assignments[m - 1] == at.secs
            &&& window == 0 || n < window ==> m == n + 1
            &&& window > 0 && n >= window ==> m == window
            &&& 0 <= i < m - 1 ==> after.recent_assignments[i] == ss.recent_assignments[n - (m
                - 1) + i]
        }),
{
}

/// The record of an assignment is that of the session as it was loaded.
pub proof fn assignments_are_recorded(
    alias: Seq<char>,
    stored: Option<SessionStateView>,
    now: Seq<char>,
    at: Timestamp,
    window: int,
)
    ensures
        recorded(alias, stored, now, at, window).last_used_at == rfc3339_text(at.secs, at.nanos),
        stored is None && window > 0 ==> recorded(alias, stored, now, at, window) == (
        SessionStateView {
            alias,
            created_at: now,
            last_used_at: rfc3339_text(at.secs, at.nanos),
            recent_assignments: seq![at.secs],
        }),
        stored is Some && stored->0.alias.len() > 0 && stored->0.created_at.len() > 0 ==> recorded(
            alias,
            stored,
            now,
            at,
            window,
        ) == assigned(stored->0, at, window),
{
    if stored is None {
        assert(Seq::<i64>::empty().push(at.secs) =~= seq![at.secs]);
    }
}

/// What is said of a stored state is said of its fields, each by its own name.
pub proof fn the_views_of_states_are_their_fields(ss: SessionState, g: GlobalState, st: Store)
    ensures
        ss@.alias == ss.alias@,
        ss@.created_at == ss.created_at@,
        ss@.last_used_at == ss.last_used_at@,
        ss@.recent_assignments == ss.recent_assignments@,
        g@.round_robin_index == g.round_robin_index,
        g@.last_alias == g.last_alias@,
        stored_session(Some(ss)) == Some(ss@),
        stored_session(None) is None,
        st@.root == st.root@,
        st@.config_path == st.config_path@,
        st@.sessions_dir == st.sessions_dir@,
        st@.state_dir == st.state_dir@,
        st@.session_state_dir == st.session_state_dir@,
        st@.global_state_path == st.global_state_path@,
        st@.supervisor_pid_path == st.supervisor_pid_path@,
        st@.status_path == st.status_path@,
        st@.lock_path == st.lock_path@,
{
}

/// The sessions are the directories whose names do not begin with a dot.
pub proof fn sessions_are_the_directories_that_are_seen(entry: DirEntry)
    ensures
        !entry.is_dir ==> !is_session(entry),
        entry.name@.len() > 0 && entry.name@[0] == '.' ==> !is_session(entry),
        entry.is_dir && entry.name@.len() > 0 && entry.name@[0] != '.' ==> is_session(entry),
{
}

/// The names of the sessions in a directory are found entry by entry, in the order of the entries.
pub proof fn sessions_are_found_entry_by_entry(a: Seq<DirEntry>, b: Seq<DirEntry>, entry: DirEntry)
    ensures
        session_names(seq![]).len() == 0,
        is_session(entry) ==> session_names(seq![entry]) == seq![entry.name@],
        !is_session(entry) ==> session_names(seq![entry]).len() == 0,
        session_names(a + b) == session_names(a) + session_names(b),
    decreases b.len(),
{
    assert(session_names(seq![entry].drop_last()) =~= seq![]);
    if b.len() == 0 {
        assert(a + b =~= a);
        assert(session_names(a) + session_names(b) =~= session_names(a));
    } else {
        sessions_are_found_entry_by_entry(a, b.drop_last(), entry);
        assert((a + b).drop_last() =~= a + b.drop_last());
        assert((a + b).last() == b.last());
        assert(session_names(a + b) =~= session_names(a) + session_names(b));
    }
}

/// A file is written with exactly its bytes, under its path and with its rights, into a directory
/// that only its owner can enter; by way of a second file exactly where one is named.
pub proof fn files_are_written_whole(
    write: FileWrite,
    path: Seq<char>,
    bytes: Seq<u8>,
    staging: Option<Seq<char>>,
    mode: u32,
)
    requires
        writes(write, path, bytes, staging, mode),
    ensures
        write.path@ == path,
        write.bytes@ == bytes,
        write.mode == mode,
        write.directory@ == directory_part(path),
        write.directory_mode == 0o700,
        write.staging is Some <==> staging is Some,
        staging is Some ==> write.staging->0@ == staging->0,
{
}

/// The file by way of which another is written has the name of that file, between a dot and the
/// number of the process.
pub proof fn staging_files_are_named_after_their_file(dir: Seq<char>, name: Seq<char>, pid: u32)
    requires
        dir.len() > 0,
        dir.last() != '/',
        name.len() > 0,
        !name.contains('/'),
    ensures
        staging_path(dir + seq!['/'] + name, pid) == dir + "/."@ + name + ".tmp."@ + decimal(
            pid as nat,
        ),
{
    reveal_strlit("/.");
    reveal_strlit(".");
    assert("/."@ =~= seq!['/'] + "."@);
    path_below_splits(dir, name);
    assert(name[0] != '/') by {
        if name[0] == '/' {
            assert(name.contains('/'));
        }
    }
    let own = "."@ + name + ".tmp."@ + decimal(pid as nat);
    assert(own[0] == '.');
    assert(path_below(dir, own) =~= dir + "/."@ + name + ".tmp."@ + decimal(pid as nat));
}

/// Every file and directory of the store lies below its root under its own name.
pub proof fn the_store_is_laid_out_below_its_root(root: Seq<char>)
    requires
        root.len() > 0,
        root.last() != '/',
    ensures
        ({
            let st = store_below(root);
            &&& st.root == root
            &&& st.config_path == root + "/config.toml"@
            &&& st.sessions_dir == root + "/sessions"@
            &&& st.state_dir == root + "/state"@
            &&& st.session_state_dir == root + "/state/sessions"@
            &&& st.global_state_path == root + "/state/global.json"@
            &&& st.supervisor_pid_path == root + "/supervisor.pid"@
            &&& st.status_path == root + "/status.json"@
            &&& st.lock_path == root + "/locks/state.lock"@
        }),
{
    reveal_strlit("config.toml");
    reveal_strlit("sessions");
    reveal_strlit("state");
    reveal_strlit("global.json");
    reveal_strlit("supervisor.pid");
    reveal_strlit("status.json");
    reveal_strlit("locks");
    reveal_strlit("state.lock");
    reveal_strlit("/config.toml");
    reveal_strlit("/sessions");
    reveal_strlit("/state");
    reveal_strlit("/state/sessions");
    reveal_strlit("/state/global.json");
    reveal_strlit("/supervisor.pid");
    reveal_strlit("/status.json");
    reveal_strlit("/locks/state.lock");
    let st = store_below(root);
    assert(st.config_path =~= root + "/config.toml"@);
    assert(st.sessions_dir =~= root + "/sessions"@);
    assert(st.state_dir =~= root + "/state"@);
    assert(st.session_state_dir =~= root + "/state/sessions"@);
    assert(st.global_state_path =~= root + "/state/global.json"@);
    assert(st.supervisor_pid_path =~= root + "/supervisor.pid"@);
    assert(st.status_path =~= root + "/status.json"@);
    assert(st.lock_path =~= root + "/locks/state.lock"@);
}

/// The layout has every directory that a file of the store lies in, and makes the directory of the
/// session states after the one it lies in.
pub proof fn the_layout_has_all_directories(st: StoreView)
    ensures
        layout_directories(st).contains(st.root),
        layout_directories(st).contains(st.sessions_dir),
        layout_directories(st).contains(st.session_state_dir),
        layout_directories(st).contains(directory_part(st.lock_path)),
        layout_directories(st)[0] == st.root,
        exists|i: int, j: int|
            0 <= i < j < layout_directories(st).len() && #[trigger] layout_directories(st)[i]
                == st.state_dir && #[trigger] layout_directories(st)[j] == st.session_state_dir,
{
    let all = layout_directories(st);
    assert(all[0] == st.root);
    assert(all[1] == st.sessions_dir);
    assert(all[2] == st.state_dir && all[3] == st.session_state_dir);
    assert(all[4] == directory_part(st.lock_path));
}

/// Aliases in order are those that sort first first, and there is but one order: lists of the same
/// aliases that are both in order are equal.
pub proof fn there_is_one_order(a: Seq<Seq<char>>, b: Seq<Seq<char>>, i: int, j: int)
    requires
        in_order(a),
    ensures
        0 <= i < j < a.len() ==> a[i] == a[j] || before(a[i], a[j]),
        in_order(b) && a.to_multiset() == b.to_multiset() ==> a == b,
{
    if 0 <= i < j < a.len() {
        assert(!before(a[j], a[i]));
        if a[i] != a[j] {
            before_is_total(a[i], a[j]);
        }
    }
    if in_order(b) && a.to_multiset() == b.to_multiset() {
        let leq = |x: Seq<char>, y: Seq<char>| !before(y, x);
        assert forall|x: Seq<char>| #[trigger] leq(x, x) by {
            before_is_irreflexive(x);
        }
        assert forall|x: Seq<char>, y: Seq<char>| #[trigger] leq(x, y) && #[trigger] leq(
            y,
            x,
        ) implies x == y by {
            if x != y {
                before_is_total(x, y);
            }
        }
        assert forall|x: Seq<char>, y: Seq<char>, z: Seq<char>| #[trigger]
            leq(x, y) && #[trigger] leq(y, z) implies leq(x, z) by {
            if before(z, x) && x != y {
                before_is_total(x, y);
                before_is_transitive(z, x, y);
            }
        }
        assert forall|x: Seq<char>, y: Seq<char>| #[trigger] leq(x, y) || leq(y, x) by {
            if before(x, y) && before(y, x) {
                before_is_transitive(x, y, x);
                before_is_irreflexive(x);
            }
        }
        vstd::seq_lib::lemma_sorted_unique(a, b, leq);
    }
}

} // verus!
