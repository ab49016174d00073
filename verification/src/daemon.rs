//! The supervisor at work: the state that it keeps of all sessions, what each event changes in
//! it, and when the status is written.
use vstd::prelude::*;
use vstd::seq_lib::lemma_seq_contains_after_push;

use crate::json::{Json, Tree};
use crate::map::TextMap;
use crate::runtime::{after_message, after_probe, check_limits, check_message, default_session};
use crate::runtime::{default_session_status, extract_rate_limits, failed_runtime, failed_session};
use crate::runtime::{fresh_runtime, handle_message_at, in_window, limits_in, limits_in_range};
use crate::runtime::{message_in_range, note_probe, note_started, record_failure_at, restart_delay};
use crate::runtime::{reads_back, refresh_due, refresh_health, start_due, started_runtime};
use crate::runtime::{started_session, ticked_runtime, ticked_session, wants_refresh, wants_start};
use crate::runtime::{Runtime, RuntimeView, CLOCK_LIMIT, SECOND_NS};
use crate::status::{age_at, DaemonStatus, SessionStatus, SessionView, StatusFile};
use crate::numbers::numeral;
use crate::supervisor::{env_u64, env_usize, number_or, numbers_count_and_all_else_is_the_default};
use crate::text::{before, before_is_irreflexive, holds_text, texts};
use crate::time::{format_ts, rfc3339_text, Timestamp};

verus! {

/// The seconds between two rounds of probes, unless set otherwise.
pub const DEFAULT_PROBE_INTERVAL_SEC: u64 = 300;

/// The seconds that a probe lasts at most, unless set otherwise.
pub const DEFAULT_PROBE_LIFETIME_SEC: u64 = 10;

/// The seconds between two times that the status is written, unless set otherwise.
pub const DEFAULT_STATUS_FLUSH_INTERVAL_SEC: u64 = 2;

/// How many failures within five minutes are allowed, unless set otherwise.
pub const DEFAULT_MAX_RESTARTS_5M: usize = 10;

/// How many seconds before they are stale rate limits are asked for anew, unless set otherwise.
pub const DEFAULT_PRE_STALE_REFRESH_SEC: u64 = 60;

/// The seconds between two times that rate limits are asked for anew, unless set otherwise.
pub const DEFAULT_PRE_STALE_REFRESH_COOLDOWN_SEC: u64 = 30;

/// The pause between two rounds, in milliseconds.
pub const ROUND_PAUSE_MS: u64 = 200;

// ---------------------------------------------------------------------------
// Settings
// ---------------------------------------------------------------------------
/// The settings of the supervisor.
#[derive(Debug, Clone, Copy)]
pub struct DaemonSettings {
    pub probe_interval_sec: u64,
    pub probe_lifetime_sec: u64,
    pub flush_interval_sec: u64,
    pub max_restarts_5m: usize,
    pub stale_sec: i64,
    pub refresh_lead_sec: u64,
    pub refresh_cooldown_sec: u64,
}

/// The values of the variables for the settings, where they are set.
#[derive(Debug, Clone, Copy)]
pub struct DaemonVariables<'a> {
    pub probe_interval_sec: Option<&'a str>,
    pub probe_lifetime_sec: Option<&'a str>,
    pub flush_interval_sec: Option<&'a str>,
    pub max_restarts_5m: Option<&'a str>,
    pub refresh_lead_sec: Option<&'a str>,
    pub refresh_cooldown_sec: Option<&'a str>,
}

/// The settings that the variables give, for rate limits that are stale after `stale_sec` seconds.
pub open spec fn settings_of(variables: DaemonVariables<'_>, stale_sec: i64) -> DaemonSettings {
    DaemonSettings {
        probe_interval_sec: number_or(
            variables.probe_interval_sec,
            u64::MAX as int,
            DEFAULT_PROBE_INTERVAL_SEC as int,
        ) as u64,
        probe_lifetime_sec: number_or(
            variables.probe_lifetime_sec,
            u64::MAX as int,
            DEFAULT_PROBE_LIFETIME_SEC as int,
        ) as u64,
        flush_interval_sec: number_or(
            variables.flush_interval_sec,
            u64::MAX as int,
            DEFAULT_STATUS_FLUSH_INTERVAL_SEC as int,
        ) as u64,
        max_restarts_5m: number_or(
            variables.max_restarts_5m,
            usize::MAX as int,
            DEFAULT_MAX_RESTARTS_5M as int,
        ) as usize,
        stale_sec,
        refresh_lead_sec: number_or(
            variables.refresh_lead_sec,
            u64::MAX as int,
            DEFAULT_PRE_STALE_REFRESH_SEC as int,
        ) as u64,
        refresh_cooldown_sec: number_or(
            variables.refresh_cooldown_sec,
            u64::MAX as int,
            DEFAULT_PRE_STALE_REFRESH_COOLDOWN_SEC as int,
        ) as u64,
    }
}

impl DaemonSettings {
    /// The settings that the variables give, for rate limits that are stale after `stale_sec`
    /// seconds.
    pub fn new(variables: &DaemonVariables<'_>, stale_sec: i64) -> (r: DaemonSettings)
        ensures
            r.probe_interval_sec == number_or(
                variables.probe_interval_sec,
                u64::MAX as int,
                DEFAULT_PROBE_INTERVAL_SEC as int,
            ),
            r.probe_lifetime_sec == number_or(
                variables.probe_lifetime_sec,
                u64::MAX as int,
                DEFAULT_PROBE_LIFETIME_SEC as int,
            ),
            r.flush_interval_sec == number_or(
                variables.flush_interval_sec,
                u64::MAX as int,
                DEFAULT_STATUS_FLUSH_INTERVAL_SEC as int,
            ),
            r.max_restarts_5m == number_or(
                variables.max_restarts_5m,
                usize::MAX as int,
                DEFAULT_MAX_RESTARTS_5M as int,
            ),
            r.stale_sec == stale_sec,
            r.refresh_lead_sec == number_or(
                variables.refresh_lead_sec,
                u64::MAX as int,
                DEFAULT_PRE_STALE_REFRESH_SEC as int,
            ),
            r.refresh_cooldown_sec == number_or(
                variables.refresh_cooldown_sec,
                u64::MAX as int,
                DEFAULT_PRE_STALE_REFRESH_COOLDOWN_SEC as int,
            ),
            r == settings_of(*variables, stale_sec),
    {
        DaemonSettings {
            probe_interval_sec: env_u64(variables.probe_interval_sec, DEFAULT_PROBE_INTERVAL_SEC),
            probe_lifetime_sec: env_u64(variables.probe_lifetime_sec, DEFAULT_PROBE_LIFETIME_SEC),
            flush_interval_sec: env_u64(
                variables.flush_interval_sec,
                DEFAULT_STATUS_FLUSH_INTERVAL_SEC,
            ),
            max_restarts_5m: env_usize(variables.max_restarts_5m, DEFAULT_MAX_RESTARTS_5M),
            stale_sec,
            refresh_lead_sec: env_u64(variables.refresh_lead_sec, DEFAULT_PRE_STALE_REFRESH_SEC),
            refresh_cooldown_sec: env_u64(
                variables.refresh_cooldown_sec,
                DEFAULT_PRE_STALE_REFRESH_COOLDOWN_SEC,
            ),
        }
    }
}

// ---------------------------------------------------------------------------
// State
// ---------------------------------------------------------------------------
/// The state of the supervisor.
#[derive(Debug)]
pub struct Daemon {
    pub pid: i32,
    pub status: StatusFile,
    pub runtimes: TextMap<Runtime>,
    pub dirty: bool,
    pub next_probe: u128,
    pub next_flush: u128,
    pub settings: DaemonSettings,
}

pub struct DaemonView {
    pub pid: i32,
    pub version: u32,
    pub updated_at: Seq<char>,
    pub daemon_pid: i32,
    pub started_at: Seq<char>,
    pub sessions: Map<Seq<char>, SessionView>,
    pub runtimes: Map<Seq<char>, RuntimeView>,
    pub dirty: bool,
    pub next_probe: int,
    pub next_flush: int,
    pub settings: DaemonSettings,
}

/// What the statuses of the sessions say.
pub open spec fn session_views(sessions: Map<Seq<char>, SessionStatus>) -> Map<
    Seq<char>,
    SessionView,
> {
    sessions.map_values(|sess: SessionStatus| sess@)
}

/// What is known of the servers of the sessions.
pub open spec fn runtime_views(runtimes: Map<Seq<char>, Runtime>) -> Map<Seq<char>, RuntimeView> {
    runtimes.map_values(|rt: Runtime| rt@)
}

proof fn views_follow_changes(
    sessions: Map<Seq<char>, SessionStatus>,
    runtimes: Map<Seq<char>, Runtime>,
    alias: Seq<char>,
)
    ensures
        forall|sess: SessionStatus| #[trigger]
            session_views(sessions.insert(alias, sess)) == session_views(sessions).insert(
                alias,
                sess@,
            ),
        forall|rt: Runtime| #[trigger]
            runtime_views(runtimes.insert(alias, rt)) == runtime_views(runtimes).insert(alias, rt@),
        session_views(sessions.remove(alias)) == session_views(sessions).remove(alias),
        runtime_views(runtimes.remove(alias)) == runtime_views(runtimes).remove(alias),
{
    assert forall|sess: SessionStatus| #[trigger]
        session_views(sessions.insert(alias, sess)) == session_views(sessions).insert(
            alias,
            sess@,
        ) by {
        assert(session_views(sessions.insert(alias, sess)) =~= session_views(sessions).insert(
            alias,
            sess@,
        ));
    }
    assert forall|rt: Runtime| #[trigger]
        runtime_views(runtimes.insert(alias, rt)) == runtime_views(runtimes).insert(alias, rt@) by {
        assert(runtime_views(runtimes.insert(alias, rt)) =~= runtime_views(runtimes).insert(
            alias,
            rt@,
        ));
    }
    assert(session_views(sessions.remove(alias)) =~= session_views(sessions).remove(alias));
    assert(runtime_views(runtimes.remove(alias)) =~= runtime_views(runtimes).remove(alias));
}

impl View for Daemon {
    type V = DaemonView;

    open spec fn view(&self) -> DaemonView {
        DaemonView {
            pid: self.pid,
            version: self.status.version,
            updated_at: self.status.updated_at@,
            daemon_pid: self.status.daemon.pid,
            started_at: self.status.daemon.started_at@,
            sessions: session_views(self.status.sessions.map()),
            runtimes: runtime_views(self.runtimes.map()),
            dirty: self.dirty,
            next_probe: self.next_probe as int,
            next_flush: self.next_flush as int,
            settings: self.settings,
        }
    }
}

/// The text of the point in time `clock`.
pub open spec fn clock_text(clock: Timestamp) -> Seq<char> {
    rfc3339_text(clock.secs, clock.nanos)
}

/// The state in which the supervisor `pid` starts, given the statuses of the sessions that are
/// stored.
pub open spec fn started_daemon(
    pid: i32,
    sessions: Map<Seq<char>, SessionView>,
    now: u128,
    clock: Timestamp,
    settings: DaemonSettings,
) -> DaemonView {
    DaemonView {
        pid,
        version: 1,
        updated_at: clock_text(clock),
        daemon_pid: pid,
        started_at: clock_text(clock),
        sessions,
        runtimes: Map::empty(),
        dirty: false,
        next_probe: now as int,
        next_flush: now as int,
        settings,
    }
}

/// The aliases whose sessions are gone: they were known and are not among `known`.
pub open spec fn gone(d: DaemonView, known: Set<Seq<char>>) -> Set<Seq<char>> {
    d.runtimes.dom().difference(known)
}

/// `d` after it was seen at `now` that the sessions are `known`.
pub open spec fn synced(d: DaemonView, known: Set<Seq<char>>, now: u128) -> DaemonView {
    DaemonView {
        runtimes: Map::new(
            |alias: Seq<char>| known.contains(alias),
            |alias: Seq<char>|
                if d.runtimes.contains_key(alias) {
                    d.runtimes[alias]
                } else {
                    fresh_runtime(now)
                },
        ),
        sessions: Map::new(
            |alias: Seq<char>|
                known.contains(alias) || (d.sessions.contains_key(alias) && !gone(
                    d,
                    known,
                ).contains(alias)),
            |alias: Seq<char>|
                if d.sessions.contains_key(alias) {
                    d.sessions[alias]
                } else {
                    default_session()
                },
        ),
        dirty: d.dirty || exists|alias: Seq<char>| gone(d, known).contains(alias),
        ..d
    }
}

// ---------------------------------------------------------------------------
// Events
// ---------------------------------------------------------------------------
/// What happens to a session.
#[derive(Debug)]
pub enum Event {
    /// A round begins.
    Round,
    /// Its server sent a message.
    Message(Json),
    /// Its server ended, closed its stream or could not be started.
    Failed,
    /// Its server was started as the process of this number, and asked for the rate limits.
    Started(i32),
    /// A probe ended; the message with the rate limits, where there was one.
    Probed(Option<Json>),
    /// Its server was asked for the rate limits.
    Asked,
}

pub enum EventView {
    Round,
    Message(Tree),
    Failed,
    Started(i32),
    Probed(Option<Tree>),
    Asked,
}

impl View for Event {
    type V = EventView;

    open spec fn view(&self) -> EventView {
        match self {
            Event::Round => EventView::Round,
            Event::Message(msg) => EventView::Message(msg@),
            Event::Failed => EventView::Failed,
            Event::Started(pid) => EventView::Started(*pid),
            Event::Probed(Some(msg)) => EventView::Probed(limits_in(msg@)),
            Event::Probed(None) => EventView::Probed(None),
            Event::Asked => EventView::Asked,
        }
    }
}

/// `rt` after its server was asked for the rate limits at `now`.
pub open spec fn asked_runtime(rt: RuntimeView, now: u128, settings: DaemonSettings) -> RuntimeView {
    RuntimeView { next_refresh_at: now + settings.refresh_cooldown_sec * SECOND_NS, ..rt }
}

/// What is known of the server of a session after an event. A server that was started has been
/// asked for the rate limits.
pub open spec fn next_runtime(
    rt: RuntimeView,
    event: EventView,
    now: u128,
    clock: Timestamp,
    settings: DaemonSettings,
) -> RuntimeView {
    match event {
        EventView::Round => ticked_runtime(rt, now),
        EventView::Message(_) => rt,
        EventView::Failed => failed_runtime(
            RuntimeView { managed: false, ..rt },
            now,
            clock.nanos as int,
            settings.max_restarts_5m as int,
        ),
        EventView::Started(_) => asked_runtime(started_runtime(rt, now), now, settings),
        EventView::Probed(_) => rt,
        EventView::Asked => asked_runtime(rt, now, settings),
    }
}

/// The status of a session, whose server is `rt`, after an event.
pub open spec fn next_session(
    sess: SessionView,
    rt: RuntimeView,
    event: EventView,
    now: u128,
    clock: Timestamp,
    settings: DaemonSettings,
) -> SessionView {
    match event {
        EventView::Round => ticked_session(sess, rt, now),
        EventView::Message(msg) => after_message(sess, msg, clock_text(clock)),
        EventView::Failed => failed_session(sess, rt, now, settings.max_restarts_5m as int),
        EventView::Started(pid) => started_session(sess, rt, pid),
        EventView::Probed(limits) => after_probe(sess, limits, clock_text(clock)),
        EventView::Asked => sess,
    }
}

/// The rate limits that an event brings.
pub open spec fn limits_of(event: EventView) -> Option<Tree> {
    match event {
        EventView::Message(msg) => limits_in(msg),
        EventView::Probed(limits) => limits,
        _ => None,
    }
}

/// Whether an event makes it necessary to write the status.
pub open spec fn is_news(event: EventView) -> bool {
    !(event is Round || event is Asked)
}

/// Whether the session `alias` is under supervision.
pub open spec fn supervised(d: DaemonView, alias: Seq<char>) -> bool {
    d.runtimes.contains_key(alias) && d.sessions.contains_key(alias)
}

/// `d` after an event that happened to the session `alias`.
pub open spec fn stepped(
    d: DaemonView,
    alias: Seq<char>,
    event: EventView,
    now: u128,
    clock: Timestamp,
) -> DaemonView {
    if supervised(d, alias) {
        let rt = d.runtimes[alias];
        let sess = d.sessions[alias];
        DaemonView {
            runtimes: d.runtimes.insert(alias, next_runtime(rt, event, now, clock, d.settings)),
            sessions: d.sessions.insert(
                alias,
                next_session(sess, rt, event, now, clock, d.settings),
            ),
            dirty: d.dirty || is_news(event),
            ..d
        }
    } else {
        d
    }
}

/// The supervisor once the status was written at `now`.
pub open spec fn flushed(d: DaemonView, now: u128) -> DaemonView {
    DaemonView {
        next_flush: now + d.settings.flush_interval_sec * SECOND_NS,
        dirty: false,
        ..d
    }
}

/// Whether what an event changes lies in the range of `i64`.
pub open spec fn event_in_range(d: DaemonView, alias: Seq<char>, event: EventView) -> bool {
    supervised(d, alias) ==> match event {
        EventView::Message(msg) => message_in_range(d.sessions[alias], msg),
        EventView::Failed => d.runtimes[alias].restart_count < i64::MAX,
        EventView::Probed(Some(limits)) => limits_in_range(limits),
        _ => true,
    }
}

impl Daemon {
    pub open spec fn wf(&self) -> bool {
        self.status.wf() && self.runtimes.wf()
    }

    /// The state in which the supervisor `pid` starts, given the status that is stored; `None`
    /// stands for one that could not be read.
    pub fn start(
        pid: i32,
        stored: Option<StatusFile>,
        now: u128,
        clock: Timestamp,
        settings: DaemonSettings,
    ) -> (d: Daemon)
        requires
            stored is Some ==> stored->0.wf(),
            clock.wf(),
        ensures
            d.wf(),
            d@ == started_daemon(
                pid,
                match stored {
                    Some(status) => session_views(status.sessions.map()),
                    None => Map::empty(),
                },
                now,
                clock,
                settings,
            ),
    {
        let sessions = match stored {
            Some(status) => status.sessions,
            None => TextMap::new(),
        };
        let status = StatusFile {
            version: 1,
            updated_at: format_ts(clock),
            daemon: DaemonStatus { pid, started_at: format_ts(clock) },
            sessions,
        };
        let d = Daemon {
            pid,
            status,
            runtimes: TextMap::new(),
            dirty: false,
            next_probe: now,
            next_flush: now,
            settings,
        };
        proof {
            assert(d@.runtimes =~= Map::<Seq<char>, RuntimeView>::empty());
            if stored is None {
                assert(d@.sessions =~= Map::<Seq<char>, SessionView>::empty());
            }
        }
        d
    }

    /// Adds what is missing for the sessions `aliases`.
    fn add_sessions(&mut self, aliases: &[String], now: u128)
        requires
            old(self).wf(),
        ensures
            final(self).wf(),
            final(self)@ == (DaemonView {
                runtimes: final(self)@.runtimes,
                sessions: final(self)@.sessions,
                ..old(self)@
            }),
            final(self)@.runtimes == Map::new(
                |alias: Seq<char>|
                    old(self)@.runtimes.contains_key(alias) || texts(aliases@).contains(alias),
                |alias: Seq<char>|
                    if old(self)@.runtimes.contains_key(alias) {
                        old(self)@.runtimes[alias]
                    } else {
                        fresh_runtime(now)
                    },
            ),
            final(self)@.sessions == Map::new(
                |alias: Seq<char>|
                    old(self)@.sessions.contains_key(alias) || texts(aliases@).contains(alias),
                |alias: Seq<char>|
                    if old(self)@.sessions.contains_key(alias) {
                        old(self)@.sessions[alias]
                    } else {
                        default_session()
                    },
            ),
    {
        let ghost first = self@;
        let ghost all = texts(aliases@);
        let mut i: usize = 0;
        while i < aliases.len()
            invariant
                self.wf(),
                i <= aliases@.len(),
                all == texts(aliases@),
                self@ == (DaemonView {
                    runtimes: self@.runtimes,
                    sessions: self@.sessions,
                    ..first
                }),
                forall|alias: Seq<char>| #[trigger]
                    self@.runtimes.contains_key(alias) <==> first.runtimes.contains_key(alias)
                        || all.take(i as int).contains(alias),
                forall|alias: Seq<char>| #[trigger]
                    self@.runtimes.contains_key(alias) ==> self@.runtimes[alias] == (
                    if first.runtimes.contains_key(alias) {
                        first.runtimes[alias]
                    } else {
                        fresh_runtime(now)
                    }),
                forall|alias: Seq<char>| #[trigger]
                    self@.sessions.contains_key(alias) <==> first.sessions.contains_key(alias)
                        || all.take(i as int).contains(alias),
                forall|alias: Seq<char>| #[trigger]
                    self@.sessions.contains_key(alias) ==> self@.sessions[alias] == (
                    if first.sessions.contains_key(alias) {
                        first.sessions[alias]
                    } else {
                        default_session()
                    }),
            decreases aliases@.len() - i,
        {
            proof {
                let longer = all.take(i + 1);
                let shorter = all.take(i as int);
                let added = aliases@[i as int]@;
                assert(longer =~= shorter.push(added));
                assert forall|alias: Seq<char>| #[trigger]
                    longer.contains(alias) <==> shorter.contains(alias) || alias == added by {
                    lemma_seq_contains_after_push(shorter, added, alias);
                }
                views_follow_changes(self.status.sessions.map(), self.runtimes.map(), added);
            }
            let ghost earlier = self@;
            let ghost added = aliases@[i as int]@;
            let alias = &aliases[i];
            if !self.runtimes.contains_key(alias.as_str()) {
                self.runtimes.insert(alias.clone(), Runtime::new(now));
            }
            if !self.status.sessions.contains_key(alias.as_str()) {
                self.status.sessions.insert(alias.clone(), default_session_status());
            }
            proof {
                assert(self@.runtimes == if earlier.runtimes.contains_key(added) {
                    earlier.runtimes
                } else {
                    earlier.runtimes.insert(added, fresh_runtime(now))
                });
                assert(self@.sessions == if earlier.sessions.contains_key(added) {
                    earlier.sessions
                } else {
                    earlier.sessions.insert(added, default_session())
                });
            }
            i += 1;
        }
        proof {
            assert(all.take(i as int) =~= all);
            assert(self@.runtimes =~= Map::new(
                |alias: Seq<char>| first.runtimes.contains_key(alias) || all.contains(alias),
                |alias: Seq<char>|
                    if first.runtimes.contains_key(alias) {
                        first.runtimes[alias]
                    } else {
                        fresh_runtime(now)
                    },
            ));
            assert(self@.sessions =~= Map::new(
                |alias: Seq<char>| first.sessions.contains_key(alias) || all.contains(alias),
                |alias: Seq<char>|
                    if first.sessions.contains_key(alias) {
                        first.sessions[alias]
                    } else {
                        default_session()
                    },
            ));
        }
    }

    /// The aliases of which something is known and that are not among `aliases`.
    fn list_gone(&self, aliases: &[String]) -> (r: Vec<String>)
        requires
            self.wf(),
        ensures
            texts(r@).no_duplicates(),
            forall|alias: Seq<char>| #[trigger]
                texts(r@).contains(alias) <==> self@.runtimes.contains_key(alias) && !texts(
                    aliases@,
                ).contains(alias),
    {
        let ghost entries = self.runtimes@;
        let mut r: Vec<String> = Vec::new();
        let mut i: usize = 0;
        while i < self.runtimes.len()
            invariant
                self.wf(),
                entries == self.runtimes@,
                i <= entries.len(),
                texts(r@).no_duplicates(),
                forall|alias: Seq<char>| #[trigger]
                    texts(r@).contains(alias) <==> !texts(aliases@).contains(alias) && exists|j: int|
                        0 <= j < i && (#[trigger] entries[j]).0 == alias,
            decreases entries.len() - i,
        {
            let key = self.runtimes.key_at(i);
            let ghost earlier = texts(r@);
            if !holds_text(aliases, key.as_str()) {
                r.push(key.clone());
                proof {
                    let later = texts(r@);
                    assert(later =~= earlier.push(key@));
                    assert forall|alias: Seq<char>| #[trigger]
                        later.contains(alias) <==> earlier.contains(alias) || alias == key@ by {
                        lemma_seq_contains_after_push(earlier, key@, alias);
                    }
                    assert(!earlier.contains(key@)) by {
                        if earlier.contains(key@) {
                            let j = choose|j: int|
                                0 <= j < i && (#[trigger] entries[j]).0 == key@;
                            before_is_irreflexive(key@);
                            assert(before(entries[j].0, entries[i as int].0));
                        }
                    }
                    assert forall|m: int, n: int|
                        0 <= m < later.len() && 0 <= n < later.len() && m != n implies later[m]
                        != later[n] by {
                        if m == earlier.len() {
                            assert(earlier.contains(later[n]));
                        } else if n == earlier.len() {
                            assert(earlier.contains(later[m]));
                        }
                    }
                }
            }
            i += 1;
        }
        proof {
            assert forall|alias: Seq<char>| #[trigger]
                texts(r@).contains(alias) <==> self@.runtimes.contains_key(alias) && !texts(
                    aliases@,
                ).contains(alias) by {
                assert(self@.runtimes.contains_key(alias) == self.runtimes.map().contains_key(
                    alias,
                ));
            }
        }
        r
    }

    /// Takes out all that is known of the sessions `aliases`.
    fn drop_sessions(&mut self, aliases: &Vec<String>)
        requires
            old(self).wf(),
        ensures
            final(self).wf(),
            final(self)@ == (DaemonView {
                runtimes: old(self)@.runtimes.remove_keys(texts(aliases@).to_set()),
                sessions: old(self)@.sessions.remove_keys(texts(aliases@).to_set()),
                dirty: old(self)@.dirty || aliases@.len() > 0,
                ..old(self)@
            }),
    {
        let ghost first = self@;
        let ghost all = texts(aliases@);
        let mut i: usize = 0;
        proof {
            assert(all.take(0).to_set() =~= Set::empty());
            assert(self@.runtimes =~= first.runtimes.remove_keys(all.take(0).to_set()));
            assert(self@.sessions =~= first.sessions.remove_keys(all.take(0).to_set()));
        }
        while i < aliases.len()
            invariant
                self.wf(),
                i <= aliases@.len(),
                all == texts(aliases@),
                self@ == (DaemonView {
                    runtimes: first.runtimes.remove_keys(all.take(i as int).to_set()),
                    sessions: first.sessions.remove_keys(all.take(i as int).to_set()),
                    dirty: first.dirty || i > 0,
                    ..first
                }),
            decreases aliases@.len() - i,
        {
            let ghost removed = aliases@[i as int]@;
            proof {
                views_follow_changes(self.status.sessions.map(), self.runtimes.map(), removed);
                let shorter = all.take(i as int);
                let longer = all.take(i + 1);
                assert(longer =~= shorter.push(removed));
                assert(longer.to_set() =~= shorter.to_set().insert(removed)) by {
                    assert forall|alias: Seq<char>| #[trigger]
                        longer.contains(alias) <==> shorter.contains(alias) || alias == removed by {
                        lemma_seq_contains_after_push(shorter, removed, alias);
                    }
                }
                assert(first.runtimes.remove_keys(shorter.to_set()).remove(removed)
                    =~= first.runtimes.remove_keys(longer.to_set()));
                assert(first.sessions.remove_keys(shorter.to_set()).remove(removed)
                    =~= first.sessions.remove_keys(longer.to_set()));
            }
            let _ = self.runtimes.remove(aliases[i].as_str());
            let _ = self.status.sessions.remove(aliases[i].as_str());
            self.dirty = true;
            i += 1;
        }
        proof {
            assert(all.take(i as int) =~= all);
        }
    }

    /// Takes over which sessions there are, and returns the aliases of those that are gone: their
    /// servers are to be stopped.
    pub fn sync_aliases(&mut self, aliases: &[String], now: u128) -> (dropped: Vec<String>)
        requires
            old(self).wf(),
        ensures
            final(self).wf(),
            final(self)@ == synced(old(self)@, texts(aliases@).to_set(), now),
            texts(dropped@).no_duplicates(),
            texts(dropped@).to_set() == gone(old(self)@, texts(aliases@).to_set()),
    {
        let ghost first = self@;
        let ghost known = texts(aliases@).to_set();
        self.add_sessions(aliases, now);
        let dropped = self.list_gone(aliases);
        let ghost out = texts(dropped@);
        proof {
            assert(out.to_set() =~= gone(first, known));
            if dropped@.len() > 0 {
                assert(out.contains(out[0]));
                assert(gone(first, known).contains(out[0]));
            }
            if exists|alias: Seq<char>| gone(first, known).contains(alias) {
                let alias = choose|alias: Seq<char>| gone(first, known).contains(alias);
                assert(out.contains(alias));
            }
        }
        let ghost middle = self@;
        self.drop_sessions(&dropped);
        proof {
            let wanted = synced(first, known, now);
            assert(self@.runtimes =~= wanted.runtimes);
            assert(self@.sessions =~= wanted.sessions);
        }
        dropped
    }

    /// Whether `step` can be called.
    pub fn check_event(&self, alias: &str, event: &Event) -> (r: bool)
        requires
            self.wf(),
        ensures
            r == event_in_range(self@, alias@, event@),
    {
        match (self.runtimes.get(alias), self.status.sessions.get(alias)) {
            (Some(rt), Some(sess)) => match event {
                Event::Message(msg) => check_message(sess, msg),
                Event::Failed => rt.restart_count < i64::MAX,
                Event::Probed(Some(msg)) => match extract_rate_limits(msg) {
                    Some(limits) => check_limits(limits),
                    None => true,
                },
                _ => true,
            },
            _ => true,
        }
    }

    /// Takes over what happened to the session `alias`. Rate limits that this brings are then not
    /// stale, and the time of a probe is always noted.
    pub fn step(&mut self, alias: &str, event: &Event, now: u128, clock: Timestamp)
        requires
            old(self).wf(),
            now <= CLOCK_LIMIT,
            clock.wf(),
            event_in_range(old(self)@, alias@, event@),
        ensures
            final(self).wf(),
            final(self)@ == stepped(old(self)@, alias@, event@, now, clock),
            supervised(old(self)@, alias@) && event@ is Probed
                ==> final(self)@.sessions[alias@].last_probe_at.len() > 0,
            supervised(old(self)@, alias@) && limits_of(event@) is Some && reads_back(clock)
                ==> age_at(final(self)@.sessions[alias@].last_rate_limit_update_at, clock) == Some(
                0int,
            ),
    {
        if !self.runtimes.contains_key(alias) || !self.status.sessions.contains_key(alias) {
            return ;
        }
        let ghost first = self@;
        let ghost rt_first = first.runtimes[alias@];
        let ghost sess_first = first.sessions[alias@];
        proof {
            views_follow_changes(self.status.sessions.map(), self.runtimes.map(), alias@);
        }
        let settings = self.settings;
        let mut rt = match self.runtimes.remove(alias) {
            Some(rt) => rt,
            None => {
                return ;
            },
        };
        let mut sess = match self.status.sessions.remove(alias) {
            Some(sess) => sess,
            None => {
                return ;
            },
        };
        match event {
            Event::Round => {
                refresh_health(&mut rt, &mut sess, now);
            },
            Event::Message(msg) => {
                handle_message_at(&mut sess, msg, clock);
                self.dirty = true;
            },
            Event::Failed => {
                rt.managed = false;
                record_failure_at(&mut rt, &mut sess, now, settings.max_restarts_5m, clock.nanos);
                self.dirty = true;
            },
            Event::Started(pid) => {
                note_started(&mut rt, &mut sess, *pid, now);
                rt.next_refresh_at = now + settings.refresh_cooldown_sec as u128 * SECOND_NS;
                self.dirty = true;
            },
            Event::Probed(Some(msg)) => {
                note_probe(&mut sess, extract_rate_limits(msg), clock);
                self.dirty = true;
            },
            Event::Probed(None) => {
                note_probe(&mut sess, None, clock);
                self.dirty = true;
            },
            Event::Asked => {
                rt.next_refresh_at = now + settings.refresh_cooldown_sec as u128 * SECOND_NS;
            },
        }
        proof {
            views_follow_changes(self.status.sessions.map(), self.runtimes.map(), alias@);
        }
        self.runtimes.insert(alias.to_string(), rt);
        self.status.sessions.insert(alias.to_string(), sess);
        proof {
            let wanted = stepped(first, alias@, event@, now, clock);
            assert(self@.runtimes =~= wanted.runtimes);
            assert(self@.sessions =~= wanted.sessions);
        }
    }

    /// Whether the server of the session `alias` is to be started.
    pub fn needs_start(&self, alias: &str, now: u128) -> (r: bool)
        requires
            self.wf(),
        ensures
            r == (supervised(self@, alias@) && start_due(
                self@.runtimes[alias@],
                self@.sessions[alias@],
                now,
            )),
    {
        match (self.runtimes.get(alias), self.status.sessions.get(alias)) {
            (Some(rt), Some(sess)) => wants_start(rt, sess, now),
            _ => false,
        }
    }

    /// Whether the server of the session `alias` is to be asked for its rate limits anew.
    pub fn needs_refresh(&self, alias: &str, now: u128, clock: Timestamp) -> (r: bool)
        requires
            self.wf(),
            clock.wf(),
        ensures
            r == (supervised(self@, alias@) && refresh_due(
                self@.runtimes[alias@],
                self@.sessions[alias@].last_rate_limit_update_at,
                now,
                clock,
                self@.settings.stale_sec,
                self@.settings.refresh_lead_sec,
            )),
    {
        match (self.runtimes.get(alias), self.status.sessions.get(alias)) {
            (Some(rt), Some(sess)) => wants_refresh(
                rt,
                sess,
                now,
                clock,
                self.settings.stale_sec,
                self.settings.refresh_lead_sec,
            ),
            _ => false,
        }
    }

    /// Whether a round of probes is due.
    pub fn probes_due(&self, now: u128) -> (r: bool)
        ensures
            r == (now >= self@.next_probe),
    {
        now >= self.next_probe
    }

    /// Whether the session `alias` is to be probed in a round of probes: its server does not run.
    pub fn needs_probe(&self, alias: &str) -> (r: bool)
        requires
            self.wf(),
        ensures
            r == !(self@.runtimes.contains_key(alias@) && self@.runtimes[alias@].managed),
    {
        match self.runtimes.get(alias) {
            Some(rt) => !rt.managed,
            None => true,
        }
    }

    /// Notes that a round of probes began at `now`.
    pub fn note_probes(&mut self, now: u128)
        requires
            old(self).wf(),
            now <= CLOCK_LIMIT,
        ensures
            final(self).wf(),
            final(self)@ == (DaemonView {
                next_probe: now + old(self)@.settings.probe_interval_sec * SECOND_NS,
                ..old(self)@
            }),
    {
        self.next_probe = now + self.settings.probe_interval_sec as u128 * SECOND_NS;
    }

    /// Ends a round: the status is stamped with the time and the process.
    pub fn end_round(&mut self, clock: Timestamp)
        requires
            old(self).wf(),
            clock.wf(),
        ensures
            final(self).wf(),
            final(self)@ == (DaemonView {
                updated_at: clock_text(clock),
                daemon_pid: old(self)@.pid,
                ..old(self)@
            }),
    {
        self.status.updated_at = format_ts(clock);
        self.status.daemon.pid = self.pid;
    }

    /// Whether the status is to be written: there is news, and the last time is long enough ago.
    pub fn flush_due(&self, now: u128) -> (r: bool)
        ensures
            r == (self@.dirty && now >= self@.next_flush),
    {
        self.dirty && now >= self.next_flush
    }

    /// Notes that the status was written at `now`.
    pub fn note_flush(&mut self, now: u128)
        requires
            old(self).wf(),
            now <= CLOCK_LIMIT,
        ensures
            final(self).wf(),
            final(self)@ == flushed(old(self)@, now),
    {
        self.next_flush = now + self.settings.flush_interval_sec as u128 * SECOND_NS;
        self.dirty = false;
    }
}

// ---------------------------------------------------------------------------
// Laws
// ---------------------------------------------------------------------------
/// Once it was seen which sessions there are, exactly those are under supervision, and what was
/// known of them is kept.
pub proof fn exactly_the_sessions_are_supervised(d: DaemonView, known: Set<Seq<char>>, now: u128)
    ensures
        synced(d, known, now).runtimes.dom() == known,
        forall|alias: Seq<char>| #[trigger]
            known.contains(alias) ==> supervised(synced(d, known, now), alias),
        forall|alias: Seq<char>| #[trigger]
            known.contains(alias) && d.runtimes.contains_key(alias) ==> synced(
                d,
                known,
                now,
            ).runtimes[alias] == d.runtimes[alias],
        forall|alias: Seq<char>| #[trigger]
            known.contains(alias) && d.sessions.contains_key(alias) ==> synced(
                d,
                known,
                now,
            ).sessions[alias] == d.sessions[alias],
{
    assert(synced(d, known, now).runtimes.dom() =~= known);
}

/// To see again that the sessions are the same changes nothing.
pub proof fn seeing_the_same_sessions_changes_nothing(
    d: DaemonView,
    known: Set<Seq<char>>,
    now: u128,
    later: u128,
)
    ensures
        synced(synced(d, known, now), known, later) == synced(d, known, now),
{
    let once = synced(d, known, now);
    let twice = synced(once, known, later);
    assert(gone(once, known) =~= Set::empty());
    assert(twice.runtimes =~= once.runtimes);
    assert(twice.sessions =~= once.sessions);
}

/// What happens to one session changes nothing of the others, and news is never forgotten.
pub proof fn events_touch_one_session(
    d: DaemonView,
    alias: Seq<char>,
    event: EventView,
    now: u128,
    clock: Timestamp,
)
    ensures
        ({
            let after = stepped(d, alias, event, now, clock);
            &&& after.runtimes.dom() == d.runtimes.dom()
            &&& after.sessions.dom() == d.sessions.dom()
            &&& forall|other: Seq<char>|
                #![trigger after.runtimes[other]]
                other != alias && d.runtimes.contains_key(other) ==> after.runtimes[other]
                    == d.runtimes[other]
            &&& forall|other: Seq<char>|
                #![trigger after.sessions[other]]
                other != alias && d.sessions.contains_key(other) ==> after.sessions[other]
                    == d.sessions[other]
            &&& d.dirty ==> after.dirty
        }),
{
    let after = stepped(d, alias, event, now, clock);
    assert(after.runtimes.dom() =~= d.runtimes.dom());
    assert(after.sessions.dom() =~= d.sessions.dom());
}

/// Whether the status shows each server that runs: as running, and with its restarts.
pub open spec fn shown(d: DaemonView) -> bool {
    forall|alias: Seq<char>| #[trigger]
        d.runtimes.contains_key(alias) && d.runtimes[alias].managed ==> {
            &&& d.sessions.contains_key(alias)
            &&& d.sessions[alias].server_state == "running"@
            &&& d.sessions[alias].restart_count == d.runtimes[alias].restart_count
        }
}

/// The status shows each server that runs, from the start on and whatever happens.
pub proof fn running_servers_are_shown(
    d: DaemonView,
    pid: i32,
    sessions: Map<Seq<char>, SessionView>,
    settings: DaemonSettings,
    known: Set<Seq<char>>,
    alias: Seq<char>,
    event: EventView,
    now: u128,
    clock: Timestamp,
)
    ensures
        shown(started_daemon(pid, sessions, now, clock, settings)),
        shown(d) ==> shown(synced(d, known, now)),
        shown(d) ==> shown(stepped(d, alias, event, now, clock)),
{
    if shown(d) {
        let after = synced(d, known, now);
        assert forall|other: Seq<char>| #[trigger]
            after.runtimes.contains_key(other) && after.runtimes[other].managed implies {
            &&& after.sessions.contains_key(other)
            &&& after.sessions[other].server_state == "running"@
            &&& after.sessions[other].restart_count == after.runtimes[other].restart_count
        } by {
            assert(d.runtimes.contains_key(other));
        }
        let next = stepped(d, alias, event, now, clock);
        assert forall|other: Seq<char>| #[trigger]
            next.runtimes.contains_key(other) && next.runtimes[other].managed implies {
            &&& next.sessions.contains_key(other)
            &&& next.sessions[other].server_state == "running"@
            &&& next.sessions[other].restart_count == next.runtimes[other].restart_count
        } by {
            assert(d.runtimes.contains_key(other));
        }
    }
}

/// A server that was started is not started again before it fails, whatever else happens.
pub proof fn a_running_server_is_not_started_again(
    d: DaemonView,
    alias: Seq<char>,
    event: EventView,
    now: u128,
    later: u128,
    clock: Timestamp,
)
    requires
        supervised(d, alias),
        d.runtimes[alias].managed || event is Started,
        !(event is Failed),
    ensures
        stepped(d, alias, event, now, clock).runtimes[alias].managed,
        !start_due(
            stepped(d, alias, event, now, clock).runtimes[alias],
            stepped(d, alias, event, now, clock).sessions[alias],
            later,
        ),
{
}

/// What is said of the supervisor is said of its fields, each by its own name, and of all its
/// sessions.
pub proof fn the_view_of_a_supervisor_is_its_fields(d: Daemon)
    ensures
        d@.pid == d.pid,
        d@.version == d.status.version,
        d@.updated_at == d.status.updated_at@,
        d@.daemon_pid == d.status.daemon.pid,
        d@.started_at == d.status.daemon.started_at@,
        d@.dirty == d.dirty,
        d@.next_probe == d.next_probe,
        d@.next_flush == d.next_flush,
        d@.settings == d.settings,
        d@.sessions.dom() == d.status.sessions.map().dom(),
        d@.runtimes.dom() == d.runtimes.map().dom(),
        forall|alias: Seq<char>| #[trigger]
            d@.sessions.contains_key(alias) ==> d@.sessions[alias]
                == d.status.sessions.map()[alias]@,
        forall|alias: Seq<char>| #[trigger]
            d@.runtimes.contains_key(alias) ==> d@.runtimes[alias] == d.runtimes.map()[alias]@,
{
}

/// Every event is what it says, with its message; a probe counts by the rate limits in what it
/// brought.
pub proof fn the_view_of_an_event_is_the_event(event: Event)
    ensures
        event is Round <==> event@ is Round,
        event is Failed <==> event@ is Failed,
        event is Asked <==> event@ is Asked,
        event is Message <==> event@ is Message,
        event is Started <==> event@ is Started,
        event is Probed <==> event@ is Probed,
        event is Message ==> event@->Message_0 == event->Message_0@,
        event is Started ==> event@->Started_0 == event->Started_0,
        event is Probed && event->Probed_0 is None ==> event@->Probed_0 is None,
        event is Probed && event->Probed_0 is Some && event->Probed_0->0@.nested(
            "result"@,
            "rateLimits"@,
        ) is Some && event->Probed_0->0@.text_field("method"@) is None ==> event@->Probed_0
            == event->Probed_0->0@.nested("result"@, "rateLimits"@),
        event is Probed && event->Probed_0 is Some && event->Probed_0->0@.nested(
            "result"@,
            "rateLimits"@,
        ) is None && event->Probed_0->0@.nested("params"@, "rateLimits"@) is None
            ==> event@->Probed_0 is None,
{
}

/// Whatever a server sends or a probe finds, a failure and a start are news that wait to be written.
/// So nothing but the beginning of a round changes what is shown of a session without making news,
/// and the beginning of a round and a question make none.
pub proof fn what_changes_a_session_is_news(
    d: DaemonView,
    alias: Seq<char>,
    event: EventView,
    now: u128,
    clock: Timestamp,
)
    requires
        supervised(d, alias),
    ensures
        ({
            let after = stepped(d, alias, event, now, clock);
            &&& event is Message ==> after.dirty
            &&& event is Probed ==> after.dirty
            &&& event is Failed ==> after.dirty
            &&& event is Started ==> after.dirty
            &&& after.sessions[alias] != d.sessions[alias] ==> after.dirty || event is Round
            &&& event is Round || event is Asked ==> after.dirty == d.dirty
        }),
{
}

/// Events change the sessions and whether there is news, and nothing else; of a session that is not
/// supervised they change nothing at all.
pub proof fn events_leave_the_clocks(
    d: DaemonView,
    alias: Seq<char>,
    event: EventView,
    now: u128,
    clock: Timestamp,
)
    ensures
        ({
            let after = stepped(d, alias, event, now, clock);
            &&& after.pid == d.pid
            &&& after.version == d.version
            &&& after.updated_at == d.updated_at
            &&& after.daemon_pid == d.daemon_pid
            &&& after.started_at == d.started_at
            &&& after.next_probe == d.next_probe
            &&& after.next_flush == d.next_flush
            &&& after.settings == d.settings
            &&& !(d.runtimes.contains_key(alias) && d.sessions.contains_key(alias)) ==> after == d
        }),
{
}

/// A message changes what is shown of its session as the message says, at the time that the clock
/// shows, and nothing of how its server is run.
pub proof fn messages_reach_their_session(
    d: DaemonView,
    alias: Seq<char>,
    msg: Tree,
    now: u128,
    clock: Timestamp,
)
    requires
        supervised(d, alias),
    ensures
        ({
            let after = stepped(d, alias, EventView::Message(msg), now, clock);
            &&& after.sessions[alias] == after_message(
                d.sessions[alias],
                msg,
                rfc3339_text(clock.secs, clock.nanos),
            )
            &&& after.runtimes[alias] == d.runtimes[alias]
        }),
{
}

/// A probe changes what is shown of its session by what it brought, at the time that the clock
/// shows, and nothing of how its server is run.
pub proof fn probes_reach_their_session(
    d: DaemonView,
    alias: Seq<char>,
    limits: Option<Tree>,
    now: u128,
    clock: Timestamp,
)
    requires
        supervised(d, alias),
    ensures
        ({
            let after = stepped(d, alias, EventView::Probed(limits), now, clock);
            &&& after.sessions[alias] == after_probe(
                d.sessions[alias],
                limits,
                rfc3339_text(clock.secs, clock.nanos),
            )
            &&& after.runtimes[alias] == d.runtimes[alias]
        }),
{
}

/// A server that failed is no longer managed and counts one restart more, as its session shows; its
/// time is kept among the failures, and it is started again only after a wait of at least a second.
pub proof fn a_failed_server_is_given_up(
    d: DaemonView,
    alias: Seq<char>,
    now: u128,
    clock: Timestamp,
)
    requires
        supervised(d, alias),
    ensures
        ({
            let after = stepped(d, alias, EventView::Failed, now, clock);
            let rt = after.runtimes[alias];
            let sess = after.sessions[alias];
            &&& !rt.managed
            &&& rt.restart_count == d.runtimes[alias].restart_count + 1
            &&& sess.restart_count == rt.restart_count
            &&& sess.server_state == "stopped"@
            &&& sess.server_pid == 0
            &&& rt.next_restart_at == now + restart_delay(
                d.runtimes[alias].restart_attempt,
                clock.nanos as int,
            )
            &&& rt.restart_times == in_window(d.runtimes[alias].restart_times.push(now), now)
            &&& rt.next_refresh_at == d.runtimes[alias].next_refresh_at
            &&& rt.restart_times.len() > d.settings.max_restarts_5m ==> sess.health
                == "unhealthy"@ && rt.unhealthy_until == Some((now + 300_000_000_000) as u128)
            &&& rt.restart_times.len() <= d.settings.max_restarts_5m ==> sess.health
                == d.sessions[alias].health && rt.unhealthy_until
                == d.runtimes[alias].unhealthy_until
            &&& sess.primary == d.sessions[alias].primary
            &&& sess.secondary == d.sessions[alias].secondary
            &&& sess.active_turns == d.sessions[alias].active_turns
            &&& sess.last_rate_limit_update_at == d.sessions[alias].last_rate_limit_update_at
        }),
{
}

/// A server that was started is managed, shown as running with its number, and is not asked for its
/// rate limits again before the pause for that is over.
pub proof fn a_started_server_is_managed(
    d: DaemonView,
    alias: Seq<char>,
    pid: i32,
    now: u128,
    clock: Timestamp,
)
    requires
        supervised(d, alias),
    ensures
        ({
            let after = stepped(d, alias, EventView::Started(pid), now, clock);
            let rt = after.runtimes[alias];
            &&& rt == (RuntimeView {
                managed: true,
                restart_attempt: 0,
                next_restart_at: now as int,
                next_refresh_at: now + d.settings.refresh_cooldown_sec * 1_000_000_000,
                ..d.runtimes[alias]
            })
            &&& after.sessions[alias] == (SessionView {
                server_state: "running"@,
                server_pid: pid as int,
                restart_count: d.runtimes[alias].restart_count,
                ..d.sessions[alias]
            })
        }),
{
}

/// A question for the rate limits puts the next one off by the pause for that, and changes nothing
/// else.
pub proof fn a_question_puts_off_the_next(
    d: DaemonView,
    alias: Seq<char>,
    now: u128,
    clock: Timestamp,
)
    requires
        supervised(d, alias),
    ensures
        ({
            let after = stepped(d, alias, EventView::Asked, now, clock);
            &&& after.runtimes[alias] == (RuntimeView {
                next_refresh_at: now + d.settings.refresh_cooldown_sec * 1_000_000_000,
                ..d.runtimes[alias]
            })
            &&& after.sessions[alias] == d.sessions[alias]
        }),
{
}

/// At the beginning of a round, a session whose rest is over is healthy again, one that still rests
/// is unhealthy, and any other is left as it is.
pub proof fn rounds_end_rests(
    d: DaemonView,
    alias: Seq<char>,
    until: u128,
    now: u128,
    clock: Timestamp,
)
    requires
        supervised(d, alias),
    ensures
        ({
            let after = stepped(d, alias, EventView::Round, now, clock);
            let rt = d.runtimes[alias];
            let sess = d.sessions[alias];
            &&& rt.unhealthy_until is None ==> after.runtimes[alias] == rt
                && after.sessions[alias] == sess
            &&& rt.unhealthy_until == Some(until) && now < until ==> after.runtimes[alias] == rt
                && after.sessions[alias] == (SessionView { health: "unhealthy"@, ..sess })
            &&& rt.unhealthy_until == Some(until) && now >= until ==> after.runtimes[alias] == (
            RuntimeView { unhealthy_until: None, ..rt }) && after.sessions[alias] == (SessionView {
                health: "healthy"@,
                ..sess
            })
        }),
{
}

/// A session that is seen for the first time starts afresh. One that was supervised and is no longer
/// there is forgotten, which is news. What is shown of a session that was not supervised stays, and
/// so does everything else.
pub proof fn sessions_come_and_go(
    d: DaemonView,
    known: Set<Seq<char>>,
    alias: Seq<char>,
    now: u128,
)
    ensures
        ({
            let after = synced(d, known, now);
            &&& known.contains(alias) && !d.runtimes.contains_key(alias) ==> after.runtimes[alias]
                == fresh_runtime(now)
            &&& known.contains(alias) && !d.sessions.contains_key(alias) ==> after.sessions[alias]
                == default_session()
            &&& d.runtimes.contains_key(alias) && !known.contains(alias) ==> {
                &&& !after.runtimes.contains_key(alias)
                &&& !after.sessions.contains_key(alias)
                &&& after.dirty
            }
            &&& d.sessions.contains_key(alias) && !d.runtimes.contains_key(alias) ==> {
                &&& after.sessions.contains_key(alias)
                &&& after.sessions[alias] == d.sessions[alias]
            }
            &&& !d.sessions.contains_key(alias) && !known.contains(alias)
                ==> !after.sessions.contains_key(alias)
            &&& d.dirty ==> after.dirty
            &&& d.runtimes.dom().subset_of(known) ==> after.dirty == d.dirty
            &&& after.pid == d.pid
            &&& after.version == d.version
            &&& after.updated_at == d.updated_at
            &&& after.daemon_pid == d.daemon_pid
            &&& after.started_at == d.started_at
            &&& after.next_probe == d.next_probe
            &&& after.next_flush == d.next_flush
            &&& after.settings == d.settings
        }),
{
    if d.runtimes.contains_key(alias) && !known.contains(alias) {
        assert(gone(d, known).contains(alias));
    }
}

/// A supervisor that starts shows its number and the time of its start, keeps what was shown of the
/// sessions, supervises none yet, has no news, and probes and writes as soon as it can.
pub proof fn a_supervisor_starts_with_what_was_shown(
    pid: i32,
    sessions: Map<Seq<char>, SessionView>,
    now: u128,
    clock: Timestamp,
    settings: DaemonSettings,
    alias: Seq<char>,
)
    ensures
        ({
            let d = started_daemon(pid, sessions, now, clock, settings);
            &&& d.pid == pid
            &&& d.daemon_pid == pid
            &&& d.version == 1
            &&& d.updated_at == rfc3339_text(clock.secs, clock.nanos)
            &&& d.started_at == rfc3339_text(clock.secs, clock.nanos)
            &&& d.sessions == sessions
            &&& !d.runtimes.contains_key(alias)
            &&& !d.dirty
            &&& d.next_probe == now
            &&& d.next_flush == now
            &&& d.settings == settings
        }),
{
}

/// Once the status was written there is no news, and it is written again only after its interval;
/// nothing else changes.
pub proof fn the_status_is_written_once(d: DaemonView, now: u128)
    ensures
        !flushed(d, now).dirty,
        flushed(d, now).next_flush == now + d.settings.flush_interval_sec * 1_000_000_000,
        flushed(d, now) == (DaemonView {
            dirty: false,
            next_flush: flushed(d, now).next_flush,
            ..d
        }),
{
}

/// Each setting of the supervisor comes from its own variable, where that is a number, and has its
/// own default where it is not set; the limit for stale rate limits is the one that is given.
pub proof fn every_setting_has_its_variable(
    variables: DaemonVariables<'_>,
    stale_sec: i64,
    value: &str,
    n: int,
)
    ensures
        settings_of(variables, stale_sec).stale_sec == stale_sec,
        variables.probe_interval_sec is None ==> settings_of(variables, stale_sec).probe_interval_sec == 300,
        variables.probe_interval_sec == Some(value) && numeral(value@) == Some(n) && n <= 18446744073709551615 ==> settings_of(
            variables,
            stale_sec,
        ).probe_interval_sec == n,
        variables.probe_interval_sec == Some(value) && value@.len() == 0 ==> settings_of(
            variables,
            stale_sec,
        ).probe_interval_sec == 300,
        variables.probe_lifetime_sec is None ==> settings_of(variables, stale_sec).probe_lifetime_sec == 10,
        variables.probe_lifetime_sec == Some(value) && numeral(value@) == Some(n) && n <= 18446744073709551615 ==> settings_of(
            variables,
            stale_sec,
        ).probe_lifetime_sec == n,
        variables.probe_lifetime_sec == Some(value) && value@.len() == 0 ==> settings_of(
            variables,
            stale_sec,
        ).probe_lifetime_sec == 10,
        variables.flush_interval_sec is None ==> settings_of(variables, stale_sec).flush_interval_sec == 2,
        variables.flush_interval_sec == Some(value) && numeral(value@) == Some(n) && n <= 18446744073709551615 ==> settings_of(
            variables,
            stale_sec,
        ).flush_interval_sec == n,
        variables.flush_interval_sec == Some(value) && value@.len() == 0 ==> settings_of(
            variables,
            stale_sec,
        ).flush_interval_sec == 2,
        variables.max_restarts_5m is None ==> settings_of(variables, stale_sec).max_restarts_5m == 10,
        variables.max_restarts_5m == Some(value) && numeral(value@) == Some(n) && n <= 4294967295 ==> settings_of(
            variables,
            stale_sec,
        ).max_restarts_5m == n,
        variables.max_restarts_5m == Some(value) && value@.len() == 0 ==> settings_of(
            variables,
            stale_sec,
        ).max_restarts_5m == 10,
        variables.refresh_lead_sec is None ==> settings_of(variables, stale_sec).refresh_lead_sec == 60,
        variables.refresh_lead_sec == Some(value) && numeral(value@) == Some(n) && n <= 18446744073709551615 ==> settings_of(
            variables,
            stale_sec,
        ).refresh_lead_sec == n,
        variables.refresh_lead_sec == Some(value) && value@.len() == 0 ==> settings_of(
            variables,
            stale_sec,
        ).refresh_lead_sec == 60,
        variables.refresh_cooldown_sec is None ==> settings_of(variables, stale_sec).refresh_cooldown_sec == 30,
        variables.refresh_cooldown_sec == Some(value) && numeral(value@) == Some(n) && n <= 18446744073709551615 ==> settings_of(
            variables,
            stale_sec,
        ).refresh_cooldown_sec == n,
        variables.refresh_cooldown_sec == Some(value) && value@.len() == 0 ==> settings_of(
            variables,
            stale_sec,
        ).refresh_cooldown_sec == 30,
{
    if numeral(value@) is Some {
        numbers_count_and_all_else_is_the_default(value, u64::MAX as int, 0, n);
        assert(crate::numbers::is_digit(value@[0]));
        crate::numbers::digits_value_is_natural(value@);
    }
}

/// An event is in range where its numbers can be counted on, and so is every event of a session that
/// is not supervised.
pub proof fn everyday_events_are_in_range(d: DaemonView, alias: Seq<char>, event: EventView)
    ensures
        !supervised(d, alias) ==> event_in_range(d, alias, event),
        event is Round || event is Started || event is Asked ==> event_in_range(d, alias, event),
        event is Failed && d.runtimes[alias].restart_count < 9_223_372_036_854_775_807
            ==> event_in_range(d, alias, event),
        event is Probed && event->Probed_0 is None ==> event_in_range(d, alias, event),
        event is Probed && event->Probed_0 is Some && limits_in_range(event->Probed_0->0)
            ==> event_in_range(d, alias, event),
        event is Message && message_in_range(d.sessions[alias], event->Message_0)
            ==> event_in_range(d, alias, event),
{
}

/// What is gone was supervised and is no longer there; what is there is not gone.
pub proof fn what_is_gone_was_there(d: DaemonView, known: Set<Seq<char>>, alias: Seq<char>)
    ensures
        gone(d, known).contains(alias) <==> d.runtimes.contains_key(alias) && !known.contains(
            alias,
        ),
{
}

} // verus!
