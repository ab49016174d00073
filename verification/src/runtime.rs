//! One session under supervision: how its server is restarted, and what its messages change.
use vstd::prelude::*;

use std::collections::VecDeque;

use crate::json::{json_quoted, quote_json, Json, Tree};
use crate::status::{age_at, age_of, check_window, known_age, left_of, limits_age, smaller};
use crate::status::{usage_left, usage_left_is_weighted_as_configured, ScoringConfig};
use crate::status::{window_in_range, window_left};
use crate::status::{Activity, AppServerStatus, RateLimits, RateWindow, SessionStatus, SessionView};
use crate::text::same_text;
use crate::time::{clock_can_show, clock_nanos, clock_now, format_ts, instant_of};
use crate::time::{rfc3339_text, seconds_between, Timestamp};

verus! {

// Times on a clock that only runs forward are counted in nanoseconds.

/// The nanoseconds of a second.
pub const SECOND_NS: u128 = 1_000_000_000;

/// The nanoseconds of a millisecond.
pub const MILLISECOND_NS: u128 = 1_000_000;

/// The last time that a clock can show.
pub const CLOCK_LIMIT: u128 = 18_446_744_073_709_551_615_999_999_999;

/// For how long restarts are counted, and for how long a session stays unhealthy after too many.
pub const RESTART_WINDOW_NS: u128 = 300_000_000_000;

/// The usage that is left to a session of which no rate limit is known.
pub const UNKNOWN_USAGE_LEFT: i64 = 30;

// ---------------------------------------------------------------------------
// Restarts
// ---------------------------------------------------------------------------
/// What is known of the server of a session.
#[derive(Debug)]
pub struct Runtime {
    pub managed: bool,
    pub restart_count: i64,
    pub restart_attempt: usize,
    pub restart_times_5m: VecDeque<u128>,
    pub next_restart_at: u128,
    pub unhealthy_until: Option<u128>,
    pub next_refresh_at: u128,
}

pub struct RuntimeView {
    pub managed: bool,
    pub restart_count: int,
    pub restart_attempt: int,
    pub restart_times: Seq<u128>,
    pub next_restart_at: int,
    pub unhealthy_until: Option<u128>,
    pub next_refresh_at: int,
}

impl View for Runtime {
    type V = RuntimeView;

    open spec fn view(&self) -> RuntimeView {
        RuntimeView {
            managed: self.managed,
            restart_count: self.restart_count as int,
            restart_attempt: self.restart_attempt as int,
            restart_times: self.restart_times_5m@,
            next_restart_at: self.next_restart_at as int,
            unhealthy_until: self.unhealthy_until,
            next_refresh_at: self.next_refresh_at as int,
        }
    }
}

/// A session that is seen for the first time at `now`.
pub open spec fn fresh_runtime(now: u128) -> RuntimeView {
    RuntimeView {
        managed: false,
        restart_count: 0,
        restart_attempt: 0,
        restart_times: seq![],
        next_restart_at: now as int,
        unhealthy_until: None,
        next_refresh_at: now as int,
    }
}

/// The seconds to wait after so many failed attempts in a row.
pub open spec fn backoff(attempt: int) -> int {
    if attempt <= 0 {
        1
    } else if attempt == 1 {
        2
    } else if attempt == 2 {
        4
    } else if attempt == 3 {
        8
    } else if attempt == 4 {
        16
    } else if attempt == 5 {
        30
    } else {
        60
    }
}

/// The wait before the next restart, in nanoseconds: the backoff, and a jitter below 300
/// milliseconds that the nanoseconds `nanos` of the clock give.
pub open spec fn restart_delay(attempt: int, nanos: int) -> int {
    backoff(attempt) * SECOND_NS + (nanos % 300) * MILLISECOND_NS
}

/// `rt` with its next restart put off.
pub open spec fn rescheduled(rt: RuntimeView, now: u128, nanos: int) -> RuntimeView {
    RuntimeView {
        restart_attempt: smaller(rt.restart_attempt + 1, usize::MAX as int),
        next_restart_at: now + restart_delay(rt.restart_attempt, nanos),
        ..rt
    }
}

/// `times` without those at the front that lie more than the window before `now`.
pub open spec fn in_window(times: Seq<u128>, now: u128) -> Seq<u128>
    decreases times.len(),
{
    if times.len() > 0 && now - times[0] > RESTART_WINDOW_NS {
        in_window(times.skip(1), now)
    } else {
        times
    }
}

/// Whether `times`, with a failure at `now`, are more than `most` in the window.
pub open spec fn too_many(times: Seq<u128>, now: u128, most: int) -> bool {
    in_window(times.push(now), now).len() > most
}

/// `rt` after its server failed at `now`.
pub open spec fn failed_runtime(
    rt: RuntimeView,
    now: u128,
    nanos: int,
    most: int,
) -> RuntimeView {
    rescheduled(
        RuntimeView {
            restart_count: rt.restart_count + 1,
            restart_times: in_window(rt.restart_times.push(now), now),
            unhealthy_until: if too_many(rt.restart_times, now, most) {
                Some((now + RESTART_WINDOW_NS) as u128)
            } else {
                rt.unhealthy_until
            },
            ..rt
        },
        now,
        nanos,
    )
}

/// `sess` after its server `rt` failed at `now`.
pub open spec fn failed_session(
    sess: SessionView,
    rt: RuntimeView,
    now: u128,
    most: int,
) -> SessionView {
    SessionView {
        restart_count: rt.restart_count + 1,
        server_state: "stopped"@,
        server_pid: 0,
        health: if too_many(rt.restart_times, now, most) {
            "unhealthy"@
        } else {
            sess.health
        },
        ..sess
    }
}

impl Runtime {
    /// A session that is seen for the first time.
    pub fn new(now: u128) -> (rt: Self)
        ensures
            rt@ == fresh_runtime(now),
    {
        Runtime {
            managed: false,
            restart_count: 0,
            restart_attempt: 0,
            restart_times_5m: VecDeque::new(),
            next_restart_at: now,
            unhealthy_until: None,
            next_refresh_at: now,
        }
    }
}

/// Puts off the next restart, given the nanoseconds of the clock.
pub fn schedule_restart_at(rt: &mut Runtime, now: u128, nanos: u32)
    requires
        now <= CLOCK_LIMIT,
    ensures
        final(rt)@ == rescheduled(old(rt)@, now, nanos as int),
{
    let base: u128 = match rt.restart_attempt {
        0 => 1,
        1 => 2,
        2 => 4,
        3 => 8,
        4 => 16,
        5 => 30,
        _ => 60,
    };
    if rt.restart_attempt < usize::MAX {
        rt.restart_attempt = rt.restart_attempt + 1;
    }
    let jitter_ms: u128 = (nanos % 300) as u128;
    rt.next_restart_at = now + base * SECOND_NS + jitter_ms * MILLISECOND_NS;
}

/// Puts off the next restart; the clock gives the jitter.
pub fn schedule_next_restart(rt: &mut Runtime, now: u128)
    requires
        now <= CLOCK_LIMIT,
    ensures
        exists|nanos: int|
            0 <= nanos < 1_000_000_000 && final(rt)@ == #[trigger] rescheduled(
                old(rt)@,
                now,
                nanos,
            ),
{
    schedule_restart_at(rt, now, clock_nanos());
}

/// Notes that the server of a session failed at `now`, given the nanoseconds of the clock: the
/// next restart is put off, and more than `max_restarts_5m` failures within the window make the
/// session unhealthy.
pub fn record_failure_at(
    rt: &mut Runtime,
    sess: &mut SessionStatus,
    now: u128,
    max_restarts_5m: usize,
    nanos: u32,
)
    requires
        now <= CLOCK_LIMIT,
        old(rt).restart_count < i64::MAX,
    ensures
        final(rt)@ == failed_runtime(old(rt)@, now, nanos as int, max_restarts_5m as int),
        final(sess)@ == failed_session(old(sess)@, old(rt)@, now, max_restarts_5m as int),
{
    let ghost first = rt@;
    rt.restart_count = rt.restart_count + 1;
    sess.app_server.restart_count = rt.restart_count;
    sess.app_server.state = "stopped".to_string();
    sess.app_server.pid = 0;

    rt.restart_times_5m.push_back(now);
    let ghost all = rt.restart_times_5m@;
    let ghost kept = rt@;
    while rt.restart_times_5m.len() > 0 && now > rt.restart_times_5m[0] && now
        - rt.restart_times_5m[0] > RESTART_WINDOW_NS
        invariant
            in_window(rt.restart_times_5m@, now) == in_window(all, now),
            rt@ == (RuntimeView { restart_times: rt.restart_times_5m@, ..kept }),
        decreases rt.restart_times_5m@.len(),
    {
        let ghost longer = rt.restart_times_5m@;
        let _ = rt.restart_times_5m.pop_front();
        proof {
            assert(rt.restart_times_5m@ =~= longer.skip(1));
        }
    }
    if rt.restart_times_5m.len() > max_restarts_5m {
        rt.unhealthy_until = Some(now + RESTART_WINDOW_NS);
        sess.health = "unhealthy".to_string();
    }
    schedule_restart_at(rt, now, nanos);
}

/// Notes that the server of a session failed at `now`; the clock gives the jitter.
pub fn record_restart_failure(
    rt: &mut Runtime,
    sess: &mut SessionStatus,
    now: u128,
    max_restarts_5m: usize,
)
    requires
        now <= CLOCK_LIMIT,
        old(rt).restart_count < i64::MAX,
    ensures
        exists|nanos: int|
            0 <= nanos < 1_000_000_000 && final(rt)@ == #[trigger] failed_runtime(
                old(rt)@,
                now,
                nanos,
                max_restarts_5m as int,
            ),
        final(sess)@ == failed_session(old(sess)@, old(rt)@, now, max_restarts_5m as int),
{
    record_failure_at(rt, sess, now, max_restarts_5m, clock_nanos());
}

// ---------------------------------------------------------------------------
// Health and starts
// ---------------------------------------------------------------------------
/// The status of a session of which nothing is known yet.
pub open spec fn default_session() -> SessionView {
    SessionView {
        health: "healthy"@,
        server_state: "stopped"@,
        server_pid: 0,
        restart_count: 0,
        limit_id: "codex"@,
        primary: None,
        secondary: None,
        usage_left_percent: UNKNOWN_USAGE_LEFT as int,
        active_turns: 0,
        last_rate_limit_update_at: ""@,
        last_probe_at: ""@,
        last_probe_result: ""@,
        last_selected_at: ""@,
    }
}

/// The status of a session of which nothing is known yet.
pub fn default_session_status() -> (sess: SessionStatus)
    ensures
        sess@ == default_session(),
{
    SessionStatus {
        health: "healthy".to_string(),
        app_server: AppServerStatus { state: "stopped".to_string(), pid: 0, restart_count: 0 },
        rate_limits: RateLimits {
            limit_id: "codex".to_string(),
            primary: None,
            secondary: None,
        },
        usage_left_percent: UNKNOWN_USAGE_LEFT,
        activity: Activity { active_turns: 0 },
        last_rate_limit_update_at: "".to_string(),
        last_probe_at: "".to_string(),
        last_probe_result: "".to_string(),
        last_selected_at: "".to_string(),
    }
}

/// `rt` at `now`: the time in which it is unhealthy may be over.
pub open spec fn ticked_runtime(rt: RuntimeView, now: u128) -> RuntimeView {
    match rt.unhealthy_until {
        Some(until) => if now < until {
            rt
        } else {
            RuntimeView { unhealthy_until: None, ..rt }
        },
        None => rt,
    }
}

/// `sess` at `now`: unhealthy until the time is over, and healthy then.
pub open spec fn ticked_session(sess: SessionView, rt: RuntimeView, now: u128) -> SessionView {
    match rt.unhealthy_until {
        Some(until) => SessionView {
            health: if now < until {
                "unhealthy"@
            } else {
                "healthy"@
            },
            ..sess
        },
        None => sess,
    }
}

/// Brings the health of a session up to date.
pub fn refresh_health(rt: &mut Runtime, sess: &mut SessionStatus, now: u128)
    ensures
        final(rt)@ == ticked_runtime(old(rt)@, now),
        final(sess)@ == ticked_session(old(sess)@, old(rt)@, now),
{
    match rt.unhealthy_until {
        Some(until) => {
            if now < until {
                sess.health = "unhealthy".to_string();
            } else {
                rt.unhealthy_until = None;
                sess.health = "healthy".to_string();
            }
        },
        None => {},
    }
}

/// Whether the server of a session is to be started.
pub open spec fn start_due(rt: RuntimeView, sess: SessionView, now: u128) -> bool {
    !rt.managed && sess.health == "healthy"@ && now >= rt.next_restart_at
}

/// Whether the server of a session is to be started.
pub fn wants_start(rt: &Runtime, sess: &SessionStatus, now: u128) -> (r: bool)
    ensures
        r == start_due(rt@, sess@, now),
{
    !rt.managed && same_text(sess.health.as_str(), "healthy") && now >= rt.next_restart_at
}

/// `rt` after its server was started at `now`.
pub open spec fn started_runtime(rt: RuntimeView, now: u128) -> RuntimeView {
    RuntimeView { managed: true, restart_attempt: 0, next_restart_at: now as int, ..rt }
}

/// `sess` after its server `rt` was started as the process `pid`.
pub open spec fn started_session(sess: SessionView, rt: RuntimeView, pid: i32) -> SessionView {
    SessionView {
        server_state: "running"@,
        server_pid: pid as int,
        restart_count: rt.restart_count,
        ..sess
    }
}

/// Notes that the server of a session was started.
pub fn note_started(rt: &mut Runtime, sess: &mut SessionStatus, pid: i32, now: u128)
    ensures
        final(rt)@ == started_runtime(old(rt)@, now),
        final(sess)@ == started_session(old(sess)@, old(rt)@, pid),
{
    sess.app_server.state = "running".to_string();
    sess.app_server.pid = pid;
    sess.app_server.restart_count = rt.restart_count;
    rt.managed = true;
    rt.restart_attempt = 0;
    rt.next_restart_at = now;
}

// ---------------------------------------------------------------------------
// Rate limits
// ---------------------------------------------------------------------------
/// The rate limits that a message carries: those of a notice that they changed, or else those of
/// an answer.
pub open spec fn limits_in(msg: Tree) -> Option<Tree> {
    if msg.text_field("method"@) == Some("account/rateLimits/updated"@) {
        msg.nested("params"@, "rateLimits"@)
    } else {
        msg.nested("result"@, "rateLimits"@)
    }
}

/// How much of a rate limit is used, as a document says it.
pub open spec fn window_in(doc: Option<Tree>) -> Option<RateWindow> {
    match doc {
        Some(tree) => match tree.integer_field("usedPercent"@) {
            Some(used) => Some(
                RateWindow {
                    used_percent: used,
                    window_duration_mins: match tree.integer_field("windowDurationMins"@) {
                        Some(n) => n,
                        None => 0,
                    },
                    resets_at: match tree.integer_field("resetsAt"@) {
                        Some(n) => n,
                        None => 0,
                    },
                },
            ),
            None => None,
        },
        None => None,
    }
}

/// The percentage that is left of the scarcer of two rate limits.
pub open spec fn scarcer(primary: Option<RateWindow>, secondary: Option<RateWindow>) -> int {
    match (primary, secondary) {
        (Some(p), Some(s)) => smaller(left_of(p), left_of(s)),
        (Some(p), None) => left_of(p),
        (None, Some(s)) => left_of(s),
        (None, None) => UNKNOWN_USAGE_LEFT as int,
    }
}

/// Whether the percentages that are left of the rate limits lie in the range of `i64`.
pub open spec fn limits_in_range(limits: Tree) -> bool {
    window_in_range(window_in(limits.field("primary"@))) && window_in_range(
        window_in(limits.field("secondary"@)),
    )
}

/// `sess` with the rate limits `limits`, which were learned at `now`.
pub open spec fn with_limits(sess: SessionView, limits: Tree, now: Seq<char>) -> SessionView {
    let primary = window_in(limits.field("primary"@));
    let secondary = window_in(limits.field("secondary"@));
    SessionView {
        limit_id: match limits.text_field("limitId"@) {
            Some(id) => id,
            None => "codex"@,
        },
        primary,
        secondary,
        usage_left_percent: scarcer(primary, secondary),
        last_rate_limit_update_at: now,
        ..sess
    }
}

/// The rate limits that a message carries.
pub fn extract_rate_limits(msg: &Json) -> (r: Option<&Json>)
    ensures
        match r {
            Some(limits) => limits_in(msg@) == Some(limits@),
            None => limits_in(msg@) is None,
        },
{
    if let Some(method) = msg.text_field("method") {
        if same_text(method.as_str(), "account/rateLimits/updated") {
            return msg.nested("params", "rateLimits");
        }
    }
    msg.nested("result", "rateLimits")
}

/// How much of a rate limit is used, as a document says it.
pub fn to_window(doc: Option<&Json>) -> (r: Option<RateWindow>)
    ensures
        r == window_in(
            match doc {
                Some(json) => Some(json@),
                None => None,
            },
        ),
{
    match doc {
        Some(json) => {
            if json.is_null() {
                return None;
            }
            match json.integer_field("usedPercent") {
                Some(used) => {
                    let minutes = match json.integer_field("windowDurationMins") {
                        Some(n) => n,
                        None => 0,
                    };
                    let resets = match json.integer_field("resetsAt") {
                        Some(n) => n,
                        None => 0,
                    };
                    Some(
                        RateWindow {
                            used_percent: used,
                            window_duration_mins: minutes,
                            resets_at: resets,
                        },
                    )
                },
                None => None,
            }
        },
        None => None,
    }
}

/// Whether `apply_limits_at` can be called.
pub fn check_limits(limits: &Json) -> (r: bool)
    ensures
        r == limits_in_range(limits@),
{
    check_window(&to_window(limits.field("primary")))
        && check_window(&to_window(limits.field("secondary")))
}

/// Whether the text of the point in time `clock` denotes the same second again: its year has four
/// digits, and it lies in no leap second.
pub open spec fn reads_back(clock: Timestamp) -> bool {
    clock.has_four_digit_year() && clock.nanos < SECOND_NS
}

/// Takes over the rate limits that were learned at the time `clock`. They are then not stale:
/// at that time their age is 0.
pub fn apply_limits_at(sess: &mut SessionStatus, limits: &Json, clock: Timestamp)
    requires
        clock.wf(),
        limits_in_range(limits@),
    ensures
        final(sess)@ == with_limits(old(sess)@, limits@, rfc3339_text(clock.secs, clock.nanos)),
        reads_back(clock) ==> age_of(*final(sess), clock) == Some(0int),
{
    sess.rate_limits.limit_id = match limits.text_field("limitId") {
        Some(id) => id.clone(),
        None => "codex".to_string(),
    };
    sess.rate_limits.primary = to_window(limits.field("primary"));
    sess.rate_limits.secondary = to_window(limits.field("secondary"));
    let primary_left = window_left(&sess.rate_limits.primary);
    let secondary_left = window_left(&sess.rate_limits.secondary);
    sess.usage_left_percent = match (primary_left, secondary_left) {
        (Some(p), Some(s)) => if p <= s {
            p
        } else {
            s
        },
        (Some(p), None) => p,
        (None, Some(s)) => s,
        (None, None) => UNKNOWN_USAGE_LEFT,
    };
    sess.last_rate_limit_update_at = format_ts(clock);
}

/// Takes over the rate limits that were learned just now.
pub fn apply_rate_limits(sess: &mut SessionStatus, limits: &Json)
    requires
        limits_in_range(limits@),
    ensures
        exists|clock: Timestamp|
            {
                &&& clock_can_show(clock)
                &&& final(sess)@ == #[trigger] with_limits(
                    old(sess)@,
                    limits@,
                    rfc3339_text(clock.secs, clock.nanos),
                )
                &&& reads_back(clock) ==> age_of(*final(sess), clock) == Some(0int)
            },
{
    let clock = clock_now();
    apply_limits_at(sess, limits, clock);
}

// ---------------------------------------------------------------------------
// Messages
// ---------------------------------------------------------------------------
/// The method that a message names, or the empty text.
pub open spec fn method_of(msg: Tree) -> Seq<char> {
    match msg.text_field("method"@) {
        Some(method) => method,
        None => ""@,
    }
}

/// The state of a thread that a message reports.
pub open spec fn thread_state(msg: Tree) -> Option<Seq<char>> {
    match msg.nested("params"@, "status"@) {
        Some(status) => status.text_field("type"@),
        None => None,
    }
}

/// `sess` after the part of a message that is not about rate limits: turns that start and end
/// are counted, and a thread that becomes active or fails changes the health.
pub open spec fn after_notice(sess: SessionView, msg: Tree) -> SessionView {
    let method = method_of(msg);
    if method == "turn/started"@ {
        SessionView { active_turns: sess.active_turns + 1, ..sess }
    } else if method == "turn/completed"@ {
        SessionView {
            active_turns: if sess.active_turns >= 1 {
                sess.active_turns - 1
            } else {
                0
            },
            ..sess
        }
    } else if method == "thread/status/changed"@ {
        if thread_state(msg) == Some("active"@) {
            SessionView { health: "healthy"@, ..sess }
        } else if thread_state(msg) == Some("systemError"@) {
            SessionView { health: "unhealthy"@, ..sess }
        } else {
            sess
        }
    } else {
        sess
    }
}

/// `sess` after a message that came at `now`.
pub open spec fn after_message(sess: SessionView, msg: Tree, now: Seq<char>) -> SessionView {
    let learned = match limits_in(msg) {
        Some(limits) => with_limits(sess, limits, now),
        None => sess,
    };
    after_notice(learned, msg)
}

/// Whether a message can be handled in the range of `i64`.
pub open spec fn message_in_range(sess: SessionView, msg: Tree) -> bool {
    &&& limits_in(msg) is Some ==> limits_in_range(limits_in(msg)->0)
    &&& method_of(msg) == "turn/started"@ ==> sess.active_turns < i64::MAX
    &&& method_of(msg) == "turn/completed"@ ==> sess.active_turns > i64::MIN
}

fn read_method(msg: &Json) -> (r: String)
    ensures
        r@ == method_of(msg@),
{
    match msg.text_field("method") {
        Some(method) => method.clone(),
        None => "".to_string(),
    }
}

/// Whether `handle_message_at` can be called.
pub fn check_message(sess: &SessionStatus, msg: &Json) -> (r: bool)
    ensures
        r == message_in_range(sess@, msg@),
{
    let limits_fit = match extract_rate_limits(msg) {
        Some(limits) => check_limits(limits),
        None => true,
    };
    let method = read_method(msg);
    let turns: i64 = sess.activity.active_turns;
    limits_fit && !(same_text(method.as_str(), "turn/started") && turns == i64::MAX) && !(same_text(
        method.as_str(),
        "turn/completed",
    ) && turns == i64::MIN)
}

/// Takes over what a message says that came at the time `clock`. Rate limits that it carries are
/// then not stale.
pub fn handle_message_at(sess: &mut SessionStatus, msg: &Json, clock: Timestamp)
    requires
        clock.wf(),
        message_in_range(old(sess)@, msg@),
    ensures
        final(sess)@ == after_message(old(sess)@, msg@, rfc3339_text(clock.secs, clock.nanos)),
        limits_in(msg@) is Some && reads_back(clock) ==> age_of(*final(sess), clock) == Some(0int),
{
    if let Some(limits) = extract_rate_limits(msg) {
        apply_limits_at(sess, limits, clock);
    }
    let method = read_method(msg);
    let method = method.as_str();
    if same_text(method, "turn/started") {
        sess.activity.active_turns = sess.activity.active_turns + 1;
    } else if same_text(method, "turn/completed") {
        let turns: i64 = sess.activity.active_turns - 1;
        sess.activity.active_turns = if turns >= 0 {
            turns
        } else {
            0
        };
    } else if same_text(method, "thread/status/changed") {
        if let Some(status) = msg.nested("params", "status") {
            if let Some(state) = status.text_field("type") {
                if same_text(state.as_str(), "active") {
                    sess.health = "healthy".to_string();
                } else if same_text(state.as_str(), "systemError") {
                    sess.health = "unhealthy".to_string();
                }
            }
        }
    }
}

/// Takes over what a message says that came just now.
pub fn handle_message(sess: &mut SessionStatus, msg: &Json)
    requires
        message_in_range(old(sess)@, msg@),
    ensures
        exists|clock: Timestamp|
            {
                &&& clock_can_show(clock)
                &&& final(sess)@ == #[trigger] after_message(
                    old(sess)@,
                    msg@,
                    rfc3339_text(clock.secs, clock.nanos),
                )
                &&& limits_in(msg@) is Some && reads_back(clock) ==> age_of(*final(sess), clock)
                    == Some(0int)
            },
{
    let clock = clock_now();
    handle_message_at(sess, msg, clock);
}

// ---------------------------------------------------------------------------
// Requests, probes and refreshes
// ---------------------------------------------------------------------------
/// The line that asks a server for its rate limits.
pub open spec fn limits_request() -> Seq<char> {
    "{\"id\":2,\"jsonrpc\":\"2.0\",\"method\":\"account/rateLimits/read\",\"params\":{}}\n"@
}

/// The line that introduces the supervisor, of the given version, to a server.
pub open spec fn initialize_request(version: Seq<char>) -> Seq<char> {
    "{\"id\":1,\"jsonrpc\":\"2.0\",\"method\":\"initialize\",\"params\":{\"clientInfo\":{\"name\":\"agentlb-supervisor\",\"version\":"@
        + json_quoted(version) + "}}}\n"@
}

/// The line that asks a server for its rate limits.
pub fn ask_for_limits() -> (r: String)
    ensures
        r@ == limits_request(),
{
    "{\"id\":2,\"jsonrpc\":\"2.0\",\"method\":\"account/rateLimits/read\",\"params\":{}}\n".to_string()
}

/// What is sent to a server first: the supervisor is introduced and asks for the rate limits.
pub fn send_initialize_and_read(version: &str) -> (r: String)
    ensures
        r@ == initialize_request(version@) + limits_request(),
{
    "{\"id\":1,\"jsonrpc\":\"2.0\",\"method\":\"initialize\",\"params\":{\"clientInfo\":{\"name\":\"agentlb-supervisor\",\"version\":".to_string().concat(
        quote_json(version).as_str(),
    ).concat("}}}\n").concat(ask_for_limits().as_str())
}

/// What to do next in a probe.
#[derive(Debug, Clone, Copy, PartialEq, Eq, Structural)]
pub enum ProbeStep {
    /// Wait for a message.
    Listen,
    /// The last message has the rate limits.
    Found,
    /// The time is over.
    Over,
}

/// What a probe does next, having found the rate limits or not, at `now`.
pub open spec fn probe_step(found: bool, now: u128, deadline: u128) -> ProbeStep {
    if found {
        ProbeStep::Found
    } else if now < deadline {
        ProbeStep::Listen
    } else {
        ProbeStep::Over
    }
}

/// What to do next in a probe, given the message that came, if any, and else the time on a clock
/// that only runs forward and the time on it at which the probe ends. A message with rate limits
/// counts even when it comes late.
pub fn run_probe(msg: Option<&Json>, now: u128, deadline: u128) -> (step: ProbeStep)
    ensures
        step == probe_step(msg is Some && limits_in(msg->0@) is Some, now, deadline),
{
    if let Some(msg) = msg {
        if extract_rate_limits(msg).is_some() {
            return ProbeStep::Found;
        }
    }
    if now < deadline {
        ProbeStep::Listen
    } else {
        ProbeStep::Over
    }
}

/// `sess` after a probe that ended at `now` and found `limits`, or nothing.
pub open spec fn after_probe(sess: SessionView, limits: Option<Tree>, now: Seq<char>) -> SessionView {
    let noted = SessionView {
        last_probe_at: now,
        last_probe_result: if limits is Some {
            "ok"@
        } else {
            "error"@
        },
        ..sess
    };
    match limits {
        Some(limits) => with_limits(noted, limits, now),
        None => noted,
    }
}

/// Notes what a probe found that ended at the time `clock`. Rate limits that it found are then not
/// stale, and the time of the probe is always noted.
pub fn note_probe(sess: &mut SessionStatus, limits: Option<&Json>, clock: Timestamp)
    requires
        clock.wf(),
        limits is Some ==> limits_in_range(limits->0@),
    ensures
        final(sess)@ == after_probe(
            old(sess)@,
            match limits {
                Some(json) => Some(json@),
                None => None,
            },
            rfc3339_text(clock.secs, clock.nanos),
        ),
        final(sess)@.last_probe_at.len() > 0,
        limits is Some && reads_back(clock) ==> age_of(*final(sess), clock) == Some(0int),
{
    sess.last_probe_at = format_ts(clock);
    match limits {
        Some(json) => {
            sess.last_probe_result = "ok".to_string();
            apply_limits_at(sess, json, clock);
        },
        None => {
            sess.last_probe_result = "error".to_string();
        },
    }
}

/// Whether the rate limits of a session, which have the age `age`, are to be asked for anew: its
/// server runs, the pause since the last time is over, and the rate limits are stale within
/// `lead` seconds or their age is not known.
pub open spec fn refresh_due_at(
    rt: RuntimeView,
    age: Option<int>,
    now: u128,
    stale_sec: i64,
    lead: u64,
) -> bool {
    &&& rt.managed
    &&& now >= rt.next_refresh_at
    &&& match age {
        Some(age) => age + lead >= stale_sec,
        None => true,
    }
}

/// Whether the rate limits of a session, which were learned at `updated_at`, are to be asked for
/// anew.
pub open spec fn refresh_due(
    rt: RuntimeView,
    updated_at: Seq<char>,
    now: u128,
    clock: Timestamp,
    stale_sec: i64,
    lead: u64,
) -> bool {
    refresh_due_at(rt, age_at(updated_at, clock), now, stale_sec, lead)
}

/// Whether the rate limits of a session, which have the age `age`, are to be asked for anew.
pub fn wants_refresh_at(rt: &Runtime, age: Option<i64>, now: u128, stale_sec: i64, lead: u64) -> (r:
    bool)
    ensures
        r == refresh_due_at(rt@, known_age(age), now, stale_sec, lead),
{
    if !rt.managed || now < rt.next_refresh_at {
        return false;
    }
    match age {
        Some(age) => age as i128 + lead as i128 >= stale_sec as i128,
        None => true,
    }
}

/// Whether the rate limits of a session are to be asked for anew.
pub fn wants_refresh(
    rt: &Runtime,
    sess: &SessionStatus,
    now: u128,
    clock: Timestamp,
    stale_sec: i64,
    lead: u64,
) -> (r: bool)
    requires
        clock.wf(),
    ensures
        r == refresh_due(
            rt@,
            sess@.last_rate_limit_update_at,
            now,
            clock,
            stale_sec,
            lead,
        ),
{
    wants_refresh_at(rt, limits_age(sess, clock), now, stale_sec, lead)
}

// ---------------------------------------------------------------------------
// Laws
// ---------------------------------------------------------------------------
/// A restart waits for at least one second and for less than 60.3 seconds.
pub proof fn restart_delay_is_bounded(attempt: int, nanos: int)
    requires
        nanos >= 0,
    ensures
        SECOND_NS <= restart_delay(attempt, nanos) < 60 * SECOND_NS + 300 * MILLISECOND_NS,
{
}

/// The more attempts have failed in a row, the longer a restart waits, but for the jitter.
pub proof fn backoff_grows(fewer: int, more: int)
    requires
        fewer <= more,
    ensures
        backoff(fewer) <= backoff(more),
{
}

/// Whether no time comes before one that stands in front of it.
pub open spec fn in_time_order(times: Seq<u128>) -> bool {
    forall|i: int, j: int| 0 <= i < j < times.len() ==> #[trigger] times[i] <= #[trigger] times[j]
}

/// How many of `times` lie in the window before `now`.
pub open spec fn count_in_window(times: Seq<u128>, now: u128) -> nat
    decreases times.len(),
{
    if times.len() == 0 {
        0
    } else {
        count_in_window(times.skip(1), now) + if now - times[0] > RESTART_WINDOW_NS {
            0nat
        } else {
            1nat
        }
    }
}

proof fn all_in_window(times: Seq<u128>, now: u128)
    requires
        forall|i: int| 0 <= i < times.len() ==> now - #[trigger] times[i] <= RESTART_WINDOW_NS,
    ensures
        count_in_window(times, now) == times.len(),
    decreases times.len(),
{
    if times.len() > 0 {
        assert(now - times[0] <= RESTART_WINDOW_NS);
        assert forall|i: int| 0 <= i < times.skip(1).len() implies now - #[trigger] times.skip(1)[i]
            <= RESTART_WINDOW_NS by {
            assert(times.skip(1)[i] == times[i + 1]);
        }
        all_in_window(times.skip(1), now);
    }
}

/// Of the failures of a server, exactly those of the last five minutes are kept, and in order.
pub proof fn failures_are_kept_for_the_window(times: Seq<u128>, now: u128)
    requires
        in_time_order(times),
    ensures
        in_time_order(in_window(times, now)),
        in_window(times, now).len() == count_in_window(times, now),
        forall|i: int|
            0 <= i < in_window(times, now).len() ==> now - #[trigger] in_window(times, now)[i]
                <= RESTART_WINDOW_NS,
    decreases times.len(),
{
    if times.len() > 0 {
        if now - times[0] > RESTART_WINDOW_NS {
            let rest = times.skip(1);
            assert forall|i: int, j: int| 0 <= i < j < rest.len() implies #[trigger] rest[i]
                <= #[trigger] rest[j] by {
                assert(times[i + 1] <= times[j + 1]);
            }
            failures_are_kept_for_the_window(rest, now);
        } else {
            assert forall|i: int| 0 <= i < times.len() implies now - #[trigger] times[i]
                <= RESTART_WINDOW_NS by {
                if i > 0 {
                    assert(times[0] <= times[i]);
                }
            }
            all_in_window(times, now);
        }
    }
}

/// A failure makes a session unhealthy exactly where the failures of the last five minutes, this
/// one among them, are more than allowed; otherwise its health stays.
pub proof fn a_crash_loop_is_unhealthy(
    rt: RuntimeView,
    sess: SessionView,
    now: u128,
    nanos: int,
    most: int,
)
    requires
        in_time_order(rt.restart_times.push(now)),
        now <= CLOCK_LIMIT,
    ensures
        ({
            let count = count_in_window(rt.restart_times.push(now), now);
            let after = failed_session(sess, rt, now, most);
            let next = failed_runtime(rt, now, nanos, most);
            &&& count > most ==> after.health == "unhealthy"@ && next.unhealthy_until == Some(
                (now + RESTART_WINDOW_NS) as u128,
            )
            &&& count <= most ==> after.health == sess.health && next.unhealthy_until
                == rt.unhealthy_until
        }),
{
    failures_are_kept_for_the_window(rt.restart_times.push(now), now);
}

/// While a session is unhealthy its server is not started, and once the time is over the session
/// is healthy again.
pub proof fn no_start_while_unhealthy(rt: RuntimeView, sess: SessionView, now: u128, until: u128)
    requires
        rt.unhealthy_until == Some(until),
    ensures
        now < until ==> !start_due(ticked_runtime(rt, now), ticked_session(sess, rt, now), now),
        now >= until ==> ticked_runtime(rt, now).unhealthy_until is None && ticked_session(
            sess,
            rt,
            now,
        ).health == "healthy"@,
{
    reveal_strlit("healthy");
    reveal_strlit("unhealthy");
    assert("healthy"@.len() != "unhealthy"@.len());
}

/// After a failure the server is not started before the backoff is over.
pub proof fn no_start_before_the_backoff(
    rt: RuntimeView,
    sess: SessionView,
    now: u128,
    later: u128,
    nanos: int,
    most: int,
)
    requires
        nanos >= 0,
        later < now + backoff(rt.restart_attempt) * SECOND_NS,
    ensures
        !start_due(
            failed_runtime(rt, now, nanos, most),
            failed_session(sess, rt, now, most),
            later,
        ),
{
}

/// A server that failed is started again, at the latest 60.3 seconds later, unless its session is
/// unhealthy.
pub proof fn a_failed_server_is_started_again(
    rt: RuntimeView,
    sess: SessionView,
    now: u128,
    later: u128,
    nanos: int,
    most: int,
)
    requires
        nanos >= 0,
        !rt.managed,
        failed_session(sess, rt, now, most).health == "healthy"@,
        later >= now + 60 * SECOND_NS + 300 * MILLISECOND_NS,
    ensures
        start_due(
            failed_runtime(rt, now, nanos, most),
            failed_session(sess, rt, now, most),
            later,
        ),
{
}

/// The status of a session shows how often its server failed.
pub proof fn the_status_shows_the_restarts(
    rt: RuntimeView,
    sess: SessionView,
    now: u128,
    nanos: int,
    most: int,
    pid: i32,
)
    ensures
        failed_session(sess, rt, now, most).restart_count == failed_runtime(
            rt,
            now,
            nanos,
            most,
        ).restart_count,
        started_session(sess, rt, pid).restart_count == started_runtime(rt, now).restart_count,
{
}

/// The number of turns never becomes negative.
pub proof fn turns_stay_natural(sess: SessionView, msg: Tree, now: Seq<char>)
    requires
        sess.active_turns >= 0,
    ensures
        after_message(sess, msg, now).active_turns >= 0,
{
}

/// A turn that starts and ends leaves the number of turns as it was.
pub proof fn turns_are_balanced(sess: SessionView, start: Tree, end: Tree, now: Seq<char>)
    requires
        sess.active_turns >= 0,
        method_of(start) == "turn/started"@,
        method_of(end) == "turn/completed"@,
    ensures
        after_message(after_message(sess, start, now), end, now).active_turns == sess.active_turns,
{
    reveal_strlit("turn/started");
    reveal_strlit("turn/completed");
    assert("turn/started"@.len() != "turn/completed"@.len());
}

/// What is left of the scarcer rate limit is a percentage, and no more than what is left of
/// either.
pub proof fn the_scarcer_limit_is_a_percentage(
    primary: Option<RateWindow>,
    secondary: Option<RateWindow>,
)
    ensures
        0 <= scarcer(primary, secondary) <= 100,
        primary is Some ==> scarcer(primary, secondary) <= left_of(primary->0),
        secondary is Some ==> scarcer(primary, secondary) <= left_of(secondary->0),
{
}

/// What is said of a runtime is said of its fields, each by its own name.
pub proof fn the_view_of_a_runtime_is_its_fields(rt: Runtime)
    ensures
        rt@.managed == rt.managed,
        rt@.restart_count == rt.restart_count,
        rt@.restart_attempt == rt.restart_attempt,
        rt@.restart_times == rt.restart_times_5m@,
        rt@.next_restart_at == rt.next_restart_at,
        rt@.unhealthy_until == rt.unhealthy_until,
        rt@.next_refresh_at == rt.next_refresh_at,
{
}

/// Both rate limits of a session are those that the document reports, each under its own name: a
/// limit is known exactly where its used percentage can be read, and what is not reported of it is
/// zero. They are as old as the report, and nothing else changes.
pub proof fn both_limits_are_taken_as_reported(sess: SessionView, limits: Tree, now: Seq<char>)
    ensures
        ({
            let after = with_limits(sess, limits, now);
            let p = limits.field("primary"@);
            let s = limits.field("secondary"@);
            &&& after.primary is Some <==> p is Some && p->0.integer_field(
                "usedPercent"@,
            ) is Some
            &&& after.secondary is Some <==> s is Some && s->0.integer_field(
                "usedPercent"@,
            ) is Some
            &&& after.primary is Some ==> {
                let minutes = p->0.integer_field("windowDurationMins"@);
                let resets = p->0.integer_field("resetsAt"@);
                &&& Some(after.primary->0.used_percent) == p->0.integer_field("usedPercent"@)
                &&& minutes is Some ==> Some(after.primary->0.window_duration_mins) == minutes
                &&& minutes is None ==> after.primary->0.window_duration_mins == 0
                &&& resets is Some ==> Some(after.primary->0.resets_at) == resets
                &&& resets is None ==> after.primary->0.resets_at == 0
            }
            &&& after.secondary is Some ==> {
                let minutes = s->0.integer_field("windowDurationMins"@);
                let resets = s->0.integer_field("resetsAt"@);
                &&& Some(after.secondary->0.used_percent) == s->0.integer_field("usedPercent"@)
                &&& minutes is Some ==> Some(after.secondary->0.window_duration_mins) == minutes
                &&& minutes is None ==> after.secondary->0.window_duration_mins == 0
                &&& resets is Some ==> Some(after.secondary->0.resets_at) == resets
                &&& resets is None ==> after.secondary->0.resets_at == 0
            }
            &&& limits.text_field("limitId"@) is Some ==> Some(after.limit_id)
                == limits.text_field("limitId"@)
            &&& limits.text_field("limitId"@) is None ==> after.limit_id == "codex"@
            &&& after.primary is Some && after.secondary is Some ==> {
                let a = left_of(after.primary->0);
                let b = left_of(after.secondary->0);
                &&& after.usage_left_percent <= a && after.usage_left_percent <= b
                &&& after.usage_left_percent == a || after.usage_left_percent == b
            }
            &&& after.primary is Some && after.secondary is None ==> after.usage_left_percent
                == left_of(after.primary->0)
            &&& after.primary is None && after.secondary is Some ==> after.usage_left_percent
                == left_of(after.secondary->0)
            &&& after.primary is None && after.secondary is None ==> after.usage_left_percent == 30
            &&& after.last_rate_limit_update_at == now
            &&& after.health == sess.health
            &&& after.server_state == sess.server_state
            &&& after.server_pid == sess.server_pid
            &&& after.restart_count == sess.restart_count
            &&& after.active_turns == sess.active_turns
            &&& after.last_probe_at == sess.last_probe_at
            &&& after.last_probe_result == sess.last_probe_result
            &&& after.last_selected_at == sess.last_selected_at
        }),
{
}

/// After a report of both rate limits, the usage left of the session is what the report leaves of
/// each, weighted as configured and rounded down, and the percentage it shows is the smaller of
/// the two.
pub proof fn reported_limits_decide_the_usage_left(
    sess: SessionView,
    limits: Tree,
    now: Seq<char>,
    after: SessionStatus,
    cfg: ScoringConfig,
    p: i64,
    s: i64,
)
    requires
        after@ == with_limits(sess, limits, now),
        limits.nested("primary"@, "usedPercent"@) == Some(Tree::Number(Some(p))),
        limits.nested("secondary"@, "usedPercent"@) == Some(Tree::Number(Some(s))),
        0 <= p <= 100,
        0 <= s <= 100,
        cfg.usage_primary_weight_percent >= 0,
        cfg.usage_secondary_weight_percent >= 0,
        cfg.usage_primary_weight_percent + cfg.usage_secondary_weight_percent > 0,
    ensures
        ({
            let v = cfg.usage_primary_weight_percent as int;
            let w = cfg.usage_secondary_weight_percent as int;
            let left = usage_left(after, cfg);
            &&& left * (v + w) <= (100 - p) * v + (100 - s) * w < (left + 1) * (v + w)
            &&& w == 0 ==> left == 100 - p
            &&& v == 0 ==> left == 100 - s
        }),
        p >= s ==> after.usage_left_percent == 100 - p,
        s >= p ==> after.usage_left_percent == 100 - s,
{
    usage_left_is_weighted_as_configured(after, cfg);
}

/// A report of one rate limit leaves what is left of that one, and a report of none leaves what is
/// not known.
pub proof fn one_reported_limit_decides_alone(
    sess: SessionView,
    limits: Tree,
    now: Seq<char>,
    after: SessionStatus,
    cfg: ScoringConfig,
    used: i64,
)
    requires
        after@ == with_limits(sess, limits, now),
        0 <= used <= 100,
    ensures
        limits.nested("primary"@, "usedPercent"@) == Some(Tree::Number(Some(used)))
            && limits.field("secondary"@) is None ==> usage_left(after, cfg) == 100 - used
            && after.usage_left_percent == 100 - used,
        limits.field("primary"@) is None && limits.nested("secondary"@, "usedPercent"@) == Some(
            Tree::Number(Some(used)),
        ) ==> usage_left(after, cfg) == 100 - used && after.usage_left_percent == 100 - used,
        limits.field("primary"@) is None && limits.field("secondary"@) is None ==> usage_left(
            after,
            cfg,
        ) == cfg.unknown_usage_left_percent && after.usage_left_percent == 30,
{
}

proof fn methods_differ()
    ensures
        "turn/started"@ != "turn/completed"@,
        "turn/started"@ != "thread/status/changed"@,
        "turn/completed"@ != "thread/status/changed"@,
        "account/rateLimits/updated"@ != "turn/started"@,
        "account/rateLimits/updated"@ != "turn/completed"@,
        "account/rateLimits/updated"@ != "thread/status/changed"@,
        ""@ != "turn/started"@,
        ""@ != "turn/completed"@,
        ""@ != "thread/status/changed"@,
        "active"@ != "systemError"@,
        "healthy"@ != "unhealthy"@,
        "ok"@ != "error"@,
        "stopped"@ != "running"@,
{
    reveal_strlit("turn/started");
    reveal_strlit("turn/completed");
    reveal_strlit("thread/status/changed");
    reveal_strlit("account/rateLimits/updated");
    reveal_strlit("");
    reveal_strlit("active");
    reveal_strlit("systemError");
    reveal_strlit("healthy");
    reveal_strlit("unhealthy");
    reveal_strlit("ok");
    reveal_strlit("error");
    reveal_strlit("stopped");
    reveal_strlit("running");
    assert("turn/started"@.len() == 12);
    assert("turn/completed"@.len() == 14);
    assert("thread/status/changed"@.len() == 21);
    assert("account/rateLimits/updated"@.len() == 26);
    assert("active"@.len() != "systemError"@.len());
    assert("healthy"@.len() != "unhealthy"@.len());
    assert("ok"@.len() != "error"@.len());
    assert("stopped"@[0] == 's');
    assert("running"@[0] == 'r');
}

/// A message that reports rate limits, on its own account or as an answer, sets them and nothing
/// else.
pub proof fn reports_set_the_limits(sess: SessionView, msg: Tree, limits: Tree, now: Seq<char>)
    ensures
        msg.text_field("method"@) == Some("account/rateLimits/updated"@) && msg.nested(
            "params"@,
            "rateLimits"@,
        ) == Some(limits) ==> after_message(sess, msg, now) == with_limits(sess, limits, now),
        msg.text_field("method"@) == Some("account/rateLimits/updated"@) && msg.nested(
            "params"@,
            "rateLimits"@,
        ) is None ==> after_message(sess, msg, now) == sess,
        msg.text_field("method"@) is None && msg.nested("result"@, "rateLimits"@) == Some(limits)
            ==> after_message(sess, msg, now) == with_limits(sess, limits, now),
        msg.text_field("method"@) is None && msg.nested("result"@, "rateLimits"@) is None
            ==> after_message(sess, msg, now) == sess,
{
    methods_differ();
}

/// The start of a turn makes one more of them, and nothing else of a message without rate limits.
pub proof fn a_turn_that_starts_counts(sess: SessionView, msg: Tree, now: Seq<char>)
    requires
        msg.text_field("method"@) == Some("turn/started"@),
        msg.nested("result"@, "rateLimits"@) is None,
    ensures
        after_message(sess, msg, now) == (SessionView {
            active_turns: sess.active_turns + 1,
            ..sess
        }),
{
    methods_differ();
}

/// The end of a turn makes one fewer of them, down to none.
pub proof fn a_turn_that_ends_no_longer_counts(sess: SessionView, msg: Tree, now: Seq<char>)
    requires
        msg.text_field("method"@) == Some("turn/completed"@),
        msg.nested("result"@, "rateLimits"@) is None,
    ensures
        sess.active_turns > 0 ==> after_message(sess, msg, now) == (SessionView {
            active_turns: sess.active_turns - 1,
            ..sess
        }),
        sess.active_turns <= 0 ==> after_message(sess, msg, now) == (SessionView {
            active_turns: 0,
            ..sess
        }),
{
    methods_differ();
}

/// A thread that turns active makes its session healthy, a system error makes it unhealthy, and any
/// other state of a thread changes nothing.
pub proof fn the_state_of_a_thread_is_the_health(
    sess: SessionView,
    msg: Tree,
    status: Tree,
    now: Seq<char>,
)
    requires
        msg.text_field("method"@) == Some("thread/status/changed"@),
        msg.nested("params"@, "status"@) == Some(status),
        msg.nested("result"@, "rateLimits"@) is None,
    ensures
        status.text_field("type"@) == Some("active"@) ==> after_message(sess, msg, now) == (
        SessionView { health: "healthy"@, ..sess }),
        status.text_field("type"@) == Some("systemError"@) ==> after_message(sess, msg, now) == (
        SessionView { health: "unhealthy"@, ..sess }),
        status.text_field("type"@) != Some("active"@) && status.text_field("type"@) != Some(
            "systemError"@,
        ) ==> after_message(sess, msg, now) == sess,
{
    methods_differ();
}

/// A message of any other method, without rate limits, changes nothing.
pub proof fn other_messages_change_nothing(
    sess: SessionView,
    msg: Tree,
    method: Seq<char>,
    now: Seq<char>,
)
    requires
        msg.text_field("method"@) == Some(method),
        method != "turn/started"@,
        method != "turn/completed"@,
        method != "thread/status/changed"@,
        method != "account/rateLimits/updated"@,
        msg.nested("result"@, "rateLimits"@) is None,
    ensures
        after_message(sess, msg, now) == sess,
{
}

/// No message touches the server of a session, its probes or its last selection; and unless a
/// message holds rate limits, it leaves these as they were.
pub proof fn messages_leave_the_rest(sess: SessionView, msg: Tree, now: Seq<char>)
    ensures
        ({
            let after = after_message(sess, msg, now);
            &&& after.server_state == sess.server_state
            &&& after.server_pid == sess.server_pid
            &&& after.restart_count == sess.restart_count
            &&& after.last_probe_at == sess.last_probe_at
            &&& after.last_probe_result == sess.last_probe_result
            &&& after.last_selected_at == sess.last_selected_at
            &&& msg.nested("params"@, "rateLimits"@) is None && msg.nested(
                "result"@,
                "rateLimits"@,
            ) is None ==> {
                &&& after.limit_id == sess.limit_id
                &&& after.primary == sess.primary
                &&& after.secondary == sess.secondary
                &&& after.usage_left_percent == sess.usage_left_percent
                &&& after.last_rate_limit_update_at == sess.last_rate_limit_update_at
            }
        }),
{
}

/// A probe is noted with its time and whether it brought rate limits. Those that it brought are the
/// limits of the session from then on; one that brought none leaves them, and their age.
pub proof fn probes_are_noted(sess: SessionView, limits: Tree, now: Seq<char>)
    ensures
        after_probe(sess, None, now) == (SessionView {
            last_probe_at: now,
            last_probe_result: "error"@,
            ..sess
        }),
        after_probe(sess, Some(limits), now) == (SessionView {
            last_probe_at: now,
            last_probe_result: "ok"@,
            ..with_limits(sess, limits, now)
        }),
{
}

/// The wait for a restart begins at a second, doubles with each failed attempt up to sixteen
/// seconds, is then half a minute and from there on a minute. To each wait comes a jitter of as
/// many milliseconds as the clock shows nanoseconds, counted modulo three hundred.
pub proof fn the_wait_doubles(attempt: int, nanos: int)
    requires
        nanos >= 0,
    ensures
        attempt <= 0 ==> restart_delay(attempt, 0) == 1_000_000_000,
        0 <= attempt < 4 ==> restart_delay(attempt + 1, 0) == 2 * restart_delay(attempt, 0),
        attempt == 5 ==> restart_delay(attempt, 0) == 30_000_000_000,
        attempt >= 6 ==> restart_delay(attempt, 0) == 60_000_000_000,
        restart_delay(attempt, nanos) - restart_delay(attempt, 0) == (nanos % 300) * 1_000_000,
{
}

/// A restart that is put off is one attempt more and comes after the wait for the attempts before
/// it; nothing else changes.
pub proof fn a_restart_is_put_off(rt: RuntimeView, now: u128, nanos: int)
    requires
        rt.restart_attempt < usize::MAX,
    ensures
        ({
            let after = rescheduled(rt, now, nanos);
            &&& after.restart_attempt == rt.restart_attempt + 1
            &&& after.next_restart_at - now == restart_delay(rt.restart_attempt, nanos)
            &&& after.managed == rt.managed
            &&& after.restart_count == rt.restart_count
            &&& after.restart_times == rt.restart_times
            &&& after.unhealthy_until == rt.unhealthy_until
            &&& after.next_refresh_at == rt.next_refresh_at
        }),
{
}

/// Of the times of failures only the first ones are dropped, as long as they lie more than five
/// minutes back.
pub proof fn old_failures_are_dropped_from_the_front(times: Seq<u128>, now: u128) -> (n: int)
    ensures
        0 <= n <= times.len(),
        in_window(times, now) == times.skip(n),
        forall|i: int| 0 <= i < n ==> now - #[trigger] times[i] > 300_000_000_000,
        n < times.len() ==> now - times[n] <= 300_000_000_000,
    decreases times.len(),
{
    if times.len() > 0 && now - times[0] > RESTART_WINDOW_NS {
        let rest = times.skip(1);
        let n = old_failures_are_dropped_from_the_front(rest, now);
        assert(rest.skip(n) =~= times.skip(n + 1));
        assert forall|i: int| 0 <= i < n + 1 implies now - #[trigger] times[i]
            > 300_000_000_000 by {
            if i > 0 {
                assert(times[i] == rest[i - 1]);
            }
        }
        n + 1
    } else {
        assert(times.skip(0) =~= times);
        0
    }
}

/// A failure is counted, its time is kept with those of the last five minutes, and the next start
/// waits as long as the attempts before it ask for. The session rests for five minutes where it
/// failed more often than it may; else it keeps its health. Nothing else changes.
pub proof fn failures_are_counted(
    rt: RuntimeView,
    sess: SessionView,
    now: u128,
    nanos: int,
    most: int,
)
    requires
        rt.restart_attempt < usize::MAX,
        now <= CLOCK_LIMIT,
    ensures
        ({
            let next = failed_runtime(rt, now, nanos, most);
            let after = failed_session(sess, rt, now, most);
            &&& next.restart_count == rt.restart_count + 1
            &&& next.restart_times == in_window(rt.restart_times.push(now), now)
            &&& next.restart_attempt == rt.restart_attempt + 1
            &&& next.next_restart_at - now == restart_delay(rt.restart_attempt, nanos)
            &&& next.managed == rt.managed
            &&& next.next_refresh_at == rt.next_refresh_at
            &&& next.restart_times.len() > most ==> next.unhealthy_until is Some
                && next.unhealthy_until->0 == now + 300_000_000_000 && after.health
                == "unhealthy"@
            &&& next.restart_times.len() <= most ==> next.unhealthy_until == rt.unhealthy_until
                && after.health == sess.health
            &&& after == (SessionView {
                restart_count: rt.restart_count + 1,
                server_state: "stopped"@,
                server_pid: 0,
                health: after.health,
                ..sess
            })
        }),
{
}

/// A session that rests is unhealthy until its rest is over, when it is healthy again; one that does
/// not rest is left alone. Nothing but the health and the end of the rest changes.
pub proof fn rests_come_to_an_end(rt: RuntimeView, sess: SessionView, now: u128, until: u128)
    ensures
        rt.unhealthy_until is None ==> ticked_runtime(rt, now) == rt && ticked_session(
            sess,
            rt,
            now,
        ) == sess,
        rt.unhealthy_until == Some(until) && now < until ==> ticked_runtime(rt, now) == rt
            && ticked_session(sess, rt, now) == (SessionView { health: "unhealthy"@, ..sess }),
        rt.unhealthy_until == Some(until) && now >= until ==> ticked_runtime(rt, now) == (
        RuntimeView { unhealthy_until: None, ..rt }) && ticked_session(sess, rt, now) == (
        SessionView { health: "healthy"@, ..sess }),
{
}

/// A server that has none running is started where its session is healthy and its time has come,
/// and once started it is managed, shown as running, and its next failure is a first one.
pub proof fn servers_are_started_in_time(rt: RuntimeView, sess: SessionView, now: u128, pid: i32)
    ensures
        start_due(rt, sess, now) <==> rt.managed == false && sess.health == "healthy"@
            && rt.next_restart_at <= now,
        !start_due(started_runtime(rt, now), sess, now),
        started_runtime(rt, now) == (RuntimeView {
            managed: true,
            restart_attempt: 0,
            next_restart_at: now as int,
            ..rt
        }),
        started_session(sess, rt, pid) == (SessionView {
            server_state: "running"@,
            server_pid: pid as int,
            restart_count: rt.restart_count,
            ..sess
        }),
{
}

/// The rate limits of a managed session are asked for again, not before the next time for it, where
/// their age is not known or comes within the lead of the limit.
pub proof fn limits_are_asked_for_before_they_are_stale(
    rt: RuntimeView,
    updated_at: Seq<char>,
    now: u128,
    clock: Timestamp,
    stale_sec: i64,
    lead: u64,
    at: Timestamp,
)
    ensures
        refresh_due(rt, updated_at, now, clock, stale_sec, lead) ==> rt.managed && now
            >= rt.next_refresh_at,
        rt.managed && now >= rt.next_refresh_at ==> {
            &&& instant_of(updated_at) is None ==> refresh_due(
                rt,
                updated_at,
                now,
                clock,
                stale_sec,
                lead,
            )
            &&& instant_of(updated_at) == Some(at) ==> (refresh_due(
                rt,
                updated_at,
                now,
                clock,
                stale_sec,
                lead,
            ) <==> stale_sec - seconds_between(at, clock) <= lead)
        },
{
}

/// A session that is new is healthy and idle, has no server and no limits that are known, and may
/// be started at once.
pub proof fn a_new_session_is_ready(now: u128)
    ensures
        default_session().health == "healthy"@,
        default_session().server_state == "stopped"@,
        default_session().server_pid == 0,
        default_session().restart_count == 0,
        default_session().limit_id == "codex"@,
        default_session().primary is None,
        default_session().secondary is None,
        default_session().usage_left_percent == 30,
        default_session().active_turns == 0,
        default_session().last_rate_limit_update_at.len() == 0,
        default_session().last_probe_at.len() == 0,
        default_session().last_probe_result.len() == 0,
        default_session().last_selected_at.len() == 0,
        fresh_runtime(now).restart_count == 0,
        fresh_runtime(now).restart_attempt == 0,
        fresh_runtime(now).restart_times.len() == 0,
        fresh_runtime(now).next_refresh_at == now,
        fresh_runtime(now).unhealthy_until is None,
        start_due(fresh_runtime(now), default_session(), now),
{
    reveal_strlit("");
}

/// Messages and limits with everyday numbers are in range: used percentages that are not far below
/// nought, and a number of turns that can still be counted on.
pub proof fn everyday_messages_are_in_range(sess: SessionView, msg: Tree, limits: Tree)
    requires
        forall|window: Tree|
            (limits.field("primary"@) == Some(window) || limits.field("secondary"@) == Some(window))
                && #[trigger] window.integer_field("usedPercent"@) is Some
                ==> window.integer_field("usedPercent"@)->0 >= -1_000_000,
        sess.active_turns < 9_223_372_036_854_775_807,
        sess.active_turns >= 0,
    ensures
        limits_in_range(limits),
        limits_in(msg) is None || limits_in(msg) == Some(limits) ==> message_in_range(sess, msg),
{
}

/// A time reads back as it was written where its year has four figures and it is no leap second.
pub proof fn plain_times_read_back(clock: Timestamp)
    ensures
        reads_back(clock) <==> -62_167_219_200 <= clock.secs <= 253_402_300_799 && clock.nanos
            < 1_000_000_000,
{
}

/// A probe that found the rate limits has them, even at its deadline; else it listens on until the
/// deadline, and is over from then on.
pub proof fn probes_listen_until_the_deadline(found: bool, now: u128, deadline: u128)
    ensures
        probe_step(found, now, deadline) is Found <==> found,
        probe_step(found, now, deadline) is Listen <==> !found && deadline > now,
        probe_step(found, now, deadline) is Over <==> !found && deadline <= now,
{
}

/// An answer that holds rate limits sets them whatever else the message is, unless it is a report of
/// limits itself; and whatever limits a message holds, the start and the end of a turn count and the
/// state of a thread is the health.
pub proof fn limits_and_notices_do_not_hinder_each_other(
    sess: SessionView,
    msg: Tree,
    limits: Tree,
    now: Seq<char>,
)
    ensures
        ({
            let after = after_message(sess, msg, now);
            let told = with_limits(sess, limits, now);
            let method = msg.text_field("method"@);
            &&& method != Some("account/rateLimits/updated"@) && msg.nested(
                "result"@,
                "rateLimits"@,
            ) == Some(limits) ==> {
                &&& after.limit_id == told.limit_id
                &&& after.primary == told.primary
                &&& after.secondary == told.secondary
                &&& after.usage_left_percent == told.usage_left_percent
                &&& after.last_rate_limit_update_at == now
            }
            &&& method == Some("turn/started"@) ==> after.active_turns == sess.active_turns + 1
            &&& method == Some("turn/completed"@) && sess.active_turns >= 1 ==> after.active_turns
                == sess.active_turns - 1
            &&& method == Some("turn/completed"@) && sess.active_turns < 1 ==> after.active_turns
                == 0
            &&& method != Some("turn/started"@) && method != Some("turn/completed"@)
                ==> after.active_turns == sess.active_turns
            &&& method != Some("thread/status/changed"@) ==> after.health == sess.health
            &&& method == Some("thread/status/changed"@) && msg.nested(
                "params"@,
                "status"@,
            ) is None ==> after.health == sess.health
        }),
{
    methods_differ();
}

/// The number of attempts that is counted stays at the greatest number there is.
pub proof fn attempts_are_counted_up_to_the_greatest(rt: RuntimeView, now: u128, nanos: int)
    requires
        rt.restart_attempt == usize::MAX,
    ensures
        rescheduled(rt, now, nanos).restart_attempt == usize::MAX,
        rescheduled(rt, now, nanos).next_restart_at - now == restart_delay(
            rt.restart_attempt,
            nanos,
        ),
{
}

} // verus!
