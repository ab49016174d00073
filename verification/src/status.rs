//! The status of the sessions, and how the best one is picked by it.
use vstd::prelude::*;

use crate::config::{Sessions, SessionsView};
use crate::error::{Error, ErrorKind};
use crate::map::{entry_is_mapped, TextMap};
use crate::numbers::{signed_decimal, write_signed};
use crate::path::file_part;
use crate::state::{plain_name, staging_path, writes, FileWrite, Store, PRIVATE_FILE_MODE};
use crate::text::{before, before_is_irreflexive, before_is_total, before_is_transitive};
use crate::text::{same_text, sorts_before};
use crate::time::{instant_of, now_rfc3339, parse_ts, seconds_between, seconds_since};
use crate::time::{is_clock_text, toward_zero, Timestamp};

verus! {

// ---------------------------------------------------------------------------
// The status file
// ---------------------------------------------------------------------------
/// The factors of the score.
#[derive(Debug, Clone)]
pub struct ScoringConfig {
    pub stale_sec: i64,
    pub busy_penalty: i64,
    pub unknown_usage_left_percent: i64,
    pub usage_primary_weight_percent: i64,
    pub usage_secondary_weight_percent: i64,
    pub restart_penalty_per_restart: i64,
    pub restart_penalty_cap: i64,
    pub staleness_penalty_max: i64,
}

/// What is known of the sessions.
#[derive(Debug, Clone)]
pub struct StatusFile {
    pub version: u32,
    pub updated_at: String,
    pub daemon: DaemonStatus,
    pub sessions: TextMap<SessionStatus>,
}

/// The process that keeps the status.
#[derive(Debug, Clone)]
pub struct DaemonStatus {
    pub pid: i32,
    pub started_at: String,
}

/// What is known of one session.
#[derive(Debug, Clone)]
pub struct SessionStatus {
    pub health: String,
    pub app_server: AppServerStatus,
    pub rate_limits: RateLimits,
    pub usage_left_percent: i64,
    pub activity: Activity,
    pub last_rate_limit_update_at: String,
    pub last_probe_at: String,
    pub last_probe_result: String,
    pub last_selected_at: String,
}

/// The server process of a session.
#[derive(Debug, Clone)]
pub struct AppServerStatus {
    pub state: String,
    pub pid: i32,
    pub restart_count: i64,
}

/// The rate limits of a session.
#[derive(Debug, Clone)]
pub struct RateLimits {
    pub limit_id: String,
    pub primary: Option<RateWindow>,
    pub secondary: Option<RateWindow>,
}

/// How much of a rate limit is used.
#[derive(Debug, Clone, Copy, PartialEq, Eq, Structural)]
pub struct RateWindow {
    pub used_percent: i64,
    pub window_duration_mins: i64,
    pub resets_at: i64,
}

/// What a session is doing.
#[derive(Debug, Clone, Copy, PartialEq, Eq, Structural)]
pub struct Activity {
    pub active_turns: i64,
}

impl StatusFile {
    pub open spec fn wf(&self) -> bool {
        self.sessions.wf()
    }
}

/// What the status of a session says.
pub struct SessionView {
    pub health: Seq<char>,
    pub server_state: Seq<char>,
    pub server_pid: int,
    pub restart_count: int,
    pub limit_id: Seq<char>,
    pub primary: Option<RateWindow>,
    pub secondary: Option<RateWindow>,
    pub usage_left_percent: int,
    pub active_turns: int,
    pub last_rate_limit_update_at: Seq<char>,
    pub last_probe_at: Seq<char>,
    pub last_probe_result: Seq<char>,
    pub last_selected_at: Seq<char>,
}

impl View for SessionStatus {
    type V = SessionView;

    open spec fn view(&self) -> SessionView {
        SessionView {
            health: self.health@,
            server_state: self.app_server.state@,
            server_pid: self.app_server.pid as int,
            restart_count: self.app_server.restart_count as int,
            limit_id: self.rate_limits.limit_id@,
            primary: self.rate_limits.primary,
            secondary: self.rate_limits.secondary,
            usage_left_percent: self.usage_left_percent as int,
            active_turns: self.activity.active_turns as int,
            last_rate_limit_update_at: self.last_rate_limit_update_at@,
            last_probe_at: self.last_probe_at@,
            last_probe_result: self.last_probe_result@,
            last_selected_at: self.last_selected_at@,
        }
    }
}

impl Default for StatusFile {
    fn default() -> (r: Self)
        ensures
            r.wf(),
            r.version == 0,
            r.updated_at@ == ""@,
            r.daemon.pid == 0,
            r.daemon.started_at@ == ""@,
            r.sessions.map() == Map::<Seq<char>, SessionStatus>::empty(),
    {
        StatusFile {
            version: 0,
            updated_at: "".to_string(),
            daemon: DaemonStatus::default(),
            sessions: TextMap::new(),
        }
    }
}

impl Default for DaemonStatus {
    fn default() -> (r: Self)
        ensures
            r.pid == 0,
            r.started_at@ == ""@,
    {
        DaemonStatus { pid: 0, started_at: "".to_string() }
    }
}

impl Default for SessionStatus {
    fn default() -> (r: Self)
        ensures
            r.health@ == ""@,
            r.app_server.state@ == ""@,
            r.app_server.pid == 0,
            r.app_server.restart_count == 0,
            r.rate_limits.limit_id@ == ""@,
            r.rate_limits.primary is None,
            r.rate_limits.secondary is None,
            r.usage_left_percent == 0,
            r.activity.active_turns == 0,
            r.last_rate_limit_update_at@ == ""@,
            r.last_probe_at@ == ""@,
            r.last_probe_result@ == ""@,
            r.last_selected_at@ == ""@,
    {
        SessionStatus {
            health: "".to_string(),
            app_server: AppServerStatus::default(),
            rate_limits: RateLimits::default(),
            usage_left_percent: 0,
            activity: Activity::default(),
            last_rate_limit_update_at: "".to_string(),
            last_probe_at: "".to_string(),
            last_probe_result: "".to_string(),
            last_selected_at: "".to_string(),
        }
    }
}

impl Default for AppServerStatus {
    fn default() -> (r: Self)
        ensures
            r.state@ == ""@,
            r.pid == 0,
            r.restart_count == 0,
    {
        AppServerStatus { state: "".to_string(), pid: 0, restart_count: 0 }
    }
}

impl Default for RateLimits {
    fn default() -> (r: Self)
        ensures
            r.limit_id@ == ""@,
            r.primary is None,
            r.secondary is None,
    {
        RateLimits { limit_id: "".to_string(), primary: None, secondary: None }
    }
}

impl Default for RateWindow {
    fn default() -> (r: Self)
        ensures
            r == (RateWindow { used_percent: 0, window_duration_mins: 0, resets_at: 0 }),
    {
        RateWindow { used_percent: 0, window_duration_mins: 0, resets_at: 0 }
    }
}

impl Default for Activity {
    fn default() -> (r: Self)
        ensures
            r == (Activity { active_turns: 0 }),
    {
        Activity { active_turns: 0 }
    }
}

impl ScoringConfig {
    /// The factors that the settings for sessions give.
    pub open spec fn of(s: SessionsView) -> ScoringConfig {
        ScoringConfig {
            stale_sec: s.stale_sec as i64,
            busy_penalty: s.busy_penalty as i64,
            unknown_usage_left_percent: s.unknown_usage_left_percent as i64,
            usage_primary_weight_percent: s.usage_primary_weight_percent as i64,
            usage_secondary_weight_percent: s.usage_secondary_weight_percent as i64,
            restart_penalty_per_restart: s.restart_penalty_per_restart as i64,
            restart_penalty_cap: s.restart_penalty_cap as i64,
            staleness_penalty_max: s.staleness_penalty_max as i64,
        }
    }
}

impl Default for ScoringConfig {
    fn default() -> (r: Self)
        ensures
            r == ScoringConfig::of(crate::config::default_settings().sessions),
    {
        ScoringConfig {
            stale_sec: 420,
            busy_penalty: 5,
            unknown_usage_left_percent: 30,
            usage_primary_weight_percent: 60,
            usage_secondary_weight_percent: 40,
            restart_penalty_per_restart: 2,
            restart_penalty_cap: 20,
            staleness_penalty_max: 10,
        }
    }
}

impl From<&Sessions> for ScoringConfig {
    fn from(s: &Sessions) -> (r: Self) {
        ScoringConfig {
            stale_sec: s.stale_sec,
            busy_penalty: s.busy_penalty,
            unknown_usage_left_percent: s.unknown_usage_left_percent,
            usage_primary_weight_percent: s.usage_primary_weight_percent,
            usage_secondary_weight_percent: s.usage_secondary_weight_percent,
            restart_penalty_per_restart: s.restart_penalty_per_restart,
            restart_penalty_cap: s.restart_penalty_cap,
            staleness_penalty_max: s.staleness_penalty_max,
        }
    }
}

impl vstd::std_specs::convert::FromSpecImpl<&Sessions> for ScoringConfig {
    open spec fn obeys_from_spec() -> bool {
        true
    }

    open spec fn from_spec(s: &Sessions) -> Self {
        ScoringConfig::of(s@)
    }
}

// ---------------------------------------------------------------------------
// Scores
// ---------------------------------------------------------------------------
/// `n`, pulled into the range from `low` to `high`.
pub open spec fn clamped(n: int, low: int, high: int) -> int {
    if n < low {
        low
    } else if n > high {
        high
    } else {
        n
    }
}

pub open spec fn larger(a: int, b: int) -> int {
    if a >= b {
        a
    } else {
        b
    }
}

pub open spec fn smaller(a: int, b: int) -> int {
    if a <= b {
        a
    } else {
        b
    }
}

/// The percentage that is left of a rate limit.
pub open spec fn left_of(window: RateWindow) -> int {
    clamped(100 - window.used_percent, 0, 100)
}

/// The percentage that is left of both rate limits, weighted; of the one that is known; or the
/// percentage that stands for what is not known.
pub open spec fn usage_left(sess: SessionStatus, cfg: ScoringConfig) -> int {
    match (sess.rate_limits.primary, sess.rate_limits.secondary) {
        (Some(p), Some(s)) => toward_zero(
            left_of(p) * cfg.usage_primary_weight_percent + left_of(s)
                * cfg.usage_secondary_weight_percent,
            larger(cfg.usage_primary_weight_percent + cfg.usage_secondary_weight_percent, 1),
        ),
        (Some(p), None) => left_of(p),
        (None, Some(s)) => left_of(s),
        (None, None) => cfg.unknown_usage_left_percent as int,
    }
}

/// The age in seconds at `now` of what was learned at the time `updated_at`, where that can be
/// read.
pub open spec fn age_at(updated_at: Seq<char>, now: Timestamp) -> Option<int> {
    match instant_of(updated_at) {
        Some(at) => Some(seconds_between(at, now)),
        None => None,
    }
}

/// The age in seconds of the rate limits of a session, where the time of their update can be
/// read.
pub open spec fn age_of(sess: SessionStatus, now: Timestamp) -> Option<int> {
    age_at(sess.last_rate_limit_update_at@, now)
}

/// Whether a session whose rate limits have the age `age` can be picked: it is healthy and they
/// are not stale.
pub open spec fn eligible_at(sess: SessionStatus, age: Option<int>, cfg: ScoringConfig) -> bool {
    &&& sess.health@ == "healthy"@
    &&& age is Some
    &&& age->0 <= cfg.stale_sec
}

/// Whether a session can be picked.
pub open spec fn eligible(sess: SessionStatus, now: Timestamp, cfg: ScoringConfig) -> bool {
    eligible_at(sess, age_of(sess, now), cfg)
}

/// What a session loses for its restarts.
pub open spec fn restart_penalty(sess: SessionStatus, cfg: ScoringConfig) -> int {
    smaller(
        larger(sess.app_server.restart_count as int, 0) * cfg.restart_penalty_per_restart,
        cfg.restart_penalty_cap as int,
    )
}

/// What a session loses for the age of its rate limits.
pub open spec fn staleness_penalty(age: int, cfg: ScoringConfig) -> int {
    if age > 0 {
        clamped(
            toward_zero(age * cfg.staleness_penalty_max, cfg.stale_sec as int),
            0,
            cfg.staleness_penalty_max as int,
        )
    } else {
        0
    }
}

/// What decides between sessions, in the order of the fields.
pub struct Rank {
    pub score: int,
    pub usage_left: int,
    pub active_turns: int,
    pub last_selected_at: Option<Timestamp>,
    pub alias: Seq<char>,
}

/// The rank of a session that can be picked, whose rate limits have the age `age` and that was
/// selected last at `last_selected_at`.
pub open spec fn rank_at(
    alias: Seq<char>,
    sess: SessionStatus,
    age: int,
    last_selected_at: Option<Timestamp>,
    cfg: ScoringConfig,
) -> Rank {
    let left = clamped(usage_left(sess, cfg), 0, 100);
    let turns = larger(sess.activity.active_turns as int, 0);
    Rank {
        score: left - turns * cfg.busy_penalty - restart_penalty(sess, cfg) - staleness_penalty(
            age,
            cfg,
        ),
        usage_left: left,
        active_turns: turns,
        last_selected_at,
        alias,
    }
}

/// The rank of a session that can be picked.
pub open spec fn rank_of(
    alias: Seq<char>,
    sess: SessionStatus,
    now: Timestamp,
    cfg: ScoringConfig,
) -> Rank {
    rank_at(alias, sess, age_of(sess, now)->0, instant_of(sess.last_selected_at@), cfg)
}

/// Whether `a` was selected longer ago than `b`; never counts as longest ago.
pub open spec fn selected_longer_ago(a: Option<Timestamp>, b: Option<Timestamp>) -> bool {
    match (a, b) {
        (Some(x), Some(y)) => x.earlier(y),
        (None, Some(_)) => true,
        (_, None) => false,
    }
}

/// Whether `a` is picked rather than `b`: by the higher score, then by the more usage left, then
/// by the fewer active turns, then by the longer time since it was selected, then by the alias
/// that sorts first.
pub open spec fn outranks(a: Rank, b: Rank) -> bool {
    if a.score != b.score {
        a.score > b.score
    } else if a.usage_left != b.usage_left {
        a.usage_left > b.usage_left
    } else if a.active_turns != b.active_turns {
        a.active_turns < b.active_turns
    } else if a.last_selected_at != b.last_selected_at {
        selected_longer_ago(a.last_selected_at, b.last_selected_at)
    } else {
        before(a.alias, b.alias)
    }
}

/// Whether `alias` is the session to pick: it can be picked and outranks every other session
/// that can.
pub open spec fn is_best(
    sessions: Map<Seq<char>, SessionStatus>,
    now: Timestamp,
    cfg: ScoringConfig,
    alias: Seq<char>,
) -> bool {
    &&& sessions.contains_key(alias)
    &&& eligible(sessions[alias], now, cfg)
    &&& forall|other: Seq<char>|
        #![trigger sessions.contains_key(other)]
        sessions.contains_key(other) && other != alias && eligible(sessions[other], now, cfg)
            ==> outranks(
            rank_of(alias, sessions[alias], now, cfg),
            rank_of(other, sessions[other], now, cfg),
        )
}

/// Whether no session can be picked.
pub open spec fn none_eligible(
    sessions: Map<Seq<char>, SessionStatus>,
    now: Timestamp,
    cfg: ScoringConfig,
) -> bool {
    forall|alias: Seq<char>|
        #![trigger sessions.contains_key(alias)]
        sessions.contains_key(alias) ==> !eligible(sessions[alias], now, cfg)
}

// ---------------------------------------------------------------------------
// Ranges
// ---------------------------------------------------------------------------
pub open spec fn fits(n: int) -> bool {
    i64::MIN <= n <= i64::MAX
}

pub open spec fn window_in_range(window: Option<RateWindow>) -> bool {
    window is Some ==> fits(100 - window->0.used_percent)
}

/// Whether `usage_left` can be computed in the range of `i64`.
pub open spec fn usage_in_range(sess: SessionStatus, cfg: ScoringConfig) -> bool {
    &&& window_in_range(sess.rate_limits.primary)
    &&& window_in_range(sess.rate_limits.secondary)
    &&& (sess.rate_limits.primary is Some && sess.rate_limits.secondary is Some) ==> {
        let p = left_of(sess.rate_limits.primary->0) * cfg.usage_primary_weight_percent;
        let s = left_of(sess.rate_limits.secondary->0) * cfg.usage_secondary_weight_percent;
        &&& fits(cfg.usage_primary_weight_percent + cfg.usage_secondary_weight_percent)
        &&& fits(p)
        &&& fits(s)
        &&& fits(p + s)
    }
}

/// Whether the penalties and the score of a session whose rate limits have the age `age` can be
/// computed in the range of `i64`.
pub open spec fn score_in_range(sess: SessionStatus, age: int, cfg: ScoringConfig) -> bool {
    let left = clamped(usage_left(sess, cfg), 0, 100);
    let busy = larger(sess.activity.active_turns as int, 0) * cfg.busy_penalty;
    let restarts = larger(sess.app_server.restart_count as int, 0)
        * cfg.restart_penalty_per_restart;
    &&& fits(restarts)
    &&& age > 0 ==> cfg.staleness_penalty_max >= 0 && fits(age * cfg.staleness_penalty_max)
    &&& fits(busy)
    &&& fits(left - busy)
    &&& fits(left - busy - restart_penalty(sess, cfg))
    &&& fits(left - busy - restart_penalty(sess, cfg) - staleness_penalty(age, cfg))
}

/// Whether the rank of a session whose rate limits have the age `age` can be computed in the range
/// of `i64`, if it is needed at all.
pub open spec fn rankable_at(sess: SessionStatus, age: Option<int>, cfg: ScoringConfig) -> bool {
    eligible_at(sess, age, cfg) ==> usage_in_range(sess, cfg) && score_in_range(sess, age->0, cfg)
}

/// Whether the rank of a session can be computed in the range of `i64`, if it is needed at all.
pub open spec fn rankable(sess: SessionStatus, now: Timestamp, cfg: ScoringConfig) -> bool {
    rankable_at(sess, age_of(sess, now), cfg)
}

/// Whether the rank of every session can be computed in the range of `i64`.
pub open spec fn all_rankable(
    sessions: Map<Seq<char>, SessionStatus>,
    now: Timestamp,
    cfg: ScoringConfig,
) -> bool {
    forall|alias: Seq<char>|
        #![trigger sessions.contains_key(alias)]
        sessions.contains_key(alias) ==> rankable(sessions[alias], now, cfg)
}

// ---------------------------------------------------------------------------
// Picking
// ---------------------------------------------------------------------------
/// The percentage that is left of a rate limit, where it is known.
pub fn window_left(window: &Option<RateWindow>) -> (r: Option<i64>)
    requires
        window_in_range(*window),
    ensures
        match r {
            Some(left) => *window is Some && left == left_of((*window)->0),
            None => *window is None,
        },
{
    match window {
        Some(w) => {
            let left: i64 = 100 - w.used_percent;
            Some(
                if left < 0 {
                    0
                } else if left > 100 {
                    100
                } else {
                    left
                },
            )
        },
        None => None,
    }
}

/// The percentage of the usage that is left to a session.
pub fn compute_usage_left(sess: &SessionStatus, cfg: &ScoringConfig) -> (r: i64)
    requires
        usage_in_range(*sess, *cfg),
    ensures
        r == usage_left(*sess, *cfg),
{
    let primary_left = window_left(&sess.rate_limits.primary);
    let secondary_left = window_left(&sess.rate_limits.secondary);
    match (primary_left, secondary_left) {
        (Some(p), Some(s)) => {
            let total: i64 = cfg.usage_primary_weight_percent + cfg.usage_secondary_weight_percent;
            let divisor: i64 = if total >= 1 {
                total
            } else {
                1
            };
            let weighted: i64 = p * cfg.usage_primary_weight_percent + s
                * cfg.usage_secondary_weight_percent;
            weighted / divisor
        },
        (Some(p), None) => p,
        (None, Some(s)) => s,
        (None, None) => cfg.unknown_usage_left_percent,
    }
}

/// A session that can be picked, with what decides between it and others.
#[derive(Debug, Clone)]
pub struct Candidate {
    pub alias: String,
    pub score: i64,
    pub usage_left: i64,
    pub active_turns: i64,
    pub last_selected_at: Option<Timestamp>,
}

impl View for Candidate {
    type V = Rank;

    open spec fn view(&self) -> Rank {
        Rank {
            score: self.score as int,
            usage_left: self.usage_left as int,
            active_turns: self.active_turns as int,
            last_selected_at: self.last_selected_at,
            alias: self.alias@,
        }
    }
}

/// An age that may not be known, as a mathematical value.
pub open spec fn known_age(age: Option<i64>) -> Option<int> {
    match age {
        Some(age) => Some(age as int),
        None => None,
    }
}

/// The age in seconds of the rate limits of a session at `now`, where it is known.
pub fn limits_age(sess: &SessionStatus, now: Timestamp) -> (age: Option<i64>)
    requires
        now.wf(),
    ensures
        known_age(age) == age_of(*sess, now),
{
    match parse_ts(sess.last_rate_limit_update_at.as_str()) {
        Some(at) => Some(seconds_since(now, at)),
        None => None,
    }
}

/// The session `alias` as a candidate, where it can be picked.
pub fn to_candidate(
    alias: &str,
    sess: &SessionStatus,
    now: Timestamp,
    cfg: &ScoringConfig,
) -> (r: Option<Candidate>)
    requires
        now.wf(),
        rankable(*sess, now, *cfg),
    ensures
        match r {
            Some(c) => eligible(*sess, now, *cfg) && c@ == rank_of(alias@, *sess, now, *cfg),
            None => !eligible(*sess, now, *cfg),
        },
{
    let age = limits_age(sess, now);
    let last_selected_at = parse_ts(sess.last_selected_at.as_str());
    rank_session(alias, sess, age, last_selected_at, cfg)
}

/// The session `alias` as a candidate, where it can be picked, given the age of its rate limits and
/// when it was selected last, where these are known.
pub fn rank_session(
    alias: &str,
    sess: &SessionStatus,
    age: Option<i64>,
    last_selected_at: Option<Timestamp>,
    cfg: &ScoringConfig,
) -> (r: Option<Candidate>)
    requires
        rankable_at(*sess, known_age(age), *cfg),
    ensures
        match r {
            Some(c) => eligible_at(*sess, known_age(age), *cfg) && c@ == rank_at(
                alias@,
                *sess,
                age->0 as int,
                last_selected_at,
                *cfg,
            ),
            None => !eligible_at(*sess, known_age(age), *cfg),
        },
{
    if !same_text(sess.health.as_str(), "healthy") {
        return None;
    }
    let age: i64 = match age {
        Some(age) => age,
        None => {
            return None;
        },
    };
    if age > cfg.stale_sec {
        return None;
    }
    let usage: i64 = compute_usage_left(sess, cfg);
    let usage_left: i64 = if usage < 0 {
        0
    } else if usage > 100 {
        100
    } else {
        usage
    };
    let active_turns: i64 = if sess.activity.active_turns >= 0 {
        sess.activity.active_turns
    } else {
        0
    };
    let restarts: i64 = if sess.app_server.restart_count >= 0 {
        sess.app_server.restart_count
    } else {
        0
    };
    let raw_restart_penalty: i64 = restarts * cfg.restart_penalty_per_restart;
    let restart_penalty: i64 = if raw_restart_penalty <= cfg.restart_penalty_cap {
        raw_restart_penalty
    } else {
        cfg.restart_penalty_cap
    };
    let staleness_penalty: i64 = if age > 0 {
        let share: i64 = age * cfg.staleness_penalty_max / cfg.stale_sec;
        if share < 0 {
            0
        } else if share > cfg.staleness_penalty_max {
            cfg.staleness_penalty_max
        } else {
            share
        }
    } else {
        0
    };
    let busy: i64 = active_turns * cfg.busy_penalty;
    let score: i64 = usage_left - busy - restart_penalty - staleness_penalty;
    Some(
        Candidate {
            alias: alias.to_string(),
            score,
            usage_left,
            active_turns,
            last_selected_at,
        },
    )
}

fn is_longer_ago(a: &Option<Timestamp>, b: &Option<Timestamp>) -> (r: bool)
    ensures
        r == selected_longer_ago(*a, *b),
{
    match (a, b) {
        (Some(x), Some(y)) => x.is_earlier(y),
        (None, Some(_)) => true,
        (_, None) => false,
    }
}

/// Whether the candidate `a` is picked rather than `b`.
pub fn is_preferred(a: &Candidate, b: &Candidate) -> (r: bool)
    ensures
        r == outranks(a@, b@),
{
    if a.score != b.score {
        a.score > b.score
    } else if a.usage_left != b.usage_left {
        a.usage_left > b.usage_left
    } else if a.active_turns != b.active_turns {
        a.active_turns < b.active_turns
    } else if is_longer_ago(&a.last_selected_at, &b.last_selected_at) {
        true
    } else if is_longer_ago(&b.last_selected_at, &a.last_selected_at) {
        false
    } else {
        sorts_before(a.alias.as_str(), b.alias.as_str())
    }
}

/// Of two candidates with different aliases one outranks the other.
pub proof fn outranks_is_total(a: Rank, b: Rank)
    requires
        a.alias != b.alias,
    ensures
        outranks(a, b) || outranks(b, a),
{
    before_is_total(a.alias, b.alias);
}

/// Nothing outranks itself.
pub proof fn outranks_is_irreflexive(a: Rank)
    ensures
        !outranks(a, a),
{
    before_is_irreflexive(a.alias);
}

/// What outranks a candidate outranks whatever that one outranks.
pub proof fn outranks_is_transitive(a: Rank, b: Rank, c: Rank)
    requires
        outranks(a, b),
        outranks(b, c),
    ensures
        outranks(a, c),
{
    if before(a.alias, b.alias) && before(b.alias, c.alias) {
        before_is_transitive(a.alias, b.alias, c.alias);
    }
}

/// The place of the candidate that is picked, where there is one. No two candidates may have the
/// same alias.
pub fn best_candidate(candidates: &Vec<Candidate>) -> (r: Option<usize>)
    requires
        forall|i: int, j: int|
            0 <= i < j < candidates@.len() ==> (#[trigger] candidates@[i]).alias@ != (
            #[trigger] candidates@[j]).alias@,
    ensures
        match r {
            Some(best) => best < candidates@.len() && forall|j: int|
                0 <= j < candidates@.len() && j != best ==> outranks(
                    candidates@[best as int]@,
                    (#[trigger] candidates@[j])@,
                ),
            None => candidates@.len() == 0,
        },
{
    if candidates.len() == 0 {
        return None;
    }
    let mut best: usize = 0;
    let mut i: usize = 1;
    while i < candidates.len()
        invariant
            best < i <= candidates@.len(),
            forall|j: int, k: int|
                0 <= j < k < candidates@.len() ==> (#[trigger] candidates@[j]).alias@ != (
                #[trigger] candidates@[k]).alias@,
            forall|j: int|
                0 <= j < i && j != best ==> outranks(
                    candidates@[best as int]@,
                    (#[trigger] candidates@[j])@,
                ),
        decreases candidates@.len() - i,
    {
        let replace = is_preferred(&candidates[i], &candidates[best]);
        proof {
            let b = candidates@[best as int]@;
            let c = candidates@[i as int]@;
            assert(candidates@[best as int].alias@ != candidates@[i as int].alias@);
            outranks_is_total(b, c);
            if replace {
                assert forall|j: int| 0 <= j < i implies outranks(c, (#[trigger] candidates@[j])@) by {
                    if j != best {
                        outranks_is_transitive(c, b, candidates@[j]@);
                    }
                }
            }
        }
        if replace {
            best = i;
        }
        i += 1;
    }
    Some(best)
}

/// The alias of the session to pick, where one can be picked. The ranks of the sessions must
/// lie in the range of `i64`.
pub fn pick_best_session_with_config(
    status: &StatusFile,
    now: Timestamp,
    cfg: &ScoringConfig,
) -> (r: Option<String>)
    requires
        status.wf(),
        now.wf(),
        all_rankable(status.sessions.map(), now, *cfg),
    ensures
        match r {
            Some(alias) => is_best(status.sessions.map(), now, *cfg, alias@),
            None => none_eligible(status.sessions.map(), now, *cfg),
        },
{
    let ghost entries = status.sessions@;
    let ghost sessions = status.sessions.map();
    let mut candidates: Vec<Candidate> = Vec::new();
    // Where each candidate stands among the sessions, and which candidate each session is.
    let ghost mut places: Seq<int> = seq![];
    let ghost mut ranks: Seq<int> = seq![];
    let mut i: usize = 0;
    while i < status.sessions.len()
        invariant
            status.wf(),
            now.wf(),
            entries == status.sessions@,
            sessions == status.sessions.map(),
            all_rankable(sessions, now, *cfg),
            i <= entries.len(),
            places.len() == candidates@.len(),
            ranks.len() == i,
            forall|k: int|
                0 <= k < places.len() ==> 0 <= #[trigger] places[k] < i && eligible(
                    entries[places[k]].1,
                    now,
                    *cfg,
                ) && candidates@[k]@ == rank_of(
                    entries[places[k]].0,
                    entries[places[k]].1,
                    now,
                    *cfg,
                ),
            forall|k: int, m: int|
                0 <= k < m < places.len() ==> #[trigger] places[k] < #[trigger] places[m],
            forall|j: int|
                0 <= j < i && eligible((#[trigger] entries[j]).1, now, *cfg) ==> 0 <= ranks[j]
                    < places.len() && places[ranks[j]] == j,
        decreases entries.len() - i,
    {
        proof {
            entry_is_mapped(entries, i as int);
            ranks = ranks.push(candidates@.len() as int);
        }
        let found = to_candidate(
            status.sessions.key_at(i).as_str(),
            status.sessions.value_at(i),
            now,
            cfg,
        );
        if let Some(c) = found {
            candidates.push(c);
            proof {
                places = places.push(i as int);
            }
        }
        i += 1;
    }
    proof {
        assert forall|k: int, m: int| 0 <= k < m < candidates@.len() implies (
        #[trigger] candidates@[k]).alias@ != (#[trigger] candidates@[m]).alias@ by {
            assert(places[k] < places[m]);
            before_is_irreflexive(entries[places[k]].0);
            assert(before(entries[places[k]].0, entries[places[m]].0));
        }
    }
    match best_candidate(&candidates) {
        Some(best) => {
            let alias = candidates[best].alias.clone();
            proof {
                let at = places[best as int];
                entry_is_mapped(entries, at);
                assert forall|other: Seq<char>|
                    #![trigger sessions.contains_key(other)]
                    sessions.contains_key(other) && other != alias@ && eligible(
                        sessions[other],
                        now,
                        *cfg,
                    ) implies outranks(
                    rank_of(alias@, sessions[alias@], now, *cfg),
                    rank_of(other, sessions[other], now, *cfg),
                ) by {
                    let j = choose|j: int| 0 <= j < entries.len() && (#[trigger] entries[j]).0 == other;
                    entry_is_mapped(entries, j);
                    assert(candidates@[ranks[j]]@ == rank_of(other, sessions[other], now, *cfg));
                }
            }
            Some(alias)
        },
        None => {
            proof {
                assert forall|alias: Seq<char>|
                    #![trigger sessions.contains_key(alias)]
                    sessions.contains_key(alias) implies !eligible(sessions[alias], now, *cfg) by {
                    let j = choose|j: int| 0 <= j < entries.len() && (#[trigger] entries[j]).0 == alias;
                    entry_is_mapped(entries, j);
                }
            }
            None
        },
    }
}

// ---------------------------------------------------------------------------
// Picking without a condition on the ranks
// ---------------------------------------------------------------------------
/// The product, in a range that holds every product of two `i64`.
fn wide_product(a: i64, b: i64) -> (r: i128)
    ensures
        r == a * b,
{
    proof {
        assert(-0x4000_0000_0000_0000_0000_0000_0000_0000 <= a * b
            <= 0x4000_0000_0000_0000_0000_0000_0000_0000) by (nonlinear_arith)
            requires
                -0x8000_0000_0000_0000 <= a <= 0x7fff_ffff_ffff_ffff,
                -0x8000_0000_0000_0000 <= b <= 0x7fff_ffff_ffff_ffff,
        ;
    }
    (a as i128) * (b as i128)
}

fn wide_fits(n: i128) -> (r: bool)
    ensures
        r == fits(n as int),
{
    -0x8000_0000_0000_0000 <= n && n <= 0x7fff_ffff_ffff_ffff
}

/// Whether `window_left` can be called.
pub fn check_window(window: &Option<RateWindow>) -> (r: bool)
    ensures
        r == window_in_range(*window),
{
    match window {
        Some(w) => wide_fits(100 - w.used_percent as i128),
        None => true,
    }
}

/// Whether `compute_usage_left` can be called.
pub fn check_usage(sess: &SessionStatus, cfg: &ScoringConfig) -> (r: bool)
    ensures
        r == usage_in_range(*sess, *cfg),
{
    if !check_window(&sess.rate_limits.primary) || !check_window(&sess.rate_limits.secondary) {
        return false;
    }
    match (window_left(&sess.rate_limits.primary), window_left(&sess.rate_limits.secondary)) {
        (Some(p), Some(s)) => {
            let weight: i128 = cfg.usage_primary_weight_percent as i128
                + cfg.usage_secondary_weight_percent as i128;
            let a: i128 = wide_product(p, cfg.usage_primary_weight_percent);
            let b: i128 = wide_product(s, cfg.usage_secondary_weight_percent);
            wide_fits(weight) && wide_fits(a) && wide_fits(b) && wide_fits(a + b)
        },
        _ => true,
    }
}

fn check_score(sess: &SessionStatus, age: i64, cfg: &ScoringConfig) -> (r: bool)
    requires
        usage_in_range(*sess, *cfg),
        age <= cfg.stale_sec,
    ensures
        r == score_in_range(*sess, age as int, *cfg),
{
    let usage: i64 = compute_usage_left(sess, cfg);
    let left: i128 = if usage < 0 {
        0
    } else if usage > 100 {
        100
    } else {
        usage as i128
    };
    let turns: i64 = if sess.activity.active_turns >= 0 {
        sess.activity.active_turns
    } else {
        0
    };
    let restarts: i64 = if sess.app_server.restart_count >= 0 {
        sess.app_server.restart_count
    } else {
        0
    };
    let busy: i128 = wide_product(turns, cfg.busy_penalty);
    let raw: i128 = wide_product(restarts, cfg.restart_penalty_per_restart);
    if !wide_fits(raw) || !wide_fits(busy) {
        return false;
    }
    let capped: i128 = if raw <= cfg.restart_penalty_cap as i128 {
        raw
    } else {
        cfg.restart_penalty_cap as i128
    };
    let stale: i128 = if age > 0 {
        if cfg.staleness_penalty_max < 0 {
            return false;
        }
        let aged: i128 = wide_product(age, cfg.staleness_penalty_max);
        if !wide_fits(aged) {
            return false;
        }
        let share: i64 = (aged as i64) / cfg.stale_sec;
        if share < 0 {
            0
        } else if share > cfg.staleness_penalty_max {
            cfg.staleness_penalty_max as i128
        } else {
            share as i128
        }
    } else {
        0
    };
    wide_fits(left - busy) && wide_fits(left - busy - capped) && wide_fits(
        left - busy - capped - stale,
    )
}

/// Whether `rank_session` can be called.
pub fn check_rank_at(sess: &SessionStatus, age: Option<i64>, cfg: &ScoringConfig) -> (r: bool)
    ensures
        r == rankable_at(*sess, known_age(age), *cfg),
{
    if !same_text(sess.health.as_str(), "healthy") {
        return true;
    }
    match age {
        Some(age) => {
            if age > cfg.stale_sec {
                true
            } else {
                check_usage(sess, cfg) && check_score(sess, age, cfg)
            }
        },
        None => true,
    }
}

/// Whether the rank of a session can be computed, if it is needed at all.
pub fn check_rank(sess: &SessionStatus, now: Timestamp, cfg: &ScoringConfig) -> (r: bool)
    requires
        now.wf(),
    ensures
        r == rankable(*sess, now, *cfg),
{
    check_rank_at(sess, limits_age(sess, now), cfg)
}

/// Whether the rank of every session can be computed.
pub fn check_all_ranks(status: &StatusFile, now: Timestamp, cfg: &ScoringConfig) -> (r: bool)
    requires
        status.wf(),
        now.wf(),
    ensures
        r == all_rankable(status.sessions.map(), now, *cfg),
{
    let ghost entries = status.sessions@;
    let ghost sessions = status.sessions.map();
    let mut i: usize = 0;
    while i < status.sessions.len()
        invariant
            status.wf(),
            now.wf(),
            entries == status.sessions@,
            sessions == status.sessions.map(),
            i <= entries.len(),
            forall|j: int| 0 <= j < i ==> rankable((#[trigger] entries[j]).1, now, *cfg),
        decreases entries.len() - i,
    {
        if !check_rank(status.sessions.value_at(i), now, cfg) {
            proof {
                entry_is_mapped(entries, i as int);
                assert(sessions.contains_key(entries[i as int].0));
            }
            return false;
        }
        i += 1;
    }
    proof {
        assert forall|alias: Seq<char>|
            #![trigger sessions.contains_key(alias)]
            sessions.contains_key(alias) implies rankable(sessions[alias], now, *cfg) by {
            let j = choose|j: int| 0 <= j < entries.len() && (#[trigger] entries[j]).0 == alias;
            entry_is_mapped(entries, j);
        }
    }
    true
}

// ---------------------------------------------------------------------------
// The report on a pick
// ---------------------------------------------------------------------------
/// The line of the report for one session.
pub open spec fn report_line(
    alias: Seq<char>,
    sess: SessionStatus,
    now: Timestamp,
    cfg: ScoringConfig,
) -> Seq<char> {
    if eligible(sess, now, cfg) {
        let rank = rank_of(alias, sess, now, cfg);
        "  "@ + alias + ": score "@ + signed_decimal(rank.score) + ", usage left "@
            + signed_decimal(rank.usage_left) + "%, active turns "@ + signed_decimal(
            rank.active_turns,
        ) + "\n"@
    } else {
        "  "@ + alias + ": not eligible\n"@
    }
}

/// The lines of the report for all sessions, in the order of their aliases.
pub open spec fn report_lines(
    entries: Seq<(Seq<char>, SessionStatus)>,
    now: Timestamp,
    cfg: ScoringConfig,
) -> Seq<char>
    decreases entries.len(),
{
    if entries.len() == 0 {
        seq![]
    } else {
        report_lines(entries.drop_last(), now, cfg) + report_line(
            entries.last().0,
            entries.last().1,
            now,
            cfg,
        )
    }
}

/// The report on the pick of `alias`.
pub open spec fn report_text(
    entries: Seq<(Seq<char>, SessionStatus)>,
    now: Timestamp,
    cfg: ScoringConfig,
    alias: Seq<char>,
) -> Seq<char> {
    "session selection report:\n"@ + report_lines(entries, now, cfg) + "selected session: "@
        + alias
}

/// The report on the pick of `alias`: the score of each session and the choice.
pub fn selection_report(
    status: &StatusFile,
    now: Timestamp,
    cfg: &ScoringConfig,
    alias: &str,
) -> (r: String)
    requires
        status.wf(),
        now.wf(),
        all_rankable(status.sessions.map(), now, *cfg),
    ensures
        r@ == report_text(status.sessions@, now, *cfg, alias@),
{
    let ghost entries = status.sessions@;
    let ghost sessions = status.sessions.map();
    let mut r = "session selection report:\n".to_string();
    let mut i: usize = 0;
    proof {
        assert(entries.take(0) =~= seq![]);
        assert(r@ =~= "session selection report:\n"@ + report_lines(entries.take(0), now, *cfg));
    }
    while i < status.sessions.len()
        invariant
            status.wf(),
            now.wf(),
            entries == status.sessions@,
            sessions == status.sessions.map(),
            all_rankable(sessions, now, *cfg),
            i <= entries.len(),
            r@ == "session selection report:\n"@ + report_lines(entries.take(i as int), now, *cfg),
        decreases entries.len() - i,
    {
        proof {
            entry_is_mapped(entries, i as int);
            assert(entries.take(i + 1).drop_last() =~= entries.take(i as int));
            assert(entries.take(i + 1).last() == entries[i as int]);
        }
        let ghost earlier = r@;
        let name = status.sessions.key_at(i);
        let found = to_candidate(name.as_str(), status.sessions.value_at(i), now, cfg);
        let line = match found {
            Some(c) => {
                let score = write_signed(c.score);
                let left = write_signed(c.usage_left);
                let turns = write_signed(c.active_turns);
                "  ".to_string().concat(name.as_str()).concat(": score ").concat(
                    score.as_str(),
                ).concat(", usage left ").concat(left.as_str()).concat("%, active turns ").concat(
                    turns.as_str(),
                ).concat("\n")
            },
            None => "  ".to_string().concat(name.as_str()).concat(": not eligible\n"),
        };
        r.append(line.as_str());
        proof {
            assert(r@ =~= "session selection report:\n"@ + report_lines(
                entries.take(i + 1),
                now,
                *cfg,
            ));
        }
        i += 1;
    }
    proof {
        assert(entries.take(i as int) =~= entries);
    }
    r.append("selected session: ");
    r.append(alias);
    r
}

// ---------------------------------------------------------------------------
// Trying again
// ---------------------------------------------------------------------------
/// The pause between two tries, in milliseconds.
pub const RETRY_PAUSE_MS: u64 = 200;

/// How long a pick is tried, in milliseconds.
pub const PICK_TIMEOUT_MS: u64 = 3000;

/// What to do after one try to pick a session.
#[derive(Debug)]
pub enum RetryStep {
    /// Use this session; the report says why.
    Picked { alias: String, report: String },
    /// There is nothing to pick and no time left.
    GiveUp,
    /// Try again after so many milliseconds.
    Pause(u64),
    /// A rank lies out of the range of `i64`.
    OutOfRange,
}

/// One try to pick a session from the status as it was read just now; `None` stands for a
/// status that could not be read. `clock_ms` is the time on a clock that only runs forward,
/// and `deadline_ms` the time on it at which the tries end.
pub fn pick_best_session_with_retry_and_config(
    status: Option<&StatusFile>,
    now: Timestamp,
    cfg: &ScoringConfig,
    clock_ms: u64,
    deadline_ms: u64,
) -> (step: RetryStep)
    requires
        status is Some ==> status->0.wf(),
        now.wf(),
    ensures
        match step {
            RetryStep::Picked { alias, report } => {
                &&& status is Some
                &&& all_rankable(status->0.sessions.map(), now, *cfg)
                &&& is_best(status->0.sessions.map(), now, *cfg, alias@)
                &&& report@ == report_text(status->0.sessions@, now, *cfg, alias@)
            },
            RetryStep::GiveUp => {
                &&& status is Some ==> none_eligible(status->0.sessions.map(), now, *cfg)
                &&& clock_ms >= deadline_ms
            },
            RetryStep::Pause(ms) => {
                &&& status is Some ==> none_eligible(status->0.sessions.map(), now, *cfg)
                &&& clock_ms < deadline_ms
                &&& ms == RETRY_PAUSE_MS
            },
            RetryStep::OutOfRange => status is Some && !all_rankable(
                status->0.sessions.map(),
                now,
                *cfg,
            ),
        },
{
    match status {
        Some(status) => {
            if !check_all_ranks(status, now, cfg) {
                return RetryStep::OutOfRange;
            }
            match pick_best_session_with_config(status, now, cfg) {
                Some(alias) => {
                    let report = selection_report(status, now, cfg, alias.as_str());
                    return RetryStep::Picked { alias, report };
                },
                None => {},
            }
        },
        None => {},
    }
    if clock_ms >= deadline_ms {
        RetryStep::GiveUp
    } else {
        RetryStep::Pause(RETRY_PAUSE_MS)
    }
}

// ---------------------------------------------------------------------------
// Marking a pick
// ---------------------------------------------------------------------------
/// Whether `after` is `before` with the session `alias` marked as selected at `now`.
pub open spec fn marked(
    before: StatusFile,
    after: StatusFile,
    alias: Seq<char>,
    now: Seq<char>,
) -> bool {
    let old_sess = before.sessions.map()[alias];
    let new_sess = after.sessions.map()[alias];
    &&& after.updated_at@ == now
    &&& after.version == before.version
    &&& after.daemon == before.daemon
    &&& new_sess.last_selected_at@ == now
    &&& new_sess == (SessionStatus { last_selected_at: new_sess.last_selected_at, ..old_sess })
    &&& after.sessions.map() == before.sessions.map().insert(alias, new_sess)
}

/// Marks the session `alias` as selected at `now`, and says whether the status changed: a
/// session that is not known is not marked.
pub fn mark_selected_at(status: &mut StatusFile, alias: &str, now: &str) -> (changed: bool)
    requires
        old(status).wf(),
    ensures
        final(status).wf(),
        changed == old(status).sessions.map().contains_key(alias@),
        changed ==> marked(*old(status), *final(status), alias@, now@),
        !changed ==> *final(status) == *old(status),
{
    match status.sessions.get_mut(alias) {
        Some(sess) => {
            sess.last_selected_at = now.to_string();
        },
        None => {
            return false;
        },
    }
    status.updated_at = now.to_string();
    true
}

/// Marks the session `alias` as selected at the time of the system clock.
pub fn mark_selected(status: &mut StatusFile, alias: &str) -> (changed: bool)
    requires
        old(status).wf(),
    ensures
        final(status).wf(),
        changed == old(status).sessions.map().contains_key(alias@),
        changed ==> exists|now: Seq<char>|
            is_clock_text(now) && #[trigger] marked(*old(status), *final(status), alias@, now),
        !changed ==> *final(status) == *old(status),
{
    let now = now_rfc3339();
    mark_selected_at(status, alias, now.as_str())
}

// ---------------------------------------------------------------------------
// Laws
// ---------------------------------------------------------------------------
/// There is at most one session to pick.
pub proof fn the_best_is_unique(
    sessions: Map<Seq<char>, SessionStatus>,
    now: Timestamp,
    cfg: ScoringConfig,
    a: Seq<char>,
    b: Seq<char>,
)
    requires
        is_best(sessions, now, cfg, a),
        is_best(sessions, now, cfg, b),
    ensures
        a == b,
{
    if a != b {
        let x = rank_of(a, sessions[a], now, cfg);
        let y = rank_of(b, sessions[b], now, cfg);
        assert(outranks(x, y) && outranks(y, x));
        outranks_is_transitive(x, y, x);
        outranks_is_irreflexive(x);
    }
}

/// The session that is picked has the highest score of all that can be picked.
pub proof fn the_best_has_the_highest_score(
    sessions: Map<Seq<char>, SessionStatus>,
    now: Timestamp,
    cfg: ScoringConfig,
    best: Seq<char>,
    other: Seq<char>,
)
    requires
        is_best(sessions, now, cfg, best),
        sessions.contains_key(other),
        eligible(sessions[other], now, cfg),
    ensures
        rank_of(best, sessions[best], now, cfg).score >= rank_of(
            other,
            sessions[other],
            now,
            cfg,
        ).score,
{
}

/// A session that is unhealthy, whose last update cannot be read, or whose last update is older
/// than the limit is never picked.
pub proof fn stale_and_unhealthy_sessions_are_not_picked(
    sessions: Map<Seq<char>, SessionStatus>,
    now: Timestamp,
    cfg: ScoringConfig,
    alias: Seq<char>,
)
    requires
        sessions.contains_key(alias),
        sessions[alias].health@ != "healthy"@ || age_of(sessions[alias], now) is None || age_of(
            sessions[alias],
            now,
        )->0 > cfg.stale_sec,
    ensures
        !is_best(sessions, now, cfg, alias),
{
}

/// With weights that are not negative, the usage left is a percentage.
pub proof fn usage_left_is_a_percentage(sess: SessionStatus, cfg: ScoringConfig)
    requires
        cfg.usage_primary_weight_percent >= 0,
        cfg.usage_secondary_weight_percent >= 0,
        0 <= cfg.unknown_usage_left_percent <= 100,
    ensures
        0 <= usage_left(sess, cfg) <= 100,
{
    match (sess.rate_limits.primary, sess.rate_limits.secondary) {
        (Some(p), Some(s)) => {
            let v = cfg.usage_primary_weight_percent as int;
            let w = cfg.usage_secondary_weight_percent as int;
            let total = larger(v + w, 1);
            let a = left_of(p);
            let b = left_of(s);
            assert(0 <= a * v + b * w <= 100 * total) by (nonlinear_arith)
                requires
                    0 <= a <= 100,
                    0 <= b <= 100,
                    v >= 0,
                    w >= 0,
                    total >= v + w,
            ;
            let n = a * v + b * w;
            assert(0 <= n / total <= 100) by (nonlinear_arith)
                requires
                    0 <= n <= 100 * total,
                    total >= 1,
            ;
        },
        _ => {},
    }
}

/// Where both limits are known and the weights are not negative, a session with no less left of
/// either limit has no less usage left.
pub proof fn usage_left_grows_with_both_windows(
    x: SessionStatus,
    y: SessionStatus,
    cfg: ScoringConfig,
)
    requires
        x.rate_limits.primary is Some && x.rate_limits.secondary is Some,
        y.rate_limits.primary is Some && y.rate_limits.secondary is Some,
        x.rate_limits.primary->0.used_percent >= y.rate_limits.primary->0.used_percent,
        x.rate_limits.secondary->0.used_percent >= y.rate_limits.secondary->0.used_percent,
        cfg.usage_primary_weight_percent >= 0,
        cfg.usage_secondary_weight_percent >= 0,
    ensures
        usage_left(x, cfg) <= usage_left(y, cfg),
{
    let v = cfg.usage_primary_weight_percent as int;
    let w = cfg.usage_secondary_weight_percent as int;
    let total = larger(v + w, 1);
    let a = left_of(x.rate_limits.primary->0);
    let b = left_of(x.rate_limits.secondary->0);
    let c = left_of(y.rate_limits.primary->0);
    let d = left_of(y.rate_limits.secondary->0);
    assert(0 <= a * v + b * w <= c * v + d * w) by (nonlinear_arith)
        requires
            0 <= a <= c,
            0 <= b <= d,
            v >= 0,
            w >= 0,
    ;
    let m = a * v + b * w;
    let n = c * v + d * w;
    assert(m / total <= n / total) by (nonlinear_arith)
        requires
            0 <= m <= n,
            total >= 1,
    ;
}

/// What is said of the status of a session is said of its fields, each by its own name.
pub proof fn the_status_of_a_session_is_its_fields(sess: SessionStatus)
    ensures
        sess@.health == sess.health@,
        sess@.server_state == sess.app_server.state@,
        sess@.server_pid == sess.app_server.pid,
        sess@.restart_count == sess.app_server.restart_count,
        sess@.limit_id == sess.rate_limits.limit_id@,
        sess@.primary == sess.rate_limits.primary,
        sess@.secondary == sess.rate_limits.secondary,
        sess@.usage_left_percent == sess.usage_left_percent,
        sess@.active_turns == sess.activity.active_turns,
        sess@.last_rate_limit_update_at == sess.last_rate_limit_update_at@,
        sess@.last_probe_at == sess.last_probe_at@,
        sess@.last_probe_result == sess.last_probe_result@,
        sess@.last_selected_at == sess.last_selected_at@,
{
}

/// What is left of a rate limit: all of it before it is used, nothing once it is used up, and in
/// between the rest of a hundred percent.
pub proof fn what_is_left_and_what_is_used_make_the_whole(window: RateWindow)
    ensures
        0 <= window.used_percent <= 100 ==> left_of(window) + window.used_percent == 100,
        window.used_percent <= 0 ==> left_of(window) == 100,
        window.used_percent >= 100 ==> left_of(window) == 0,
{
}

/// A quotient rounded toward zero: of natural numbers it is the greatest that does not exceed the
/// exact one, and a negative dividend gives the same with the sign turned.
pub proof fn quotients_are_rounded_toward_zero(n: int, d: int)
    requires
        d > 0,
    ensures
        n >= 0 ==> toward_zero(n, d) * d <= n < (toward_zero(n, d) + 1) * d,
        n < 0 ==> toward_zero(n, d) * d >= n > (toward_zero(n, d) - 1) * d,
{
    let m = if n >= 0 {
        n
    } else {
        -n
    };
    let q = m / d;
    assert(q * d <= m < (q + 1) * d) by (nonlinear_arith)
        requires
            q == m / d,
            d > 0,
    ;
    assert((-q) * d == -(q * d)) by (nonlinear_arith);
    assert((-q - 1) * d == -((q + 1) * d)) by (nonlinear_arith);
}

/// Where both limits are known, the usage left is what is left of each, weighted with the weights
/// of the configuration, whatever these are, and rounded down.
pub proof fn usage_left_is_weighted_as_configured(sess: SessionStatus, cfg: ScoringConfig)
    requires
        sess.rate_limits.primary is Some,
        sess.rate_limits.secondary is Some,
        cfg.usage_primary_weight_percent >= 0,
        cfg.usage_secondary_weight_percent >= 0,
        cfg.usage_primary_weight_percent + cfg.usage_secondary_weight_percent > 0,
    ensures
        ({
            let v = cfg.usage_primary_weight_percent as int;
            let w = cfg.usage_secondary_weight_percent as int;
            let p = left_of(sess.rate_limits.primary->0);
            let s = left_of(sess.rate_limits.secondary->0);
            let left = usage_left(sess, cfg);
            &&& left * (v + w) <= p * v + s * w < (left + 1) * (v + w)
            &&& w == 0 ==> left == p
            &&& v == 0 ==> left == s
            &&& v == w ==> left == (p + s) / 2
        }),
{
    let v = cfg.usage_primary_weight_percent as int;
    let w = cfg.usage_secondary_weight_percent as int;
    let p = left_of(sess.rate_limits.primary->0);
    let s = left_of(sess.rate_limits.secondary->0);
    let left = usage_left(sess, cfg);
    let n = p * v + s * w;
    assert(n >= 0) by (nonlinear_arith)
        requires
            n == p * v + s * w,
            p >= 0,
            s >= 0,
            v >= 0,
            w >= 0,
    ;
    quotients_are_rounded_toward_zero(n, v + w);
    if w == 0 {
        assert(left == p) by (nonlinear_arith)
            requires
                left * (v + w) <= p * v + s * w < (left + 1) * (v + w),
                w == 0,
                v > 0,
        ;
    }
    if v == 0 {
        assert(left == s) by (nonlinear_arith)
            requires
                left * (v + w) <= p * v + s * w < (left + 1) * (v + w),
                v == 0,
                w > 0,
        ;
    }
    if v == w {
        assert(2 * left <= p + s < 2 * left + 2) by (nonlinear_arith)
            requires
                left * (v + w) <= p * v + s * w < (left + 1) * (v + w),
                v == w,
                v > 0,
        ;
    }
}

/// Only the ratio of the weights counts: weights that are the same multiple of others give the same
/// usage left.
pub proof fn only_the_ratio_of_the_weights_counts(
    sess: SessionStatus,
    a: ScoringConfig,
    b: ScoringConfig,
    factor: int,
)
    requires
        factor > 0,
        a.usage_primary_weight_percent >= 0,
        a.usage_secondary_weight_percent >= 0,
        a.usage_primary_weight_percent + a.usage_secondary_weight_percent > 0,
        b.usage_primary_weight_percent == factor * a.usage_primary_weight_percent,
        b.usage_secondary_weight_percent == factor * a.usage_secondary_weight_percent,
        a.unknown_usage_left_percent == b.unknown_usage_left_percent,
    ensures
        usage_left(sess, a) == usage_left(sess, b),
{
    match (sess.rate_limits.primary, sess.rate_limits.secondary) {
        (Some(p), Some(s)) => {
            let v = a.usage_primary_weight_percent as int;
            let w = a.usage_secondary_weight_percent as int;
            let x = left_of(p);
            let y = left_of(s);
            let n = x * v + y * w;
            assert(n >= 0) by (nonlinear_arith)
                requires
                    n == x * v + y * w,
                    x >= 0,
                    y >= 0,
                    v >= 0,
                    w >= 0,
            ;
            let m = x * (factor * v) + y * (factor * w);
            assert(m == factor * n) by (nonlinear_arith)
                requires
                    m == x * (factor * v) + y * (factor * w),
                    n == x * v + y * w,
            ;
            assert(factor * v + factor * w == factor * (v + w)) by (nonlinear_arith);
            assert(factor * (v + w) >= 1) by (nonlinear_arith)
                requires
                    factor > 0,
                    v + w > 0,
            ;
            assert(factor * n >= 0) by (nonlinear_arith)
                requires
                    factor > 0,
                    n >= 0,
            ;
            let d = v + w;
            assert((factor * n) / factor == n) by (nonlinear_arith)
                requires
                    factor > 0,
            ;
            vstd::arithmetic::div_mod::lemma_div_denominator(factor * n, factor, d);
        },
        _ => {},
    }
}

/// A limit of which nothing is known does not count: with one limit the usage left is what is left
/// of it, and with none it is the percentage of the configuration.
pub proof fn unknown_limits_do_not_count(sess: SessionStatus, cfg: ScoringConfig)
    ensures
        ({
            let p = sess.rate_limits.primary;
            let s = sess.rate_limits.secondary;
            &&& p is Some && s is None ==> usage_left(sess, cfg) == left_of(p->0)
            &&& p is None && s is Some ==> usage_left(sess, cfg) == left_of(s->0)
            &&& p is None && s is None ==> usage_left(sess, cfg) == cfg.unknown_usage_left_percent
        }),
{
}

/// The factors of the score are those of the settings, each by its own name.
pub proof fn every_factor_comes_from_its_setting(s: Sessions)
    ensures
        ScoringConfig::of(s@).stale_sec == s.stale_sec,
        ScoringConfig::of(s@).busy_penalty == s.busy_penalty,
        ScoringConfig::of(s@).unknown_usage_left_percent == s.unknown_usage_left_percent,
        ScoringConfig::of(s@).usage_primary_weight_percent == s.usage_primary_weight_percent,
        ScoringConfig::of(s@).usage_secondary_weight_percent == s.usage_secondary_weight_percent,
        ScoringConfig::of(s@).restart_penalty_per_restart == s.restart_penalty_per_restart,
        ScoringConfig::of(s@).restart_penalty_cap == s.restart_penalty_cap,
        ScoringConfig::of(s@).staleness_penalty_max == s.staleness_penalty_max,
{
}

/// A session can be picked exactly where it is healthy and the time of its last update can be read
/// and lies no more than the limit in the past, counted in whole seconds.
pub proof fn healthy_and_fresh_sessions_can_be_picked(
    sess: SessionStatus,
    at: Timestamp,
    now: Timestamp,
    cfg: ScoringConfig,
)
    requires
        cfg.stale_sec >= 0,
        at.nanos < 1_000_000_000,
        now.nanos < 1_000_000_000,
    ensures
        instant_of(sess.last_rate_limit_update_at@) == Some(at) ==> (eligible(sess, now, cfg)
            <==> sess.health@ == "healthy"@ && (now.secs - at.secs) * 1_000_000_000 + (now.nanos
            - at.nanos) < (cfg.stale_sec + 1) * 1_000_000_000),
        instant_of(sess.last_rate_limit_update_at@) is None ==> !eligible(sess, now, cfg),
{
}

/// A session with nothing to its disadvantage, idle, never restarted and just updated, scores the
/// usage left, which counts as a percentage.
pub proof fn a_session_without_burdens_scores_its_usage(
    alias: Seq<char>,
    sess: SessionStatus,
    age: int,
    last: Option<Timestamp>,
    cfg: ScoringConfig,
)
    requires
        sess.activity.active_turns <= 0,
        sess.app_server.restart_count <= 0,
        cfg.restart_penalty_cap >= 0,
        age <= 0,
    ensures
        ({
            let rank = rank_at(alias, sess, age, last, cfg);
            let left = usage_left(sess, cfg);
            &&& rank.score == rank.usage_left
            &&& 0 <= left <= 100 ==> rank.usage_left == left
            &&& left < 0 ==> rank.usage_left == 0
            &&& left > 100 ==> rank.usage_left == 100
            &&& rank.active_turns == 0
            &&& rank.last_selected_at == last
            &&& rank.alias == alias
        }),
{
    assert(0 * cfg.busy_penalty == 0) by (nonlinear_arith);
    assert(0 * cfg.restart_penalty_per_restart == 0) by (nonlinear_arith);
}

/// Each turn more takes the penalty for a turn from the score, and changes nothing else but the
/// number of turns.
pub proof fn each_turn_costs_its_penalty(
    alias: Seq<char>,
    sess: SessionStatus,
    age: int,
    last: Option<Timestamp>,
    cfg: ScoringConfig,
)
    requires
        0 <= sess.activity.active_turns < i64::MAX,
    ensures
        ({
            let busier = SessionStatus {
                activity: Activity { active_turns: (sess.activity.active_turns + 1) as i64 },
                ..sess
            };
            let a = rank_at(alias, sess, age, last, cfg);
            let b = rank_at(alias, busier, age, last, cfg);
            &&& a.active_turns == sess.activity.active_turns
            &&& b.active_turns == sess.activity.active_turns + 1
            &&& b.score == a.score - cfg.busy_penalty
            &&& b.usage_left == a.usage_left
        }),
{
    let busier = SessionStatus {
        activity: Activity { active_turns: (sess.activity.active_turns + 1) as i64 },
        ..sess
    };
    let t = sess.activity.active_turns as int;
    let c = cfg.busy_penalty as int;
    assert((t + 1) * c == t * c + c) by (nonlinear_arith);
    assert(usage_left(busier, cfg) == usage_left(sess, cfg));
    assert(restart_penalty(busier, cfg) == restart_penalty(sess, cfg));
}

/// Each restart more takes the penalty for a restart from the score, until all restarts together
/// cost the cap, and changes nothing else.
pub proof fn each_restart_costs_its_penalty_up_to_the_cap(
    alias: Seq<char>,
    sess: SessionStatus,
    age: int,
    last: Option<Timestamp>,
    cfg: ScoringConfig,
)
    requires
        0 <= sess.app_server.restart_count < i64::MAX,
        cfg.restart_penalty_per_restart >= 0,
        cfg.restart_penalty_cap >= 0,
    ensures
        ({
            let r = sess.app_server.restart_count as int;
            let per = cfg.restart_penalty_per_restart as int;
            let cap = cfg.restart_penalty_cap as int;
            let worse = SessionStatus {
                app_server: AppServerStatus { restart_count: (r + 1) as i64, ..sess.app_server },
                ..sess
            };
            let none = SessionStatus {
                app_server: AppServerStatus { restart_count: 0, ..sess.app_server },
                ..sess
            };
            let a = rank_at(alias, sess, age, last, cfg);
            let b = rank_at(alias, worse, age, last, cfg);
            let c = rank_at(alias, none, age, last, cfg);
            &&& (r + 1) * per <= cap ==> b.score == a.score - per
            &&& r * per >= cap ==> b.score == a.score
            &&& c.score - cap <= b.score <= a.score <= c.score
            &&& r * per >= cap ==> a.score == c.score - cap
            &&& b.usage_left == a.usage_left && b.active_turns == a.active_turns
        }),
{
    let r = sess.app_server.restart_count as int;
    let per = cfg.restart_penalty_per_restart as int;
    let worse = SessionStatus {
        app_server: AppServerStatus { restart_count: (r + 1) as i64, ..sess.app_server },
        ..sess
    };
    let none = SessionStatus {
        app_server: AppServerStatus { restart_count: 0, ..sess.app_server },
        ..sess
    };
    assert(0 * per == 0) by (nonlinear_arith);
    assert((r + 1) * per == r * per + per) by (nonlinear_arith);
    assert(r * per >= 0) by (nonlinear_arith)
        requires
            r >= 0,
            per >= 0,
    ;
    assert(usage_left(worse, cfg) == usage_left(sess, cfg));
    assert(usage_left(none, cfg) == usage_left(sess, cfg));
}

/// The age of the rate limits costs a share of the greatest penalty for it: none where they are
/// new, all of it where they are as old as they may be, and in between the same part of it as the
/// age is of the limit, rounded down.
pub proof fn age_costs_its_share(
    alias: Seq<char>,
    sess: SessionStatus,
    age: int,
    last: Option<Timestamp>,
    cfg: ScoringConfig,
)
    requires
        0 <= age <= cfg.stale_sec,
        cfg.stale_sec > 0,
        cfg.staleness_penalty_max >= 0,
    ensures
        ({
            let fresh = rank_at(alias, sess, 0, last, cfg);
            let aged = rank_at(alias, sess, age, last, cfg);
            let cost = fresh.score - aged.score;
            &&& cost * cfg.stale_sec <= age * cfg.staleness_penalty_max < (cost + 1)
                * cfg.stale_sec
            &&& age == cfg.stale_sec ==> cost == cfg.staleness_penalty_max
            &&& aged.usage_left == fresh.usage_left && aged.active_turns == fresh.active_turns
            &&& rank_at(alias, sess, -age, last, cfg) == fresh
        }),
{
    let stale = cfg.stale_sec as int;
    let most = cfg.staleness_penalty_max as int;
    let n = age * most;
    assert(0 <= n <= stale * most) by (nonlinear_arith)
        requires
            n == age * most,
            0 <= age <= stale,
            most >= 0,
    ;
    quotients_are_rounded_toward_zero(n, stale);
    let q = toward_zero(n, stale);
    assert(0 <= q <= most) by (nonlinear_arith)
        requires
            q * stale <= n < (q + 1) * stale,
            0 <= n <= stale * most,
            stale > 0,
    ;
    if age == stale {
        assert(q == most) by (nonlinear_arith)
            requires
                q * stale <= n < (q + 1) * stale,
                n == stale * most,
                stale > 0,
        ;
    }
    assert(0 * stale == 0) by (nonlinear_arith);
    if age == 0 {
        assert(n == 0) by (nonlinear_arith)
            requires
                n == age * most,
                age == 0,
        ;
        assert(0 < stale);
        assert((0 + 1) * stale == stale) by (nonlinear_arith);
    }
}

/// A percent more of usage left is a point more of score.
pub proof fn a_percent_is_a_point(
    alias: Seq<char>,
    x: SessionStatus,
    y: SessionStatus,
    age: int,
    last: Option<Timestamp>,
    cfg: ScoringConfig,
)
    requires
        x.activity == y.activity,
        x.app_server.restart_count == y.app_server.restart_count,
    ensures
        ({
            let a = rank_at(alias, x, age, last, cfg);
            let b = rank_at(alias, y, age, last, cfg);
            a.score - b.score == a.usage_left - b.usage_left
        }),
{
}

/// The higher score wins; where scores tie, the more usage left; where that ties too, the fewer
/// turns; where that ties too, the longer time since the last selection, which is longest for a
/// session that was never selected; and where all tie, the alias that sorts first.
pub proof fn ranks_are_settled_in_this_order(a: Rank, b: Rank)
    ensures
        a.score > b.score ==> outranks(a, b),
        a.score == b.score && a.usage_left > b.usage_left ==> outranks(a, b),
        a.score == b.score && a.usage_left == b.usage_left && a.active_turns < b.active_turns
            ==> outranks(a, b),
        a.score == b.score && a.usage_left == b.usage_left && a.active_turns == b.active_turns
            ==> {
            &&& a.last_selected_at is None && b.last_selected_at is Some ==> outranks(a, b)
            &&& a.last_selected_at is Some && b.last_selected_at is Some && (
            a.last_selected_at->0.secs < b.last_selected_at->0.secs || (
            a.last_selected_at->0.secs == b.last_selected_at->0.secs
                && a.last_selected_at->0.nanos < b.last_selected_at->0.nanos)) ==> outranks(a, b)
            &&& a.last_selected_at == b.last_selected_at ==> outranks(a, b) == before(
                a.alias,
                b.alias,
            )
        },
{
}

/// Of two ranks of different sessions exactly one is the higher.
pub proof fn ranks_never_tie(a: Rank, b: Rank)
    requires
        a.alias != b.alias,
    ensures
        outranks(a, b) <==> !outranks(b, a),
{
    before_is_total(a.alias, b.alias);
    if before(a.alias, b.alias) && before(b.alias, a.alias) {
        before_is_transitive(a.alias, b.alias, a.alias);
        before_is_irreflexive(a.alias);
    }
}

/// No session can be picked exactly where there is none that is healthy and fresh; and where one is
/// the best, there is one that can.
pub proof fn none_or_one_is_picked(
    sessions: Map<Seq<char>, SessionStatus>,
    now: Timestamp,
    cfg: ScoringConfig,
    alias: Seq<char>,
)
    ensures
        sessions.contains_key(alias) && eligible(sessions[alias], now, cfg) ==> !none_eligible(
            sessions,
            now,
            cfg,
        ),
        is_best(sessions, now, cfg, alias) ==> !none_eligible(sessions, now, cfg),
        (forall|other: Seq<char>| #[trigger]
            sessions.contains_key(other) ==> !eligible(sessions[other], now, cfg))
            ==> none_eligible(sessions, now, cfg),
{
}

/// What is said of a candidate is said of its fields, and what is said of an age is said of its
/// seconds.
pub proof fn the_view_of_a_candidate_is_its_fields(c: Candidate, age: Option<i64>)
    ensures
        c@.score == c.score,
        c@.usage_left == c.usage_left,
        c@.active_turns == c.active_turns,
        c@.last_selected_at == c.last_selected_at,
        c@.alias == c.alias@,
        known_age(age) is Some <==> age is Some,
        age is Some ==> known_age(age)->0 == age->0,
{
}

/// Sessions and settings with everyday numbers can be ranked: percentages, counts and factors up to
/// a million, and limits that are not older than may be.
pub proof fn everyday_numbers_can_be_ranked(sess: SessionStatus, age: int, cfg: ScoringConfig)
    requires
        sess.rate_limits.primary is Some ==> -1_000_000
            <= sess.rate_limits.primary->0.used_percent,
        sess.rate_limits.secondary is Some ==> -1_000_000
            <= sess.rate_limits.secondary->0.used_percent,
        0 <= cfg.usage_primary_weight_percent <= 1_000_000,
        0 <= cfg.usage_secondary_weight_percent <= 1_000_000,
        sess.activity.active_turns <= 1_000_000,
        sess.app_server.restart_count <= 1_000_000,
        0 <= cfg.busy_penalty <= 1_000_000,
        0 <= cfg.restart_penalty_per_restart <= 1_000_000,
        0 <= cfg.restart_penalty_cap <= 1_000_000,
        0 <= cfg.staleness_penalty_max <= 1_000_000,
        age <= cfg.stale_sec <= 1_000_000_000,
    ensures
        usage_in_range(sess, cfg),
        score_in_range(sess, age, cfg),
        rankable_at(sess, Some(age), cfg),
        window_in_range(None),
{
    let p = match sess.rate_limits.primary {
        Some(w) => left_of(w),
        None => 0,
    };
    let s = match sess.rate_limits.secondary {
        Some(w) => left_of(w),
        None => 0,
    };
    let v = cfg.usage_primary_weight_percent as int;
    let w = cfg.usage_secondary_weight_percent as int;
    assert(0 <= p * v <= 100_000_000) by (nonlinear_arith)
        requires
            0 <= p <= 100,
            0 <= v <= 1_000_000,
    ;
    assert(0 <= s * w <= 100_000_000) by (nonlinear_arith)
        requires
            0 <= s <= 100,
            0 <= w <= 1_000_000,
    ;
    let turns = larger(sess.activity.active_turns as int, 0);
    let restarts = larger(sess.app_server.restart_count as int, 0);
    let busy = cfg.busy_penalty as int;
    let per = cfg.restart_penalty_per_restart as int;
    let most = cfg.staleness_penalty_max as int;
    assert(0 <= turns * busy <= 1_000_000_000_000) by (nonlinear_arith)
        requires
            0 <= turns <= 1_000_000,
            0 <= busy <= 1_000_000,
    ;
    assert(0 <= restarts * per <= 1_000_000_000_000) by (nonlinear_arith)
        requires
            0 <= restarts <= 1_000_000,
            0 <= per <= 1_000_000,
    ;
    if age > 0 {
        assert(0 <= age * most <= 1_000_000_000_000_000) by (nonlinear_arith)
            requires
                0 <= age <= 1_000_000_000,
                0 <= most <= 1_000_000,
        ;
    }
}

/// The session that is picked is one of those that can be picked, and no other of them has a higher
/// score, or the same score and more usage left, or the same of both and fewer turns.
pub proof fn nothing_better_is_passed_over(
    sessions: Map<Seq<char>, SessionStatus>,
    now: Timestamp,
    cfg: ScoringConfig,
    best: Seq<char>,
    other: Seq<char>,
)
    requires
        is_best(sessions, now, cfg, best),
    ensures
        sessions.contains_key(best),
        eligible(sessions[best], now, cfg),
        sessions.contains_key(other) && eligible(sessions[other], now, cfg) ==> {
            let a = rank_of(best, sessions[best], now, cfg);
            let b = rank_of(other, sessions[other], now, cfg);
            &&& a.score >= b.score
            &&& a.score == b.score ==> a.usage_left >= b.usage_left
            &&& a.score == b.score && a.usage_left == b.usage_left ==> a.active_turns
                <= b.active_turns
        },
{
}

/// The rank of a session comes from its own status: from its last update, as far as it lies in the
/// past, and from its last selection.
pub proof fn ranks_come_from_the_status(
    alias: Seq<char>,
    sess: SessionStatus,
    at: Timestamp,
    now: Timestamp,
    cfg: ScoringConfig,
)
    requires
        instant_of(sess.last_rate_limit_update_at@) == Some(at),
    ensures
        rank_of(alias, sess, now, cfg) == rank_at(
            alias,
            sess,
            seconds_between(at, now),
            instant_of(sess.last_selected_at@),
            cfg,
        ),
        rank_of(alias, sess, now, cfg).last_selected_at == instant_of(sess.last_selected_at@),
        rank_of(alias, sess, now, cfg).alias == alias,
{
}

/// The report has one line for each session, in their order, and names the choice at its end.
pub proof fn the_report_goes_line_by_line(
    a: Seq<(Seq<char>, SessionStatus)>,
    b: Seq<(Seq<char>, SessionStatus)>,
    entry: (Seq<char>, SessionStatus),
    now: Timestamp,
    cfg: ScoringConfig,
    alias: Seq<char>,
)
    ensures
        report_lines(a + b, now, cfg) == report_lines(a, now, cfg) + report_lines(b, now, cfg),
        report_lines(seq![entry], now, cfg) == report_line(entry.0, entry.1, now, cfg),
        !eligible(entry.1, now, cfg) ==> report_line(entry.0, entry.1, now, cfg) == "  "@ + entry.0
            + ": not eligible\n"@,
        eligible(entry.1, now, cfg) ==> {
            let rank = rank_of(entry.0, entry.1, now, cfg);
            report_line(entry.0, entry.1, now, cfg) == "  "@ + entry.0 + ": score "@
                + signed_decimal(rank.score) + ", usage left "@ + signed_decimal(rank.usage_left)
                + "%, active turns "@ + signed_decimal(rank.active_turns) + "\n"@
        },
        report_text(a, now, cfg, alias) == "session selection report:\n"@ + report_lines(
            a,
            now,
            cfg,
        ) + "selected session: "@ + alias,
    decreases b.len(),
{
    let one = seq![entry];
    assert(report_lines(one.drop_last(), now, cfg) =~= seq![]);
    assert(report_lines(one, now, cfg) =~= report_line(entry.0, entry.1, now, cfg));
    if b.len() == 0 {
        assert(a + b =~= a);
        assert(report_lines(a, now, cfg) + report_lines(b, now, cfg) =~= report_lines(a, now, cfg));
    } else {
        the_report_goes_line_by_line(a, b.drop_last(), entry, now, cfg, alias);
        assert((a + b).drop_last() =~= a + b.drop_last());
        assert((a + b).last() == b.last());
        assert(report_lines(a + b, now, cfg) =~= report_lines(a, now, cfg) + report_lines(
            b,
            now,
            cfg,
        ));
    }
}

/// Marking a session as selected stamps it and the status with the time, and changes nothing else.
pub proof fn marking_changes_two_times(
    before: StatusFile,
    after: StatusFile,
    alias: Seq<char>,
    now: Seq<char>,
)
    requires
        marked(before, after, alias, now),
        before.sessions.map().contains_key(alias),
    ensures
        after.updated_at@ == now,
        after.version == before.version,
        after.daemon == before.daemon,
        after.sessions.map().dom() == before.sessions.map().dom(),
        after.sessions.map()[alias]@ == (SessionView {
            last_selected_at: now,
            ..before.sessions.map()[alias]@
        }),
        forall|other: Seq<char>|
            #![trigger after.sessions.map()[other]]
            other != alias && before.sessions.map().contains_key(other)
                ==> after.sessions.map()[other] == before.sessions.map()[other],
{
    assert(after.sessions.map().dom() =~= before.sessions.map().dom());
}

/// With the default factors, a session with sensible counts scores its usage left, less five
/// for each active turn, less two for each restart but at most twenty, less ten 420ths of a
/// point for each second of age, rounded down.
pub proof fn default_score(sess: SessionStatus, now: Timestamp, alias: Seq<char>)
    requires
        eligible(sess, now, ScoringConfig::of(crate::config::default_settings().sessions)),
        sess.activity.active_turns >= 0,
        sess.app_server.restart_count >= 0,
        age_of(sess, now)->0 >= 0,
    ensures
        ({
            let cfg = ScoringConfig::of(crate::config::default_settings().sessions);
            let rank = rank_of(alias, sess, now, cfg);
            &&& rank.usage_left == usage_left(sess, cfg)
            &&& rank.score == usage_left(sess, cfg) - 5 * sess.activity.active_turns - smaller(
                2 * sess.app_server.restart_count,
                20,
            ) - (age_of(sess, now)->0 * 10) / 420
        }),
{
    let cfg = ScoringConfig::of(crate::config::default_settings().sessions);
    usage_left_is_a_percentage(sess, cfg);
    let age = age_of(sess, now)->0;
    let turns = sess.activity.active_turns as int;
    let restarts = sess.app_server.restart_count as int;
    assert(cfg.busy_penalty == 5 && cfg.restart_penalty_per_restart == 2);
    assert(cfg.staleness_penalty_max == 10 && cfg.stale_sec == 420);
    assert(turns * cfg.busy_penalty == 5 * turns);
    assert(restarts * cfg.restart_penalty_per_restart == 2 * restarts);
    assert(age * cfg.staleness_penalty_max == age * 10);
    assert(toward_zero(age * 10, 420) == (age * 10) / 420);
    assert(staleness_penalty(age, cfg) == (age * 10) / 420);
}

/// The three ways to weigh the limits with the default factors.
pub proof fn default_usage_left(sess: SessionStatus)
    ensures
        ({
            let cfg = ScoringConfig::of(crate::config::default_settings().sessions);
            let p = sess.rate_limits.primary;
            let s = sess.rate_limits.secondary;
            &&& p is Some && s is Some ==> usage_left(sess, cfg) == (60 * left_of(p->0) + 40
                * left_of(s->0)) / 100
            &&& p is Some && s is None ==> usage_left(sess, cfg) == left_of(p->0)
            &&& p is None && s is Some ==> usage_left(sess, cfg) == left_of(s->0)
            &&& p is None && s is None ==> usage_left(sess, cfg) == 30
        }),
{
    let cfg = ScoringConfig::of(crate::config::default_settings().sessions);
    assert(cfg.usage_primary_weight_percent == 60 && cfg.usage_secondary_weight_percent == 40);
    match (sess.rate_limits.primary, sess.rate_limits.secondary) {
        (Some(p), Some(s)) => {
            assert(left_of(p) * cfg.usage_primary_weight_percent == 60 * left_of(p));
            assert(left_of(s) * cfg.usage_secondary_weight_percent == 40 * left_of(s));
        },
        _ => {},
    }
}

/// Where no factor is negative, penalties only take away from the usage left.
pub proof fn score_is_at_most_the_usage_left(
    sess: SessionStatus,
    now: Timestamp,
    cfg: ScoringConfig,
    alias: Seq<char>,
)
    requires
        cfg.busy_penalty >= 0,
        cfg.restart_penalty_per_restart >= 0,
        cfg.restart_penalty_cap >= 0,
        cfg.staleness_penalty_max >= 0,
    ensures
        rank_of(alias, sess, now, cfg).score <= rank_of(alias, sess, now, cfg).usage_left <= 100,
{
    let turns = larger(sess.activity.active_turns as int, 0);
    let restarts = larger(sess.app_server.restart_count as int, 0);
    assert(turns * cfg.busy_penalty >= 0) by (nonlinear_arith)
        requires
            turns >= 0,
            cfg.busy_penalty >= 0,
    ;
    assert(restarts * cfg.restart_penalty_per_restart >= 0) by (nonlinear_arith)
        requires
            restarts >= 0,
            cfg.restart_penalty_per_restart >= 0,
    ;
}

/// Of two sessions that differ only in their active turns, the less busy one is picked.
pub proof fn the_less_busy_session_wins(
    sess: SessionStatus,
    more: i64,
    now: Timestamp,
    cfg: ScoringConfig,
    a: Seq<char>,
    b: Seq<char>,
)
    requires
        cfg.busy_penalty >= 0,
        0 <= sess.activity.active_turns < more,
    ensures
        outranks(
            rank_of(a, sess, now, cfg),
            rank_of(
                b,
                (SessionStatus { activity: Activity { active_turns: more }, ..sess }),
                now,
                cfg,
            ),
        ),
{
    let busier = SessionStatus { activity: Activity { active_turns: more }, ..sess };
    let fewer = sess.activity.active_turns as int;
    assert(fewer * cfg.busy_penalty <= more * cfg.busy_penalty) by (nonlinear_arith)
        requires
            0 <= fewer <= more,
            cfg.busy_penalty >= 0,
    ;
    assert(usage_left(busier, cfg) == usage_left(sess, cfg));
    assert(restart_penalty(busier, cfg) == restart_penalty(sess, cfg));
    assert(age_of(busier, now) == age_of(sess, now));
}

/// Of sessions that tie in score, usage left and active turns, the one that was selected longer
/// ago is picked, and one that was never selected before any that was.
pub proof fn ties_go_to_the_least_recently_selected(a: Rank, b: Rank)
    requires
        a.score == b.score,
        a.usage_left == b.usage_left,
        a.active_turns == b.active_turns,
        selected_longer_ago(a.last_selected_at, b.last_selected_at),
    ensures
        outranks(a, b),
        !outranks(b, a),
{
}

/// Marking a session as selected changes neither its score, nor its usage left, nor its active
/// turns; it only makes the session the most recently selected one.
pub proof fn marking_keeps_the_score(
    before: StatusFile,
    after: StatusFile,
    alias: Seq<char>,
    now_text: Seq<char>,
    now: Timestamp,
    cfg: ScoringConfig,
)
    requires
        marked(before, after, alias, now_text),
        before.sessions.map().contains_key(alias),
    ensures
        eligible(after.sessions.map()[alias], now, cfg) == eligible(
            before.sessions.map()[alias],
            now,
            cfg,
        ),
        rank_of(alias, after.sessions.map()[alias], now, cfg) == (Rank {
            last_selected_at: instant_of(now_text),
            ..rank_of(alias, before.sessions.map()[alias], now, cfg)
        }),
        forall|other: Seq<char>|
            #![trigger after.sessions.map()[other]]
            other != alias && before.sessions.map().contains_key(other)
                ==> after.sessions.map()[other] == before.sessions.map()[other],
{
    let x = before.sessions.map()[alias];
    let y = after.sessions.map()[alias];
    assert(usage_left(x, cfg) == usage_left(y, cfg));
    assert(restart_penalty(x, cfg) == restart_penalty(y, cfg));
    assert(age_of(x, now) == age_of(y, now));
}

/// The status file, as the JSON document `json`.
pub fn save_status(st: &Store, json: Vec<u8>, pid: u32) -> (r: Result<FileWrite, Error>)
    ensures
        match r {
            Ok(write) => plain_name(file_part(st@.status_path)) && writes(
                write,
                st@.status_path,
                json@.push(10u8),
                Some(staging_path(st@.status_path, pid)),
                PRIVATE_FILE_MODE,
            ),
            Err(e) => !plain_name(file_part(st@.status_path)) && e.says(
                ErrorKind::Other,
                "invalid path"@,
            ),
        },
{
    st.write_json_atomic(st.status_path.as_str(), json, pid)
}

} // verus!
